//! The proxy's own users.
use vstd::prelude::*;

verus! {

/// A user of the proxy.
#[derive(Debug)]
pub struct User {
    pub id: String,
    pub virtual_key: String,
    pub original_username: String,
}

impl Clone for User {
    fn clone(&self) -> (copy: Self)
        ensures
            copy == *self,
    {
        User {
            id: self.id.clone(),
            virtual_key: self.virtual_key.clone(),
            original_username: self.original_username.clone(),
        }
    }
}

} // verus!
