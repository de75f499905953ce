//! The device that a Quick Connect sign-in is booked under.
//!
//! An Android TV device is shared by its users, so each user gets a device
//! identifier of their own there.
use vstd::prelude::*;
use crate::authorization::{Authorization, AuthorizationView};
use crate::digest;
use crate::digest::{hex_encode, sha1};
use crate::ids;
use crate::ids::{id_text, parse_id};
use crate::quick_connect::session::{QuickConnectSession, SessionView};
use crate::text;
use crate::text::{contains_text, to_ascii_lowercase};

verus! {

/// A client whose name holds "android tv", in letters of either case.
pub open spec fn android_tv(client: Seq<char>) -> bool {
    text::occurs(text::lowered(client), "android tv"@)
}

/// A user's identifier as the Android TV client writes it: in five groups of
/// small digits where it is a UUID, else as it stands.
pub open spec fn normalized_user_id(user_id: Seq<char>) -> Seq<char> {
    match ids::id_named(user_id) {
        Some(id) => ids::hyphenated_text(id),
        None => user_id,
    }
}

/// The bytes that a user's device identifier is the digest of.
pub open spec fn device_id_source(base: Seq<char>, user_id: Seq<char>) -> Seq<u8> {
    vstd::utf8::encode_utf8(base + "+"@ + normalized_user_id(user_id))
}

/// A user's device identifier on an Android TV device.
pub open spec fn user_device_id(base: Seq<char>, user_id: Seq<char>) -> Seq<char> {
    digest::hex_text(digest::sha1_digest(device_id_source(base, user_id)))
}

/// Whether a client is an Android TV client.
pub fn is_android_tv_client(client: &str) -> (is: bool)
    ensures
        is == android_tv(client@),
{
    contains_text(to_ascii_lowercase(client).as_str(), "android tv")
}

/// A user's identifier as the Android TV client writes it.
pub fn normalize_android_tv_user_id(user_id: &str) -> (normalized: String)
    ensures
        normalized@ == normalized_user_id(user_id@),
{
    match parse_id(user_id) {
        Some(id) => id_text(id),
        None => user_id.to_owned(),
    }
}

/// A user's device identifier on an Android TV device: the hexadecimal SHA-1
/// digest of the device's identifier, a plus sign and the user's identifier.
pub fn derive_android_tv_user_device_id(base_device_id: &str, user_id: &str) -> (derived: String)
    ensures
        derived@ == user_device_id(base_device_id@, user_id@),
        derived@.len() == 40,
{
    let mut source = base_device_id.to_owned();
    source.append("+");
    source.append(normalize_android_tv_user_id(user_id).as_str());
    hex_encode(sha1(source.as_str().as_bytes()).as_slice())
}

/// What a session says of its device.
pub open spec fn session_authorization(session: SessionView) -> AuthorizationView {
    AuthorizationView {
        client: session.app_name,
        device: session.device_name,
        device_id: session.device_id,
        version: session.app_version,
        token: None,
    }
}

/// What a sign-in is booked under: what the request says of the client, else
/// what the session says, without a token, and under the user's own device
/// identifier where the client is an Android TV client that names its device.
pub open spec fn effective(
    request: Option<AuthorizationView>,
    session: SessionView,
    user_id: Seq<char>,
) -> AuthorizationView {
    let said = match request {
        Some(r) => r,
        None => session_authorization(session),
    };
    AuthorizationView {
        device_id: if android_tv(said.client) && said.device_id.len() > 0 {
            user_device_id(said.device_id, user_id)
        } else {
            said.device_id
        },
        token: None,
        ..said
    }
}

/// What a sign-in is booked under, from what the request said.
pub fn effective_authorization(
    request: Option<Authorization>,
    session: &QuickConnectSession,
    user_id: &str,
) -> (authorization: Authorization)
    ensures
        authorization@ == effective(
            match request {
                Some(r) => Some(r@),
                None => None,
            },
            session@,
            user_id@,
        ),
{
    let mut authorization = match request {
        Some(r) => r,
        None => Authorization {
            client: session.app_name.clone(),
            device: session.device_name.clone(),
            device_id: session.device_id.clone(),
            version: session.app_version.clone(),
            token: None,
        },
    };
    authorization.token = None;
    if is_android_tv_client(authorization.client.as_str()) && !authorization.device_id.as_str().is_empty() {
        let derived = derive_android_tv_user_device_id(authorization.device_id.as_str(), user_id);
        authorization.device_id = derived;
    }
    authorization
}

/// Writing a user's identifier as the Android TV client does changes nothing
/// the second time.
pub proof fn law_normalizing_twice_is_normalizing_once(user_id: Seq<char>)
    ensures
        normalized_user_id(normalized_user_id(user_id)) == normalized_user_id(user_id),
{
    if let Some(id) = ids::id_named(user_id) {
        ids::law_hyphenated_text_names_its_id(id);
    }
}

/// Two texts that name one UUID give one device identifier.
pub proof fn law_device_id_goes_by_the_uuid(base: Seq<char>, a: Seq<char>, b: Seq<char>, id: u128)
    requires
        ids::names_id(a, id),
        ids::names_id(b, id),
    ensures
        user_device_id(base, a) == user_device_id(base, b),
{
    ids::law_text_names_one_id(a, id, choose|i: u128| ids::names_id(a, i));
    ids::law_text_names_one_id(b, id, choose|i: u128| ids::names_id(b, i));
}

/// No token of the request goes into a sign-in, and outside Android TV the
/// device identifier is the one that was given.
pub proof fn law_sign_in_carries_no_token(
    request: Option<AuthorizationView>,
    session: SessionView,
    user_id: Seq<char>,
)
    ensures
        effective(request, session, user_id).token is None,
        !android_tv(effective(request, session, user_id).client) ==> effective(
            request,
            session,
            user_id,
        ).device_id == match request {
            Some(r) => r.device_id,
            None => session.device_id,
        },
{
}

} // verus!
