//! The HTTP status codes that the handlers answer with.
use vstd::prelude::*;

verus! {

/// An HTTP status code.
#[allow(non_camel_case_types)]
#[derive(Clone, Copy, Debug, PartialEq, Eq, Structural)]
pub enum StatusCode {
    OK,
    BAD_REQUEST,
    UNAUTHORIZED,
    NOT_FOUND,
    CONFLICT,
    INTERNAL_SERVER_ERROR,
}

/// The number of a status code.
pub open spec fn status_number(status: StatusCode) -> u16 {
    match status {
        StatusCode::OK => 200,
        StatusCode::BAD_REQUEST => 400,
        StatusCode::UNAUTHORIZED => 401,
        StatusCode::NOT_FOUND => 404,
        StatusCode::CONFLICT => 409,
        StatusCode::INTERNAL_SERVER_ERROR => 500,
    }
}

impl StatusCode {
    /// The number of the status code.
    pub fn as_u16(self) -> (number: u16)
        ensures
            number == status_number(self),
    {
        match self {
            StatusCode::OK => 200,
            StatusCode::BAD_REQUEST => 400,
            StatusCode::UNAUTHORIZED => 401,
            StatusCode::NOT_FOUND => 404,
            StatusCode::CONFLICT => 409,
            StatusCode::INTERNAL_SERVER_ERROR => 500,
        }
    }
}

/// Success is in the two hundreds, what the client got wrong in the four hundreds and
/// what went wrong here in the five hundreds, each under the number that it has in
/// HTTP.
pub proof fn law_status_numbers_are_those_of_http(status: StatusCode)
    ensures
        status == StatusCode::OK <==> status_number(status) == 200,
        status == StatusCode::BAD_REQUEST <==> status_number(status) == 400,
        status == StatusCode::UNAUTHORIZED <==> status_number(status) == 401,
        status == StatusCode::NOT_FOUND <==> status_number(status) == 404,
        status == StatusCode::CONFLICT <==> status_number(status) == 409,
        status == StatusCode::INTERNAL_SERVER_ERROR <==> status_number(status) == 500,
{
}

} // verus!
