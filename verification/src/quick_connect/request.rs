//! What a request's headers say of its client and of its user.
use vstd::prelude::*;
use axum::http::{HeaderMap, HeaderValue};
use crate::authorization;
use crate::authorization::{Authorization, AuthorizationView};
use crate::headers;
use crate::headers::header_text;
use crate::ids;
use crate::ids::{id_text, new_id};
use crate::quick_connect::device;
use crate::quick_connect::device::effective_authorization;
use crate::quick_connect::session::QuickConnectSession;
use crate::text;

verus! {

/// What a header says, where it can be read.
pub open spec fn readable(header: Option<Seq<char>>, legacy: bool) -> Option<AuthorizationView> {
    match header {
        Some(h) => match authorization::parsed(h, legacy) {
            Ok(a) => Some(a),
            Err(_) => None,
        },
        None => None,
    }
}

/// What the authorization header says, else what the Emby one says.
pub open spec fn said(authorization: Option<Seq<char>>, emby: Option<Seq<char>>) -> Option<
    AuthorizationView,
> {
    match readable(authorization, true) {
        Some(a) => Some(a),
        None => readable(emby, true),
    }
}

/// The view of an optional authorization.
pub open spec fn opt_view(authorization: Option<Authorization>) -> Option<AuthorizationView> {
    match authorization {
        Some(a) => Some(a@),
        None => None,
    }
}

/// The token that a header carries, where it can be read and carries one.
pub open spec fn carried_token(header: Option<Seq<char>>, legacy: bool) -> Option<Seq<char>> {
    match readable(header, legacy) {
        Some(a) => a.token,
        None => None,
    }
}

/// The token that a request carries: the first that its four headers hold, in
/// this order.
pub open spec fn token_of(
    authorization: Option<Seq<char>>,
    emby_authorization: Option<Seq<char>>,
    emby_token: Option<Seq<char>>,
    media_browser_token: Option<Seq<char>>,
) -> Option<Seq<char>> {
    match carried_token(authorization, false) {
        Some(t) => Some(t),
        None => match carried_token(emby_authorization, true) {
            Some(t) => Some(t),
            None => match emby_token {
                Some(t) => Some(t),
                None => media_browser_token,
            },
        },
    }
}

fn read_header(header: &Option<String>, legacy: bool) -> (read: Option<Authorization>)
    ensures
        opt_view(read) == readable(text::opt_text(*header), legacy),
{
    match header {
        Some(h) => match Authorization::parse_with_legacy(h.as_str(), legacy) {
            Ok(a) => Some(a),
            Err(_) => None,
        },
        None => None,
    }
}

/// What the authorization header says, else what the Emby one says.
pub fn choose_authorization(authorization: Option<String>, emby: Option<String>) -> (chosen: Option<
    Authorization,
>)
    ensures
        opt_view(chosen) == said(text::opt_text(authorization), text::opt_text(emby)),
{
    match read_header(&authorization, true) {
        Some(a) => Some(a),
        None => read_header(&emby, true),
    }
}

/// What a request's headers say of its client.
pub fn parse_authorization_from_headers(headers: &HeaderMap<HeaderValue>) -> (chosen: Option<
    Authorization,
>)
    ensures
        opt_view(chosen) == said(
            headers::text_under(*headers, "authorization"@),
            headers::text_under(*headers, "x-emby-authorization"@),
        ),
{
    choose_authorization(
        header_text(headers, "authorization"),
        header_text(headers, "x-emby-authorization"),
    )
}

/// A client's device, device name, application and version; `fresh` and fixed
/// texts where the request says nothing.
pub fn client_info(said: Option<Authorization>, fresh: String) -> (info: (
    String,
    String,
    String,
    String,
))
    ensures
        match said {
            Some(a) => info.0@ == a@.device_id && info.1@ == a@.device && info.2@ == a@.client
                && info.3@ == a@.version,
            None => info.0@ == fresh@ && info.1@ == "Unknown Device"@ && info.2@
                == "Unknown App"@ && info.3@ == "1.0.0"@,
        },
{
    match said {
        Some(a) => (a.device_id, a.device, a.client, a.version),
        None => (
            fresh,
            "Unknown Device".to_owned(),
            "Unknown App".to_owned(),
            "1.0.0".to_owned(),
        ),
    }
}

/// A client's device, device name, application and version, by the request's
/// headers. A client that says nothing gets a random device identifier.
pub fn parse_client_info(headers: &HeaderMap<HeaderValue>) -> (info: (
    String,
    String,
    String,
    String,
))
    ensures
        match said(
            headers::text_under(*headers, "authorization"@),
            headers::text_under(*headers, "x-emby-authorization"@),
        ) {
            Some(a) => info.0@ == a.device_id && info.1@ == a.device && info.2@ == a.client
                && info.3@ == a.version,
            None => (exists|id: u128|
                ids::is_random_id(id) && info.0@ == #[trigger] ids::hyphenated_text(id))
                && info.1@ == "Unknown Device"@ && info.2@ == "Unknown App"@ && info.3@
                == "1.0.0"@,
        },
{
    let said = parse_authorization_from_headers(headers);
    let id = new_id();
    client_info(said, id_text(id))
}

/// The token that a request carries, from its four headers.
pub fn choose_token(
    authorization: Option<String>,
    emby_authorization: Option<String>,
    emby_token: Option<String>,
    media_browser_token: Option<String>,
) -> (token: Option<String>)
    ensures
        text::opt_text(token) == token_of(
            text::opt_text(authorization),
            text::opt_text(emby_authorization),
            text::opt_text(emby_token),
            text::opt_text(media_browser_token),
        ),
{
    if let Some(a) = read_header(&authorization, false) {
        if let Some(token) = a.token {
            return Some(token);
        }
    }
    if let Some(a) = read_header(&emby_authorization, true) {
        if let Some(token) = a.token {
            return Some(token);
        }
    }
    match emby_token {
        Some(token) => Some(token),
        None => media_browser_token,
    }
}

/// The token that a request carries.
pub fn extract_virtual_token(headers: &HeaderMap<HeaderValue>) -> (token: Option<String>)
    ensures
        text::opt_text(token) == token_of(
            headers::text_under(*headers, "authorization"@),
            headers::text_under(*headers, "x-emby-authorization"@),
            headers::text_under(*headers, "x-emby-token"@),
            headers::text_under(*headers, "x-mediabrowser-token"@),
        ),
{
    choose_token(
        header_text(headers, "authorization"),
        header_text(headers, "x-emby-authorization"),
        header_text(headers, "x-emby-token"),
        header_text(headers, "x-mediabrowser-token"),
    )
}

/// What a Quick Connect sign-in is booked under, by the request's headers.
pub fn effective_quick_connect_authorization(
    headers: &HeaderMap<HeaderValue>,
    session: &QuickConnectSession,
    user_id: &str,
) -> (authorization: Authorization)
    ensures
        authorization@ == device::effective(
            said(
                headers::text_under(*headers, "authorization"@),
                headers::text_under(*headers, "x-emby-authorization"@),
            ),
            session@,
            user_id@,
        ),
{
    effective_authorization(parse_authorization_from_headers(headers), session, user_id)
}

} // verus!
