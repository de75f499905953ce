//! The Quick Connect requests, but for the sign-in itself.
//!
//! A function that ends in `_at` takes the time as an argument; its namesake
//! reads the clock.
use vstd::prelude::*;
use axum::http::{HeaderMap, HeaderValue};
use crate::clock;
use crate::clock::Timestamp;
use crate::headers;
use crate::ids;
use crate::ids::{id_text, new_id};
use crate::quick_connect::laws;
use crate::quick_connect::request;
use crate::quick_connect::request::{extract_virtual_token, parse_client_info};
use crate::quick_connect::session;
use crate::quick_connect::session::{QuickConnectSession, SessionView};
use crate::quick_connect::storage;
use crate::quick_connect::storage::QuickConnectStorage;
use crate::status::StatusCode;
use crate::text;
use crate::users::User;

verus! {

/// The query of a request to confirm a code.
#[derive(Debug)]
pub struct AuthorizeQuery {
    pub code: String,
    pub user_id: Option<String>,
}

/// The query of a request for the state of a session.
#[derive(Debug)]
pub struct ConnectQuery {
    pub secret: String,
}

/// The body of a request to sign in.
#[derive(Debug)]
pub struct QuickConnectAuthenticateRequest {
    pub secret: String,
}

/// Who confirms a code.
#[derive(Debug)]
pub enum AuthorizeUser {
    /// The user with this identifier.
    Known(String),
    /// The user that this token belongs to.
    ByToken(String),
}

/// Quick Connect is always enabled.
pub fn handle_quick_connect_enabled() -> (enabled: Result<bool, StatusCode>)
    ensures
        enabled == Ok::<bool, StatusCode>(true),
{
    Ok(true)
}

/// The sessions once `s` has begun at `now`.
pub open spec fn initiated(m: Map<Seq<char>, SessionView>, s: SessionView, now: nat) -> Map<
    Seq<char>,
    SessionView,
> {
    storage::cleaned(storage::stored(m, s), now)
}

/// Begins a session for a client at `now` and drops the expired ones.
pub fn initiate_at(
    storage: &mut QuickConnectStorage,
    secret: String,
    code: String,
    info: (String, String, String, String),
    now: Timestamp,
) -> (session: QuickConnectSession)
    ensures
        session@ == session::begun(secret@, code@, info.0@, info.1@, info.2@, info.3@, now@),
        final(storage)@ == initiated(old(storage)@, session@, now@),
{
    let (device_id, device_name, app_name, app_version) = info;
    let session = QuickConnectSession::new_at(
        secret,
        code,
        device_id,
        device_name,
        app_name,
        app_version,
        now,
    );
    storage.store_session(session.clone());
    let _ = storage.cleanup_expired_at(now);
    session
}

/// A session that has begun under `code` and a random secret, for the client that
/// the headers speak of. One that they say nothing of has a random device
/// identifier.
pub open spec fn begun_for(
    s: SessionView,
    headers: HeaderMap<HeaderValue>,
    code: Seq<char>,
) -> bool {
    &&& s == session::begun(
        s.secret,
        code,
        s.device_id,
        s.device_name,
        s.app_name,
        s.app_version,
        s.date_added,
    )
    &&& clock::is_reading(s.date_added)
    &&& exists|id: u128| ids::is_random_id(id) && s.secret == #[trigger] ids::hyphenated_text(id)
    &&& match request::said(
        headers::text_under(headers, "authorization"@),
        headers::text_under(headers, "x-emby-authorization"@),
    ) {
        Some(a) => s.device_id == a.device_id && s.device_name == a.device && s.app_name
            == a.client && s.app_version == a.version,
        None => (exists|id: u128|
            ids::is_random_id(id) && s.device_id == #[trigger] ids::hyphenated_text(id))
            && s.device_name == "Unknown Device"@ && s.app_name == "Unknown App"@
            && s.app_version == "1.0.0"@,
    }
}

/// Begins a session under a drawn code, for the client that the headers speak
/// of, and drops the expired ones.
pub fn initiate_with_code(
    storage: &mut QuickConnectStorage,
    headers: &HeaderMap<HeaderValue>,
    code: String,
) -> (session: QuickConnectSession)
    ensures
        begun_for(session@, *headers, code@),
        final(storage)@ == initiated(old(storage)@, session@, session.date_added@),
{
    let id = new_id();
    let info = parse_client_info(headers);
    initiate_at(storage, id_text(id), code, info, Timestamp::now())
}

/// Draws a code that is not in use and begins a session under it. A session
/// begins wherever some code is free; where none is nothing changes. Which code
/// is drawn is left open: [`initiate_with_code`] says what becomes of it.
pub fn handle_quick_connect_initiate(
    storage: &mut QuickConnectStorage,
    headers: &HeaderMap<HeaderValue>,
) -> (begun: Option<QuickConnectSession>)
    ensures
        match begun {
            Some(session) => {
                &&& storage::is_code(session.code@)
                &&& !old(storage)@.contains_key(session.code@)
                &&& begun_for(session@, *headers, session.code@)
                &&& final(storage)@ == initiated(old(storage)@, session@, session.date_added@)
            },
            None => final(storage)@ == old(storage)@,
        },
        begun is Some <==> storage::code_is_free(old(storage)@),
        old(storage)@.dom().finite(),
{
    match storage.generate_unique_code() {
        Some(code) => Some(initiate_with_code(storage, headers, code)),
        None => None,
    }
}

/// Who confirms a code: the user that the query names, else the one that the
/// token belongs to; a bad request where there is neither.
pub open spec fn authorize_user(user_id: Option<Seq<char>>, token: Option<Seq<char>>) -> Result<
    (bool, Seq<char>),
    StatusCode,
> {
    match user_id {
        Some(u) => Ok((true, u)),
        None => match token {
            Some(t) => Ok((false, t)),
            None => Err(StatusCode::BAD_REQUEST),
        },
    }
}

/// Whether an [`AuthorizeUser`] is named, and the text that it holds.
pub open spec fn authorize_user_view(user: Result<AuthorizeUser, StatusCode>) -> Result<
    (bool, Seq<char>),
    StatusCode,
> {
    match user {
        Ok(AuthorizeUser::Known(id)) => Ok((true, id@)),
        Ok(AuthorizeUser::ByToken(token)) => Ok((false, token@)),
        Err(status) => Err(status),
    }
}

/// Who confirms a code, from the query and the request's token.
pub fn choose_authorize_user(user_id: Option<String>, token: Option<String>) -> (user: Result<
    AuthorizeUser,
    StatusCode,
>)
    ensures
        authorize_user_view(user) == authorize_user(
            text::opt_text(user_id),
            text::opt_text(token),
        ),
{
    match user_id {
        Some(id) => Ok(AuthorizeUser::Known(id)),
        None => match token {
            Some(token) => Ok(AuthorizeUser::ByToken(token)),
            None => Err(StatusCode::BAD_REQUEST),
        },
    }
}

/// Who confirms a code, from the query and the request's headers.
pub fn resolve_authorize_user_id(
    headers: &HeaderMap<HeaderValue>,
    user_id: Option<String>,
) -> (user: Result<AuthorizeUser, StatusCode>)
    ensures
        authorize_user_view(user) == authorize_user(
            text::opt_text(user_id),
            request::token_of(
                headers::text_under(*headers, "authorization"@),
                headers::text_under(*headers, "x-emby-authorization"@),
                headers::text_under(*headers, "x-emby-token"@),
                headers::text_under(*headers, "x-mediabrowser-token"@),
            ),
        ),
{
    choose_authorize_user(user_id, extract_virtual_token(headers))
}

/// The user that a token was looked up for: an error of the lookup is an
/// internal one, and a token of nobody's is not authorized.
pub fn looked_up_user_id(lookup: Result<Option<User>, String>) -> (user_id: Result<
    String,
    StatusCode,
>)
    ensures
        match lookup {
            Ok(Some(user)) => user_id == Ok::<String, StatusCode>(user.id),
            Ok(None) => user_id == Err::<String, StatusCode>(StatusCode::UNAUTHORIZED),
            Err(_) => user_id == Err::<String, StatusCode>(StatusCode::INTERNAL_SERVER_ERROR),
        },
{
    match lookup {
        Ok(Some(user)) => Ok(user.id),
        Ok(None) => Err(StatusCode::UNAUTHORIZED),
        Err(_) => Err(StatusCode::INTERNAL_SERVER_ERROR),
    }
}

/// The sessions once `user_id` has tried to confirm `code` at `now`.
pub open spec fn authorized(
    m: Map<Seq<char>, SessionView>,
    code: Seq<char>,
    user_id: Seq<char>,
    now: nat,
) -> Map<Seq<char>, SessionView> {
    if storage::live(m, code, now) {
        storage::replaced(m, code, session::confirmed(m[code], user_id))
    } else if m.contains_key(code) {
        storage::dropped(m, code)
    } else {
        m
    }
}

/// Lets `user_id` confirm `code` at `now`: not found where no session that is
/// alive stands there.
pub fn authorize_at(
    storage: &mut QuickConnectStorage,
    code: &str,
    user_id: &str,
    now: Timestamp,
) -> (result: Result<bool, StatusCode>)
    ensures
        final(storage)@ == authorized(old(storage)@, code@, user_id@, now@),
        result == if storage::live(old(storage)@, code@, now@) {
            Ok::<bool, StatusCode>(true)
        } else {
            Err::<bool, StatusCode>(StatusCode::NOT_FOUND)
        },
{
    let id = user_id.to_owned();
    let confirm = |session: &mut QuickConnectSession|
        ensures
            (*final(session))@ == session::confirmed((*old(session))@, id@),
        {
            session.authenticated = true;
            session.user_id = Some(id.clone());
        };
    let success = storage.update_session_by_code_at(code, confirm, now);
    if success {
        Ok(true)
    } else {
        Err(StatusCode::NOT_FOUND)
    }
}

/// The user who confirms a code: the one that the query names, else the one that
/// the request's token was looked up for.
pub open spec fn confirming_user(
    user_id: Option<Seq<char>>,
    token: Option<Seq<char>>,
    lookup: Result<Option<User>, String>,
) -> Result<Seq<char>, StatusCode> {
    match authorize_user(user_id, token) {
        Ok((true, named)) => Ok(named),
        Ok((false, _)) => match lookup {
            Ok(Some(user)) => Ok(user.id@),
            Ok(None) => Err(StatusCode::UNAUTHORIZED),
            Err(_) => Err(StatusCode::INTERNAL_SERVER_ERROR),
        },
        Err(status) => Err(status),
    }
}

/// What a request to confirm a code at `now` is answered: an error where it is
/// known of nobody that they confirm it, not found where no session that is
/// alive has the code.
pub open spec fn confirm_answer(
    m: Map<Seq<char>, SessionView>,
    code: Seq<char>,
    user: Result<Seq<char>, StatusCode>,
    now: nat,
) -> Result<bool, StatusCode> {
    match user {
        Ok(_) => if storage::live(m, code, now) {
            Ok(true)
        } else {
            Err(StatusCode::NOT_FOUND)
        },
        Err(status) => Err(status),
    }
}

/// The sessions once a request to confirm a code has been answered at `now`:
/// confirmed for that user alone, untouched where it is known of nobody.
pub open spec fn confirm_sessions(
    m: Map<Seq<char>, SessionView>,
    code: Seq<char>,
    user: Result<Seq<char>, StatusCode>,
    now: nat,
) -> Map<Seq<char>, SessionView> {
    match user {
        Ok(user_id) => authorized(m, code, user_id, now),
        Err(_) => m,
    }
}

/// Answers a request to confirm a code at `now`, from the query, the request's
/// token and what looking that token up came to. The lookup counts only where
/// the query names no user.
pub fn confirm_at(
    storage: &mut QuickConnectStorage,
    params: AuthorizeQuery,
    token: Option<String>,
    lookup: Result<Option<User>, String>,
    now: Timestamp,
) -> (result: Result<bool, StatusCode>)
    ensures
        ({
            let user = confirming_user(
                text::opt_text(params.user_id),
                text::opt_text(token),
                lookup,
            );
            &&& result == confirm_answer(old(storage)@, params.code@, user, now@)
            &&& final(storage)@ == confirm_sessions(old(storage)@, params.code@, user, now@)
        }),
{
    let user_id = match choose_authorize_user(params.user_id, token) {
        Ok(AuthorizeUser::Known(id)) => id,
        Ok(AuthorizeUser::ByToken(_)) => match looked_up_user_id(lookup) {
            Ok(id) => id,
            Err(status) => {
                return Err(status);
            },
        },
        Err(status) => {
            return Err(status);
        },
    };
    authorize_at(storage, params.code.as_str(), user_id.as_str(), now)
}

/// Answers a request to confirm a code by the clock, from the query, the headers
/// and what looking the request's token up came to. Whether a token has to be
/// looked up, [`resolve_authorize_user_id`] says.
pub fn handle_quick_connect_authorize(
    storage: &mut QuickConnectStorage,
    headers: &HeaderMap<HeaderValue>,
    params: AuthorizeQuery,
    lookup: Result<Option<User>, String>,
) -> (result: Result<bool, StatusCode>)
    ensures
        ({
            let user = confirming_user(
                text::opt_text(params.user_id),
                request::token_of(
                    headers::text_under(*headers, "authorization"@),
                    headers::text_under(*headers, "x-emby-authorization"@),
                    headers::text_under(*headers, "x-emby-token"@),
                    headers::text_under(*headers, "x-mediabrowser-token"@),
                ),
                lookup,
            );
            exists|now: nat|
                {
                    &&& clock::is_reading(now)
                    &&& result == confirm_answer(old(storage)@, params.code@, user, now)
                    &&& final(storage)@ == #[trigger] confirm_sessions(
                        old(storage)@,
                        params.code@,
                        user,
                        now,
                    )
                }
        }),
{
    let now = Timestamp::now();
    let token = extract_virtual_token(headers);
    let ghost user = confirming_user(
        text::opt_text(params.user_id),
        text::opt_text(token),
        lookup,
    );
    let ghost code = params.code@;
    let result = confirm_at(storage, params, token, lookup, now);
    assert(storage@ == confirm_sessions(old(storage)@, code, user, now@));
    result
}

/// The session of a secret, where it is alive at `now`.
pub fn connect_at(storage: &mut QuickConnectStorage, secret: &str, now: Timestamp) -> (result:
    Result<QuickConnectSession, StatusCode>)
    ensures
        final(storage)@ == storage::looked_up(old(storage)@, secret@, now@),
        match result {
            Ok(s) => storage::live(old(storage)@, secret@, now@) && s@ == old(storage)@[secret@],
            Err(status) => !storage::live(old(storage)@, secret@, now@) && status
                == StatusCode::NOT_FOUND,
        },
{
    match storage.get_session_at(secret, now) {
        Some(session) => Ok(session),
        None => Err(StatusCode::NOT_FOUND),
    }
}

/// The session of the query's secret, where it is alive by the clock.
pub fn handle_quick_connect_connect(storage: &mut QuickConnectStorage, params: &ConnectQuery) -> (
result: Result<QuickConnectSession, StatusCode>)
    ensures
        exists|now: nat|
            {
                &&& clock::is_reading(now)
                &&& final(storage)@ == #[trigger] storage::looked_up(
                    old(storage)@,
                    params.secret@,
                    now,
                )
                &&& match result {
                    Ok(s) => storage::live(old(storage)@, params.secret@, now) && s@ == old(
                        storage,
                    )@[params.secret@],
                    Err(status) => !storage::live(old(storage)@, params.secret@, now) && status
                        == StatusCode::NOT_FOUND,
                }
            },
{
    let now = Timestamp::now();
    let result = connect_at(storage, params.secret.as_str(), now);
    assert(storage@ == storage::looked_up(old(storage)@, params.secret@, now@));
    result
}

/// A session that has just begun is found by its secret and by its code, the
/// sessions stay paired, and those that have expired are gone.
pub proof fn law_initiated_session_is_found(
    m: Map<Seq<char>, SessionView>,
    secret: Seq<char>,
    code: Seq<char>,
    info: (Seq<char>, Seq<char>, Seq<char>, Seq<char>),
    now: nat,
)
    requires
        laws::paired(m),
        now <= u128::MAX,
    ensures
        ({
            let s = session::begun(secret, code, info.0, info.1, info.2, info.3, now);
            let after = initiated(m, s, now);
            &&& laws::paired(after)
            &&& storage::live(after, secret, now) && after[secret] == s
            &&& storage::live(after, code, now) && after[code] == s
            &&& forall|k: Seq<char>| #[trigger]
                after.contains_key(k) ==> storage::live(after, k, now)
        }),
{
    let s = session::begun(secret, code, info.0, info.1, info.2, info.3, now);
    laws::law_storing_keeps_pairs(m, s);
    laws::law_cleaning_drops_the_expired(storage::stored(m, s), now);
    let after = initiated(m, s, now);
    assert(after.contains_key(secret) <==> storage::live(storage::stored(m, s), secret, now));
    assert(after.contains_key(code) <==> storage::live(storage::stored(m, s), code, now));
    assert forall|k: Seq<char>| #[trigger] after.contains_key(k) implies storage::live(
        after,
        k,
        now,
    ) by {
        assert(storage::live(storage::stored(m, s), k, now));
    }
}

/// A code that has been confirmed in time shows up as confirmed, for that user,
/// under the session's secret.
pub proof fn law_confirmation_reaches_the_device(
    m: Map<Seq<char>, SessionView>,
    code: Seq<char>,
    user_id: Seq<char>,
    now: nat,
)
    requires
        laws::paired(m),
        storage::live(m, code, now),
    ensures
        ({
            let after = authorized(m, code, user_id, now);
            let secret = m[code].secret;
            storage::live(after, secret, now) && after[secret] == session::confirmed(
                m[code],
                user_id,
            )
        }),
{
    laws::law_confirmed_session_is_seen_by_secret(m, code, user_id, now);
}

/// A session that begins under a secret and a code that are not in use disturbs
/// no other session that is alive.
pub proof fn law_fresh_keys_disturb_nobody(
    m: Map<Seq<char>, SessionView>,
    s: SessionView,
    now: nat,
    key: Seq<char>,
)
    requires
        laws::paired(m),
        !m.contains_key(s.secret),
        !m.contains_key(s.code),
        storage::live(m, key, now),
    ensures
        storage::live(initiated(m, s, now), key, now),
        initiated(m, s, now)[key] == m[key],
{
    laws::law_storing_keeps_pairs(m, s);
    laws::law_colliding_session_is_replaced(m, s, key);
    laws::law_cleaning_drops_the_expired(storage::stored(m, s), now);
    assert(initiated(m, s, now).contains_key(key) <==> storage::live(
        storage::stored(m, s),
        key,
        now,
    ));
}

} // verus!
