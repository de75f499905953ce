//! What becomes of Quick Connect sessions, key by key.
use vstd::prelude::*;
use axum::http::{HeaderMap, HeaderValue};
use crate::headers;
use crate::ids;
use crate::quick_connect::handlers;
use crate::quick_connect::handlers::AuthorizeUser;
use crate::quick_connect::laws;
use crate::quick_connect::request;
use crate::quick_connect::session;
use crate::quick_connect::session::{QuickConnectSession, SessionView};
use crate::quick_connect::storage;
use crate::status::StatusCode;
use crate::users::User;

verus! {

/// A session stands under a key until its time is up.
pub proof fn law_sessions_live_until_their_time_is_up(
    m: Map<Seq<char>, SessionView>,
    key: Seq<char>,
    now: nat,
)
    ensures
        storage::live(m, key, now) <==> m.contains_key(key) && now <= m[key].expires_at,
        storage::expired_entries(m, now).contains(key) <==> m.contains_key(key) && now
            > m[key].expires_at,
{
}

/// A session that begins is nobody's yet, holds what was said of the device, and
/// lasts ten minutes.
pub proof fn law_session_begins_unconfirmed(
    secret: Seq<char>,
    code: Seq<char>,
    device_id: Seq<char>,
    device_name: Seq<char>,
    app_name: Seq<char>,
    app_version: Seq<char>,
    now: nat,
)
    ensures
        ({
            let s = session::begun(
                secret,
                code,
                device_id,
                device_name,
                app_name,
                app_version,
                now,
            );
            &&& !s.authenticated && s.user_id is None
            &&& s.secret == secret && s.code == code
            &&& s.device_id == device_id && s.device_name == device_name
            &&& s.app_name == app_name && s.app_version == app_version
            &&& s.date_added == now
            &&& now + 600_000_000_000 <= u128::MAX ==> s.expires_at == now + 600_000_000_000
        }),
{
}

/// Confirming a session says by whom, and changes nothing else of it.
pub proof fn law_confirming_names_the_user(s: SessionView, user_id: Seq<char>)
    ensures
        ({
            let after = session::confirmed(s, user_id);
            &&& after.authenticated && after.user_id == Some(user_id)
            &&& after.secret == s.secret && after.code == s.code
            &&& after.device_id == s.device_id && after.device_name == s.device_name
            &&& after.app_name == s.app_name && after.app_version == s.app_version
            &&& after.date_added == s.date_added && after.expires_at == s.expires_at
        }),
{
}

/// The view of a session shows every field.
pub proof fn law_session_view_shows_the_session(s: QuickConnectSession)
    ensures
        s@.authenticated == s.authenticated,
        s@.secret == s.secret@,
        s@.code == s.code@,
        s@.device_id == s.device_id@,
        s@.device_name == s.device_name@,
        s@.app_name == s.app_name@,
        s@.app_version == s.app_version@,
        s@.date_added == s.date_added.nanos,
        s@.expires_at == s.expires_at.nanos,
        s.user_id is None <==> s@.user_id is None,
        s.user_id matches Some(id) ==> s@.user_id == Some(id@),
{
}

/// Storing a session puts it under its secret and its code; the sessions that
/// stood there are gone, and every other one stays.
pub proof fn law_storing_replaces_what_stood_there(
    m: Map<Seq<char>, SessionView>,
    s: SessionView,
    key: Seq<char>,
)
    requires
        laws::paired(m),
    ensures
        ({
            let after = storage::stored(m, s);
            let hit = (m.contains_key(s.secret) && m[key] == m[s.secret]) || (m.contains_key(s.code)
                && m[key] == m[s.code]);
            &&& after.contains_key(s.secret) && after[s.secret] == s
            &&& after.contains_key(s.code) && after[s.code] == s
            &&& key != s.secret && key != s.code ==> (after.contains_key(key) <==> m.contains_key(
                key,
            ) && !hit)
            &&& key != s.secret && key != s.code && after.contains_key(key) ==> after[key]
                == m[key]
        }),
{
    if m.contains_key(key) && key != s.secret && key != s.code {
        laws::law_colliding_session_is_replaced(m, s, key);
    }
}

/// Looking a key up changes nothing while the session there is alive; one whose
/// time is up goes from both its keys, and no other session does.
pub proof fn law_looking_up_drops_only_what_is_over(
    m: Map<Seq<char>, SessionView>,
    key: Seq<char>,
    now: nat,
    other: Seq<char>,
)
    requires
        laws::paired(m),
    ensures
        ({
            let after = storage::looked_up(m, key, now);
            let over = m.contains_key(key) && now > m[key].expires_at;
            &&& !over ==> after == m
            &&& over ==> (after.contains_key(other) <==> m.contains_key(other) && m[other]
                != m[key])
            &&& after.contains_key(other) ==> after[other] == m[other]
        }),
{
    laws::lemma_without_keeps_pairs(m, key);
    if !m.contains_key(key) {
        assert(storage::without(m, key) == m);
    }
    assert(storage::without(m, key).contains_key(other) <==> m.contains_key(other) && !(
    m.contains_key(key) && m[other] == m[key]));
}

/// Taking a session out by its secret takes it from both its keys, and takes no
/// other session.
pub proof fn law_taking_out_takes_one_session(
    m: Map<Seq<char>, SessionView>,
    secret: Seq<char>,
    other: Seq<char>,
)
    requires
        laws::paired(m),
        m.contains_key(secret) ==> m[secret].secret == secret,
    ensures
        ({
            let after = storage::taken(m, secret);
            &&& after.contains_key(other) <==> m.contains_key(other) && !(m.contains_key(secret)
                && m[other] == m[secret])
            &&& after.contains_key(other) ==> after[other] == m[other]
        }),
{
    laws::lemma_without_keeps_pairs(m, secret);
    assert(storage::taken(m, secret) == storage::without(m, secret));
    assert(storage::without(m, secret).contains_key(other) <==> m.contains_key(other) && !(
    m.contains_key(secret) && m[other] == m[secret]));
}

/// Whoever confirms a code confirms the one session that has it, under both its
/// keys, for themselves; every other session stays as it is. A code that no living
/// session has confirms nothing.
pub proof fn law_confirming_touches_one_session(
    m: Map<Seq<char>, SessionView>,
    code: Seq<char>,
    user_id: Seq<char>,
    now: nat,
    other: Seq<char>,
)
    requires
        laws::paired(m),
        m.contains_key(code) ==> m[code].code == code,
    ensures
        ({
            let after = handlers::authorized(m, code, user_id, now);
            let alive = m.contains_key(code) && now <= m[code].expires_at;
            &&& alive ==> {
                &&& after.contains_key(other) <==> m.contains_key(other)
                &&& m.contains_key(other) && m[other] != m[code] ==> after[other] == m[other]
                &&& m.contains_key(other) && m[other] == m[code] ==> {
                    &&& after[other].authenticated && after[other].user_id == Some(user_id)
                    &&& after[other].secret == m[code].secret && after[other].code == code
                    &&& after[other].device_id == m[code].device_id && after[other].device_name
                        == m[code].device_name
                    &&& after[other].app_name == m[code].app_name && after[other].app_version
                        == m[code].app_version
                    &&& after[other].expires_at == m[code].expires_at && after[other].date_added
                        == m[code].date_added
                }
            }
            &&& !alive ==> {
                &&& after.contains_key(other) <==> m.contains_key(other) && !(m.contains_key(code)
                    && m[other] == m[code])
                &&& after.contains_key(other) ==> after[other] == m[other]
            }
        }),
{
    laws::lemma_without_keeps_pairs(m, code);
    let alive = m.contains_key(code) && now <= m[code].expires_at;
    if alive {
        assert(m.contains_key(m[code].secret) && m[m[code].secret] == m[code]);
        if m.contains_key(other) {
            assert(other == m[other].secret || other == m[other].code);
        }
    } else if m.contains_key(code) {
        assert(storage::dropped(m, code) == storage::without(m, code));
        assert(storage::without(m, code).contains_key(other) <==> m.contains_key(other) && !(
        m.contains_key(code) && m[other] == m[code]));
    }
}

/// The user who confirms a code is the one that the query names; where it names
/// none, the one that the request's token belongs to. Without either the request
/// is a bad one, with a token of nobody's it is not authorized, and a lookup that
/// failed is an internal error.
pub proof fn law_confirming_user_is_named_or_known_by_token(
    user_id: Option<Seq<char>>,
    token: Option<Seq<char>>,
    lookup: Result<Option<User>, String>,
)
    ensures
        user_id matches Some(id) ==> handlers::confirming_user(user_id, token, lookup) == Ok::<
            Seq<char>,
            StatusCode,
        >(id),
        user_id is None && token is None ==> handlers::confirming_user(user_id, token, lookup)
            == Err::<Seq<char>, StatusCode>(StatusCode::BAD_REQUEST),
        user_id is None && token is Some ==> match lookup {
            Ok(Some(user)) => handlers::confirming_user(user_id, token, lookup) == Ok::<
                Seq<char>,
                StatusCode,
            >(user.id@),
            Ok(None) => handlers::confirming_user(user_id, token, lookup) == Err::<
                Seq<char>,
                StatusCode,
            >(StatusCode::UNAUTHORIZED),
            Err(_) => handlers::confirming_user(user_id, token, lookup) == Err::<
                Seq<char>,
                StatusCode,
            >(StatusCode::INTERNAL_SERVER_ERROR),
        },
        user_id matches Some(id) ==> handlers::authorize_user(user_id, token) == Ok::<
            (bool, Seq<char>),
            StatusCode,
        >((true, id)),
        user_id is None ==> match token {
            Some(t) => handlers::authorize_user(user_id, token) == Ok::<
                (bool, Seq<char>),
                StatusCode,
            >((false, t)),
            None => handlers::authorize_user(user_id, token) == Err::<
                (bool, Seq<char>),
                StatusCode,
            >(StatusCode::BAD_REQUEST),
        },
{
}

/// A request to confirm a code succeeds exactly where somebody is known to confirm
/// it and the code's session is there in time; otherwise it is told why, and where
/// nobody is known to confirm it nothing changes.
pub proof fn law_confirming_succeeds_in_time(
    m: Map<Seq<char>, SessionView>,
    code: Seq<char>,
    user: Result<Seq<char>, StatusCode>,
    now: nat,
)
    ensures
        ({
            let alive = m.contains_key(code) && now <= m[code].expires_at;
            let answer = handlers::confirm_answer(m, code, user, now);
            let after = handlers::confirm_sessions(m, code, user, now);
            &&& answer is Ok <==> user is Ok && alive
            &&& answer matches Ok(b) ==> b
            &&& user is Ok && !alive ==> answer == Err::<bool, StatusCode>(StatusCode::NOT_FOUND)
            &&& user matches Err(status) ==> answer == Err::<bool, StatusCode>(status) && after
                == m
            &&& user matches Ok(id) ==> after == handlers::authorized(m, code, id, now)
        }),
{
}

/// A session that begins under keys that are free stands under both from then on,
/// unconfirmed and as it was described; the sessions whose time is up are gone, and
/// the others stay as they are.
pub proof fn law_initiating_adds_one_session(
    m: Map<Seq<char>, SessionView>,
    secret: Seq<char>,
    code: Seq<char>,
    info: (Seq<char>, Seq<char>, Seq<char>, Seq<char>),
    now: nat,
    other: Seq<char>,
)
    requires
        laws::paired(m),
        !m.contains_key(secret),
        !m.contains_key(code),
        now + 600_000_000_000 <= u128::MAX,
    ensures
        ({
            let s = session::begun(secret, code, info.0, info.1, info.2, info.3, now);
            let after = handlers::initiated(m, s, now);
            &&& after.contains_key(secret) && after.contains_key(code) && after[code]
                == after[secret]
            &&& !after[secret].authenticated && after[secret].user_id is None
            &&& after[secret].secret == secret && after[secret].code == code
            &&& after[secret].device_id == info.0 && after[secret].device_name == info.1
            &&& after[secret].app_name == info.2 && after[secret].app_version == info.3
            &&& after[secret].expires_at == now + 600_000_000_000
            &&& other != secret && other != code ==> (after.contains_key(other)
                <==> m.contains_key(other) && now <= m[other].expires_at)
            &&& other != secret && other != code && after.contains_key(other) ==> after[other]
                == m[other]
        }),
{
    let s = session::begun(secret, code, info.0, info.1, info.2, info.3, now);
    handlers::law_initiated_session_is_found(m, secret, code, info, now);
    laws::law_storing_keeps_pairs(m, s);
    laws::law_cleaning_drops_the_expired(storage::stored(m, s), now);
    law_storing_replaces_what_stood_there(m, s, other);
    let after = handlers::initiated(m, s, now);
    assert(after.contains_key(other) <==> storage::live(storage::stored(m, s), other, now));
}

/// Cleaning up leaves exactly the sessions whose time is not up, as they were.
pub proof fn law_cleaning_keeps_the_living(
    m: Map<Seq<char>, SessionView>,
    now: nat,
    key: Seq<char>,
)
    requires
        laws::paired(m),
    ensures
        storage::cleaned(m, now).contains_key(key) <==> m.contains_key(key) && now
            <= m[key].expires_at,
        storage::cleaned(m, now).contains_key(key) ==> storage::cleaned(m, now)[key] == m[key],
{
    laws::law_cleaning_drops_the_expired(m, now);
    assert(storage::cleaned(m, now).contains_key(key) <==> storage::live(m, key, now));
}

/// A code shows its digits in their order, and is made of six.
pub proof fn law_code_shows_its_digits(digits: Seq<u8>)
    requires
        digits.len() == 6,
        forall|i: int| 0 <= i < 6 ==> #[trigger] digits[i] < 10,
    ensures
        storage::is_code(storage::code_text(digits)),
        storage::code_text(digits).len() == 6,
        forall|i: int|
            0 <= i < 6 ==> (#[trigger] storage::code_text(digits)[i]) as int == '0' as int
                + digits[i],
{
}

/// A code is six decimal digits, and nothing else is one.
pub proof fn law_codes_are_six_digits(code: Seq<char>)
    ensures
        storage::is_code(code) <==> code.len() == 6 && forall|i: int|
            0 <= i < 6 ==> '0' <= #[trigger] code[i] && code[i] <= '9',
{
}

/// What goes goes by key: a session whose time is up goes from its own secret and
/// code, one that is taken out from the key that was asked for and its own code, and
/// one that could not be confirmed in time from its own secret and the key that was
/// asked for.
pub proof fn law_sessions_go_by_their_keys(
    m: Map<Seq<char>, SessionView>,
    key: Seq<char>,
    now: nat,
    other: Seq<char>,
)
    requires
        m.contains_key(key),
    ensures
        now <= m[key].expires_at ==> storage::looked_up(m, key, now) == m,
        now > m[key].expires_at ==> (storage::looked_up(m, key, now).contains_key(other)
            <==> m.contains_key(other) && other != m[key].secret && other != m[key].code),
        storage::looked_up(m, key, now).contains_key(other) ==> storage::looked_up(
            m,
            key,
            now,
        )[other] == m[other],
        storage::taken(m, key).contains_key(other) <==> m.contains_key(other) && other != key
            && other != m[key].code,
        storage::taken(m, key).contains_key(other) ==> storage::taken(m, key)[other] == m[other],
        storage::dropped(m, key).contains_key(other) <==> m.contains_key(other) && other != key
            && other != m[key].secret,
        storage::dropped(m, key).contains_key(other) ==> storage::dropped(m, key)[other]
            == m[other],
{
}

/// A key under which nothing stands can be looked up, taken out and confirmed
/// without effect.
pub proof fn law_missing_keys_change_nothing(
    m: Map<Seq<char>, SessionView>,
    key: Seq<char>,
    user_id: Seq<char>,
    now: nat,
)
    requires
        !m.contains_key(key),
    ensures
        storage::looked_up(m, key, now) == m,
        storage::taken(m, key) == m,
        handlers::authorized(m, key, user_id, now) == m,
{
}

/// A session that is changed by a key stands, as changed, under its secret and under
/// that key; nothing else changes.
pub proof fn law_changes_go_to_secret_and_key(
    m: Map<Seq<char>, SessionView>,
    key: Seq<char>,
    s: SessionView,
    other: Seq<char>,
)
    ensures
        storage::replaced(m, key, s).contains_key(s.secret) && storage::replaced(m, key, s)[s.secret]
            == s,
        storage::replaced(m, key, s).contains_key(key) && storage::replaced(m, key, s)[key] == s,
        other != key && other != s.secret ==> (storage::replaced(m, key, s).contains_key(other)
            <==> m.contains_key(other)) && (m.contains_key(other) ==> storage::replaced(
            m,
            key,
            s,
        )[other] == m[other]),
{
}

/// Whoever confirms a key in time confirms the session that stands there, under that
/// key and under its secret.
pub proof fn law_confirming_reaches_key_and_secret(
    m: Map<Seq<char>, SessionView>,
    key: Seq<char>,
    user_id: Seq<char>,
    now: nat,
    other: Seq<char>,
)
    requires
        m.contains_key(key),
        now <= m[key].expires_at,
    ensures
        ({
            let after = handlers::authorized(m, key, user_id, now);
            &&& after[key].authenticated && after[key].user_id == Some(user_id)
            &&& after[m[key].secret] == after[key]
            &&& after[key].secret == m[key].secret && after[key].code == m[key].code
            &&& after[key].device_id == m[key].device_id && after[key].app_name
                == m[key].app_name
            &&& after[key].expires_at == m[key].expires_at
            &&& other != key && other != m[key].secret ==> (after.contains_key(other)
                <==> m.contains_key(other)) && (m.contains_key(other) ==> after[other]
                == m[other])
        }),
{
}

/// A session that has begun for a request is unconfirmed, under the code that was
/// drawn and a secret that is a random identifier's text, and describes the client
/// as the headers do; one that they do not describe has a random device and is
/// called unknown.
pub proof fn law_begun_session_describes_the_client(
    s: SessionView,
    headers: HeaderMap<HeaderValue>,
    code: Seq<char>,
)
    requires
        handlers::begun_for(s, headers, code),
    ensures
        !s.authenticated && s.user_id is None,
        s.code == code,
        s.expires_at == s.date_added + 600_000_000_000,
        exists|id: u128|
            ids::is_random_id(id) && s.secret == #[trigger] ids::hyphenated_text(id),
        match request::said(
            headers::text_under(headers, "authorization"@),
            headers::text_under(headers, "x-emby-authorization"@),
        ) {
            Some(a) => s.device_id == a.device_id && s.device_name == a.device && s.app_name
                == a.client && s.app_version == a.version,
            None => s.device_name == "Unknown Device"@ && s.app_name == "Unknown App"@
                && s.app_version == "1.0.0"@ && exists|id: u128|
                ids::is_random_id(id) && s.device_id == #[trigger] ids::hyphenated_text(id),
        },
{
}

/// The view of who confirms a code tells a name from a token, and keeps the text.
pub proof fn law_authorizing_view_keeps_the_text(user: Result<AuthorizeUser, StatusCode>)
    ensures
        match user {
            Ok(AuthorizeUser::Known(id)) => handlers::authorize_user_view(user) == Ok::<
                (bool, Seq<char>),
                StatusCode,
            >((true, id@)),
            Ok(AuthorizeUser::ByToken(token)) => handlers::authorize_user_view(user) == Ok::<
                (bool, Seq<char>),
                StatusCode,
            >((false, token@)),
            Err(status) => handlers::authorize_user_view(user) == Err::<
                (bool, Seq<char>),
                StatusCode,
            >(status),
        },
{
}

/// A free code is a code under which nothing stands.
pub proof fn law_free_codes_are_unused(m: Map<Seq<char>, SessionView>)
    ensures
        storage::code_is_free(m) <==> exists|code: Seq<char>|
            code.len() == 6 && (forall|i: int|
                0 <= i < 6 ==> '0' <= #[trigger] code[i] && code[i] <= '9')
                && !#[trigger] m.contains_key(code),
{
    if storage::code_is_free(m) {
        let code = choose|code: Seq<char>| storage::is_code(code) && !#[trigger] m.contains_key(code);
        law_codes_are_six_digits(code);
        assert(!m.contains_key(code));
    }
    if exists|code: Seq<char>|
        code.len() == 6 && (forall|i: int|
            0 <= i < 6 ==> '0' <= #[trigger] code[i] && code[i] <= '9')
            && !#[trigger] m.contains_key(code) {
        let code = choose|code: Seq<char>|
            code.len() == 6 && (forall|i: int|
                0 <= i < 6 ==> '0' <= #[trigger] code[i] && code[i] <= '9')
                && !#[trigger] m.contains_key(code);
        law_codes_are_six_digits(code);
        assert(storage::is_code(code) && !m.contains_key(code));
    }
}

} // verus!
