//! What a request's headers say, and the device that a sign-in is booked under.
use vstd::prelude::*;
use axum::http::{HeaderMap, HeaderValue};
use crate::authorization;
use crate::authorization::{Authorization, AuthorizationError, AuthorizationView};
use crate::digest;
use crate::headers;
use crate::ids;
use crate::quick_connect::device;
use crate::quick_connect::request;
use crate::quick_connect::session::SessionView;
use crate::text;
use crate::text_laws;

verus! {

/// The token of a request is the first that its headers carry: the authorization
/// header's, else the Emby one's, else the Emby token, else the MediaBrowser one.
pub proof fn law_first_token_counts(
    authorization: Option<Seq<char>>,
    emby_authorization: Option<Seq<char>>,
    emby_token: Option<Seq<char>>,
    media_browser_token: Option<Seq<char>>,
)
    ensures
        ({
            let token = request::token_of(
                authorization,
                emby_authorization,
                emby_token,
                media_browser_token,
            );
            let first = request::carried_token(authorization, false);
            let second = request::carried_token(emby_authorization, true);
            &&& first is Some ==> token == first
            &&& first is None && second is Some ==> token == second
            &&& first is None && second is None && emby_token is Some ==> token == emby_token
            &&& first is None && second is None && emby_token is None ==> token
                == media_browser_token
        }),
{
}

/// A header carries a token where it is there, can be read and names one; the
/// older scheme can be read only where it is admitted.
pub proof fn law_headers_carry_the_tokens_they_name(header: Option<Seq<char>>, legacy: bool)
    ensures
        header is None ==> request::carried_token(header, legacy) is None && request::readable(
            header,
            legacy,
        ) is None,
        header matches Some(h) ==> match authorization::parsed(h, legacy) {
            Ok(a) => request::carried_token(header, legacy) == a.token && request::readable(
                header,
                legacy,
            ) == Some(a),
            Err(_) => request::carried_token(header, legacy) is None && request::readable(
                header,
                legacy,
            ) is None,
        },
{
}

/// A client is described by the authorization header where that can be read, else
/// by the Emby one.
pub proof fn law_authorization_goes_before_emby(
    authorization: Option<Seq<char>>,
    emby: Option<Seq<char>>,
)
    ensures
        request::readable(authorization, true) is Some ==> request::said(authorization, emby)
            == request::readable(authorization, true),
        request::readable(authorization, true) is None ==> request::said(authorization, emby)
            == request::readable(emby, true),
{
}

/// A header says nothing without a blank behind its scheme, nor under a scheme
/// that is not accepted: `MediaBrowser`, and `Emby` where the older one is
/// admitted, in letters of either case.
pub proof fn law_only_known_schemes_are_read(scheme: Seq<char>, rest: Seq<char>, legacy: bool)
    requires
        forall|i: int| 0 <= i < scheme.len() ==> #[trigger] scheme[i] != ' ',
    ensures
        authorization::parsed(scheme, legacy) == Err::<AuthorizationView, AuthorizationError>(
            AuthorizationError::MissingScheme,
        ),
        ({
            let known = text::lowered(scheme) == text::lowered("MediaBrowser"@) || (legacy
                && text::lowered(scheme) == text::lowered("Emby"@));
            &&& authorization::parsed(scheme + seq![' '] + rest, legacy) is Ok <==> known
            &&& !known ==> authorization::parsed(scheme + seq![' '] + rest, legacy) == Err::<
                AuthorizationView,
                AuthorizationError,
            >(AuthorizationError::UnknownScheme)
            &&& known ==> authorization::parsed(scheme + seq![' '] + rest, legacy) == Ok::<
                AuthorizationView,
                AuthorizationError,
            >(authorization::fields_view(rest))
        }),
{
    let header = scheme + seq![' '] + rest;
    authorization::lemma_first_of_bound(scheme, ' ');
    authorization::lemma_first_of_bound(header, ' ');
    let n = authorization::first_of(header, ' ');
    assert(header[scheme.len() as int] == ' ');
    assert(n == scheme.len()) by {
        if n < scheme.len() {
            assert(header[n] == scheme[n]);
        }
    }
    assert(header.take(n) =~= scheme);
    assert(header.skip(n + 1) =~= rest);
}

/// Whether a text that begins inside quotes, or outside, holds no comma outside
/// quotes; and where it holds none, whether it ends inside them.
pub open spec fn passed(s: Seq<char>, quoted: bool) -> Option<bool>
    decreases s.len(),
{
    if s.len() == 0 {
        Some(quoted)
    } else if s[0] == ',' && !quoted {
        None
    } else {
        passed(s.skip(1), quoted != (s[0] == '"'))
    }
}

proof fn lemma_passed_field(a: Seq<char>, b: Seq<char>, quoted: bool, after: bool)
    requires
        passed(a, quoted) == Some(after),
    ensures
        authorization::field_end(a + b, quoted) == a.len() + authorization::field_end(b, after),
    decreases a.len(),
{
    if a.len() > 0 {
        let q = quoted != (a[0] == '"');
        lemma_passed_field(a.skip(1), b, q, after);
        assert((a + b).skip(1) =~= a.skip(1) + b);
    } else {
        assert(a + b =~= b);
    }
}

proof fn lemma_passed_plain(s: Seq<char>, quoted: bool)
    requires
        forall|i: int| 0 <= i < s.len() ==> #[trigger] s[i] != '"',
        quoted || forall|i: int| 0 <= i < s.len() ==> #[trigger] s[i] != ',',
    ensures
        passed(s, quoted) == Some(quoted),
    decreases s.len(),
{
    if s.len() > 0 {
        assert forall|i: int| 0 <= i < s.skip(1).len() implies #[trigger] s.skip(1)[i] != '"' && (
        quoted || s.skip(1)[i] != ',') by {
            assert(s.skip(1)[i] == s[i + 1]);
        }
        lemma_passed_plain(s.skip(1), quoted);
    }
}

proof fn lemma_passed_both(a: Seq<char>, b: Seq<char>, quoted: bool, after: bool)
    requires
        passed(a, quoted) == Some(after),
    ensures
        passed(a + b, quoted) == passed(b, after),
    decreases a.len(),
{
    if a.len() > 0 {
        lemma_passed_both(a.skip(1), b, quoted != (a[0] == '"'), after);
        assert((a + b).skip(1) =~= a.skip(1) + b);
        assert((a + b)[0] == a[0]);
    } else {
        assert(a + b =~= b);
    }
}

/// Fields are read one by one, each up to a comma outside quotes; where two give
/// one key a value, the later one counts.
pub proof fn law_later_fields_count(field: Seq<char>, rest: Seq<char>, key: Seq<char>)
    requires
        passed(field, false) == Some(false),
    ensures
        authorization::value_of(field + seq![','] + rest, key) == match authorization::value_of(
            rest,
            key,
        ) {
            Some(v) => Some(v),
            None => authorization::value_of(field, key),
        },
{
    let s = field + seq![','] + rest;
    let tail = seq![','] + rest;
    assert(s =~= field + tail);
    lemma_passed_field(field, tail, false, false);
    assert(authorization::field_end(tail, false) == 0);
    let n = field.len() as int;
    assert(s.take(n) =~= field);
    assert(s.skip(n + 1) =~= rest);
    lemma_passed_field(field, Seq::empty(), false, false);
    assert(field + Seq::<char>::empty() =~= field);
    assert(authorization::field_end(Seq::<char>::empty(), false) == 0);
    assert(field.take(n) =~= field);
}

/// A field that gives a name a value in double quotes.
pub open spec fn written(name: Seq<char>, value: Seq<char>) -> Seq<char> {
    name + seq!['=', '"'] + value + seq!['"']
}

/// A value that is written in double quotes is read back as it is, commas and
/// blanks included, under its name and under no other.
pub proof fn law_written_field_is_read_back(name: Seq<char>, value: Seq<char>, key: Seq<char>)
    requires
        forall|i: int|
            0 <= i < name.len() ==> #[trigger] name[i] != '=' && name[i] != '"' && name[i] != ',',
        forall|i: int| 0 <= i < value.len() ==> #[trigger] value[i] != '"',
    ensures
        passed(written(name, value), false) == Some(false),
        authorization::value_of(written(name, value), key) == if text::trimmed(name) == key {
            Some(value)
        } else {
            None
        },
{
    let field = written(name, value);
    let quote = seq!['"'];
    let mid = seq!['=', '"'];
    lemma_passed_plain(name, false);
    lemma_passed_plain(value, true);
    assert(passed(mid, false) == Some(true)) by {
        reveal_with_fuel(passed, 3);
        assert(mid.skip(1) =~= quote);
        assert(quote.skip(1) =~= Seq::empty());
    }
    assert(passed(quote, true) == Some(false)) by {
        reveal_with_fuel(passed, 2);
        assert(quote.skip(1) =~= Seq::empty());
    }
    lemma_passed_both(name, mid, false, false);
    lemma_passed_both(name + mid, value, false, true);
    lemma_passed_both(name + mid + value, quote, false, true);
    lemma_passed_field(field, Seq::empty(), false, false);
    assert(field + Seq::<char>::empty() =~= field);
    assert(authorization::field_end(Seq::<char>::empty(), false) == 0);
    assert(field.take(field.len() as int) =~= field);
    authorization::lemma_first_of_bound(field, '=');
    let at = authorization::first_of(field, '=');
    let n = name.len() as int;
    assert(field[n] == '=');
    assert(at == n) by {
        if at < n {
            assert(field[at] == name[at]);
        }
    }
    assert(field.take(n) =~= name);
    let body = field.skip(n + 1);
    assert(body =~= quote + value + quote);
    text_laws::law_trimming_leaves_the_trimmed(body);
    assert(body.subrange(1, body.len() - 1) =~= value);
}

/// A header that names client, device, device identifier, version and token is
/// read back as just these.
pub proof fn law_written_header_is_read_back(said: AuthorizationView, legacy: bool)
    requires
        said.token is Some,
        forall|i: int| 0 <= i < said.client.len() ==> #[trigger] said.client[i] != '"',
        forall|i: int| 0 <= i < said.device.len() ==> #[trigger] said.device[i] != '"',
        forall|i: int| 0 <= i < said.device_id.len() ==> #[trigger] said.device_id[i] != '"',
        forall|i: int| 0 <= i < said.version.len() ==> #[trigger] said.version[i] != '"',
        forall|i: int| 0 <= i < said.token.unwrap().len() ==> #[trigger] said.token.unwrap()[i]
            != '"',
    ensures
        authorization::parsed(
            "MediaBrowser"@ + seq![' '] + (written("Client"@, said.client) + seq![','] + (written(
                " Device"@,
                said.device,
            ) + seq![','] + (written(" DeviceId"@, said.device_id) + seq![','] + (written(
                " Version"@,
                said.version,
            ) + seq![','] + written(" Token"@, said.token.unwrap()))))),
            legacy,
        ) == Ok::<AuthorizationView, AuthorizationError>(said),
{
    reveal_strlit("MediaBrowser");
    reveal_strlit("Client");
    reveal_strlit("Device");
    reveal_strlit("DeviceId");
    reveal_strlit("Version");
    reveal_strlit("Token");
    reveal_strlit(" Device");
    reveal_strlit(" DeviceId");
    reveal_strlit(" Version");
    reveal_strlit(" Token");
    let token = said.token.unwrap();
    let f5 = written(" Token"@, token);
    let f4 = written(" Version"@, said.version);
    let f3 = written(" DeviceId"@, said.device_id);
    let f2 = written(" Device"@, said.device);
    let f1 = written("Client"@, said.client);
    let r4 = f4 + seq![','] + f5;
    let r3 = f3 + seq![','] + r4;
    let r2 = f2 + seq![','] + r3;
    let r1 = f1 + seq![','] + r2;
    assert(" Device"@ =~= seq![' '] + "Device"@);
    assert(" DeviceId"@ =~= seq![' '] + "DeviceId"@);
    assert(" Version"@ =~= seq![' '] + "Version"@);
    assert(" Token"@ =~= seq![' '] + "Token"@);
    lemma_trimmed_name(" Device"@, "Device"@);
    lemma_trimmed_name(" DeviceId"@, "DeviceId"@);
    lemma_trimmed_name(" Version"@, "Version"@);
    lemma_trimmed_name(" Token"@, "Token"@);
    text_laws::law_trimming_leaves_the_trimmed("Client"@);
    assert("Client"@.len() == 6 && "Device"@.len() == 6 && "DeviceId"@.len() == 8
        && "Version"@.len() == 7 && "Token"@.len() == 5);
    assert("Client"@[0] != "Device"@[0]);
    assert forall|key: Seq<char>| #[trigger]
        authorization::value_of(r1, key) == if key == "Token"@ {
            Some(token)
        } else if key == "Version"@ {
            Some(said.version)
        } else if key == "DeviceId"@ {
            Some(said.device_id)
        } else if key == "Device"@ {
            Some(said.device)
        } else if key == "Client"@ {
            Some(said.client)
        } else {
            None
        } by {
        law_written_field_is_read_back(" Token"@, token, key);
        law_written_field_is_read_back(" Version"@, said.version, key);
        law_written_field_is_read_back(" DeviceId"@, said.device_id, key);
        law_written_field_is_read_back(" Device"@, said.device, key);
        law_written_field_is_read_back("Client"@, said.client, key);
        law_later_fields_count(f4, f5, key);
        law_later_fields_count(f3, r4, key);
        law_later_fields_count(f2, r3, key);
        law_later_fields_count(f1, r2, key);
    }
    law_only_known_schemes_are_read("MediaBrowser"@, r1, legacy);
    assert(authorization::value_of(r1, "Token"@) == Some(token));
}

proof fn lemma_trimmed_name(name: Seq<char>, key: Seq<char>)
    requires
        name == seq![' '] + key,
        key.len() > 0,
        !text::is_white(key[0]),
        !text::is_white(key.last()),
    ensures
        text::trimmed(name) == key,
{
    let (from, to) = text_laws::law_trimming_takes_white_ends(name);
    assert(from == 1) by {
        if from == 0 && to > 0 {
            assert(text::is_white(name[0]));
        }
        if from > 1 {
            assert(name[1] == key[0]);
            assert(text::is_white(name[1]));
        }
        if to == 0 {
            assert(name[1] == key[0]);
            assert(text::is_white(name[1]));
        }
    }
    assert(to == name.len()) by {
        if to < name.len() {
            assert(name[name.len() - 1] == key.last());
            assert(text::is_white(name[name.len() - 1]));
        }
    }
    assert(name.subrange(1, name.len() as int) =~= key);
}

/// The view of an authorization shows every field.
pub proof fn law_authorization_view_shows_it(a: Authorization)
    ensures
        a@.client == a.client@,
        a@.device == a.device@,
        a@.device_id == a.device_id@,
        a@.version == a.version@,
        a.token is None <==> a@.token is None,
        a.token matches Some(t) ==> a@.token == Some(t@),
{
}

/// A client is an Android TV client exactly where its name holds these words, in
/// letters of either case.
pub proof fn law_android_tv_is_told_by_name(client: Seq<char>)
    ensures
        device::android_tv(client) <==> exists|at: int|
            0 <= at <= client.len() - 10 && text::lowered(
                #[trigger] client.subrange(at, at + 10),
            ) == "android tv"@,
{
    reveal_strlit("android tv");
    let needle = "android tv"@;
    let low = text::lowered(client);
    if device::android_tv(client) {
        let at = choose|at: int| text::occurs_at(low, needle, at);
        assert(text::lowered(client.subrange(at, at + 10)) =~= low.subrange(at, at + 10));
    }
    if exists|at: int|
        0 <= at <= client.len() - 10 && text::lowered(#[trigger] client.subrange(at, at + 10))
            == needle {
        let at = choose|at: int|
            0 <= at <= client.len() - 10 && text::lowered(
                #[trigger] client.subrange(at, at + 10),
            ) == needle;
        assert(text::lowered(client.subrange(at, at + 10)) =~= low.subrange(at, at + 10));
        assert(text::occurs_at(low, needle, at));
    }
}

/// A user's identifier is written in five groups of small digits where it names a
/// UUID in any of its forms, and stays as it is where it names none.
pub proof fn law_user_ids_are_written_in_groups(user_id: Seq<char>, id: u128)
    ensures
        ids::names_id(user_id, id) ==> device::normalized_user_id(user_id) == ids::hyphenated_text(
            id,
        ),
        (forall|other: u128| !ids::names_id(user_id, other)) ==> device::normalized_user_id(
            user_id,
        ) == user_id,
{
    if ids::names_id(user_id, id) {
        ids::law_text_names_one_id(user_id, id, choose|i: u128| ids::names_id(user_id, i));
    }
}

/// A sign-in is booked under what the request says of its client, else under what
/// the session says; without a token; and under the user's own device only where
/// an Android TV client names its device.
pub proof fn law_sign_in_is_booked_under_the_client(
    request: Option<AuthorizationView>,
    session: SessionView,
    user_id: Seq<char>,
)
    ensures
        ({
            let booked = device::effective(request, session, user_id);
            &&& booked.token is None
            &&& request matches Some(r) ==> booked.client == r.client && booked.device == r.device
                && booked.version == r.version
            &&& request is None ==> booked.client == session.app_name && booked.device
                == session.device_name && booked.version == session.app_version
            &&& {
                let named = match request {
                    Some(r) => r.device_id,
                    None => session.device_id,
                };
                &&& device::android_tv(booked.client) && named.len() > 0 ==> booked.device_id
                    == device::user_device_id(named, user_id)
                &&& !device::android_tv(booked.client) || named.len() == 0 ==> booked.device_id
                    == named
            }
        }),
{
}

/// A user's own device identifier is the hexadecimal digest of the device's
/// identifier, a plus sign and the user's.
pub proof fn law_user_device_is_a_digest(base: Seq<char>, user_id: Seq<char>)
    ensures
        device::user_device_id(base, user_id) == digest::hex_text(
            digest::sha1_digest(
                vstd::utf8::encode_utf8(base + "+"@ + device::normalized_user_id(user_id)),
            ),
        ),
{
}

/// A value without quotes is read back as it stands, without the white space around
/// it, up to the comma.
pub proof fn law_plain_field_is_read_back(name: Seq<char>, value: Seq<char>, key: Seq<char>)
    requires
        forall|i: int|
            0 <= i < name.len() ==> #[trigger] name[i] != '=' && name[i] != '"' && name[i] != ',',
        forall|i: int|
            0 <= i < value.len() ==> #[trigger] value[i] != '"' && value[i] != ',',
    ensures
        passed(name + seq!['='] + value, false) == Some(false),
        authorization::value_of(name + seq!['='] + value, key) == if text::trimmed(name) == key {
            Some(text::trimmed(value))
        } else {
            None
        },
{
    let field = name + seq!['='] + value;
    lemma_passed_plain(field, false);
    lemma_passed_field(field, Seq::empty(), false, false);
    assert(field + Seq::<char>::empty() =~= field);
    assert(authorization::field_end(Seq::<char>::empty(), false) == 0);
    assert(field.take(field.len() as int) =~= field);
    authorization::lemma_first_of_bound(field, '=');
    let at = authorization::first_of(field, '=');
    let n = name.len() as int;
    assert(field[n] == '=');
    assert(at == n) by {
        if at < n {
            assert(field[at] == name[at]);
        }
    }
    assert(field.take(n) =~= name);
    assert(field.skip(n + 1) =~= value);
    let (from, to) = text_laws::law_trimming_takes_white_ends(value);
    assert forall|i: int| 0 <= i < text::trimmed(value).len() implies #[trigger] text::trimmed(
        value,
    )[i] != '"' by {
        assert(text::trimmed(value)[i] == value[from + i]);
    }
}

/// A field without an equals sign gives nothing a value.
pub proof fn law_field_without_value_is_passed_over(field: Seq<char>, key: Seq<char>)
    requires
        forall|i: int|
            0 <= i < field.len() ==> #[trigger] field[i] != '=' && field[i] != '"' && field[i]
                != ',',
    ensures
        passed(field, false) == Some(false),
        authorization::value_of(field, key) is None,
{
    lemma_passed_plain(field, false);
    lemma_passed_field(field, Seq::empty(), false, false);
    assert(field + Seq::<char>::empty() =~= field);
    assert(authorization::field_end(Seq::<char>::empty(), false) == 0);
    assert(field.take(field.len() as int) =~= field);
    authorization::lemma_first_of_bound(field, '=');
}

/// The fields of a header fill the five places under their names; a place that no
/// field fills is empty, and there is no token where none is named.
pub proof fn law_fields_fill_their_places(fields: Seq<char>)
    ensures
        ({
            let said = authorization::fields_view(fields);
            &&& said.token == authorization::value_of(fields, "Token"@)
            &&& authorization::value_of(fields, "Client"@) matches Some(v) ==> said.client == v
            &&& authorization::value_of(fields, "Client"@) is None ==> said.client.len() == 0
            &&& authorization::value_of(fields, "Device"@) matches Some(v) ==> said.device == v
            &&& authorization::value_of(fields, "Device"@) is None ==> said.device.len() == 0
            &&& authorization::value_of(fields, "DeviceId"@) matches Some(v) ==> said.device_id == v
            &&& authorization::value_of(fields, "DeviceId"@) is None ==> said.device_id.len() == 0
            &&& authorization::value_of(fields, "Version"@) matches Some(v) ==> said.version == v
            &&& authorization::value_of(fields, "Version"@) is None ==> said.version.len() == 0
        }),
{
}

/// The text under a name is the header's, where there is one; the view of an
/// authorization that is missing is missing.
pub proof fn law_header_text_is_the_headers(
    headers: HeaderMap<HeaderValue>,
    name: Seq<char>,
    a: Authorization,
)
    ensures
        headers::header_texts(headers).contains_key(name) ==> headers::text_under(headers, name)
            == Some(headers::header_texts(headers)[name]),
        !headers::header_texts(headers).contains_key(name) ==> headers::text_under(headers, name)
            is None,
        request::opt_view(Some(a)) == Some(a@),
        request::opt_view(None) is None,
{
}

} // verus!
