//! The authorization header of a media client.
//!
//! Such a header names a scheme and then, separated by commas, fields such as
//! `Client="Jellyfin Web"`. A comma inside double quotes separates nothing.
use vstd::prelude::*;
use crate::text;
use crate::text::{chars_of, copy_text, eq_ignore_ascii_case, same_text, text_of, trim};

verus! {

/// What a client says of itself, with the token it presents.
#[derive(Debug)]
pub struct Authorization {
    pub client: String,
    pub device: String,
    pub device_id: String,
    pub version: String,
    pub token: Option<String>,
}

/// The view of an [`Authorization`].
pub struct AuthorizationView {
    pub client: Seq<char>,
    pub device: Seq<char>,
    pub device_id: Seq<char>,
    pub version: Seq<char>,
    pub token: Option<Seq<char>>,
}

impl View for Authorization {
    type V = AuthorizationView;

    open spec fn view(&self) -> AuthorizationView {
        AuthorizationView {
            client: self.client@,
            device: self.device@,
            device_id: self.device_id@,
            version: self.version@,
            token: text::opt_text(self.token),
        }
    }
}

impl Clone for Authorization {
    fn clone(&self) -> (copy: Self)
        ensures
            copy == *self,
    {
        Authorization {
            client: self.client.clone(),
            device: self.device.clone(),
            device_id: self.device_id.clone(),
            version: self.version.clone(),
            token: copy_text(&self.token),
        }
    }
}

/// Why a header is no authorization.
#[derive(Clone, Copy, Debug, PartialEq, Eq, Structural)]
pub enum AuthorizationError {
    /// No space stands behind a scheme.
    MissingScheme,
    /// The scheme is not one that is accepted.
    UnknownScheme,
}

/// The position of the first `c`, or the length where there is none.
pub open spec fn first_of(s: Seq<char>, c: char) -> int
    decreases s.len(),
{
    if s.len() == 0 || s[0] == c {
        0
    } else {
        1 + first_of(s.skip(1), c)
    }
}

/// The position of the first comma outside double quotes, or the length where
/// there is none; `quoted` tells whether `s` begins inside quotes.
pub open spec fn field_end(s: Seq<char>, quoted: bool) -> int
    decreases s.len(),
{
    if s.len() == 0 || (s[0] == ',' && !quoted) {
        0
    } else {
        1 + field_end(s.skip(1), quoted != (s[0] == '"'))
    }
}

/// A value without the double quotes that it stands in.
pub open spec fn unquoted(s: Seq<char>) -> Seq<char> {
    if s.len() >= 2 && s[0] == '"' && s.last() == '"' {
        s.subrange(1, s.len() - 1)
    } else {
        s
    }
}

/// Whether a field gives the key `key` a value.
pub open spec fn has_key(field: Seq<char>, key: Seq<char>) -> bool {
    first_of(field, '=') < field.len() && text::trimmed(field.take(first_of(field, '='))) == key
}

/// The value that a field gives its key.
pub open spec fn field_value(field: Seq<char>) -> Seq<char> {
    unquoted(text::trimmed(field.skip(first_of(field, '=') + 1)))
}

/// The first `c` stands where it was found, and none before it.
pub proof fn lemma_first_of_bound(s: Seq<char>, c: char)
    ensures
        0 <= first_of(s, c) <= s.len(),
        first_of(s, c) < s.len() ==> s[first_of(s, c)] == c,
        forall|i: int| 0 <= i < first_of(s, c) ==> #[trigger] s[i] != c,
    decreases s.len(),
{
    if s.len() > 0 && s[0] != c {
        lemma_first_of_bound(s.skip(1), c);
        assert forall|i: int| 0 <= i < first_of(s, c) implies #[trigger] s[i] != c by {
            if i > 0 {
                assert(s[i] == s.skip(1)[i - 1]);
            }
        }
    }
}

/// The value that the fields of `s` give `key`: that of the last field with
/// the key, nothing where no field has it.
pub open spec fn value_of(s: Seq<char>, key: Seq<char>) -> Option<Seq<char>>
    decreases s.len(),
{
    let n = field_end(s, false);
    let here = if has_key(s.take(n), key) {
        Some(field_value(s.take(n)))
    } else {
        None
    };
    if n < 0 || n >= s.len() {
        here
    } else {
        match value_of(s.skip(n + 1), key) {
            Some(v) => Some(v),
            None => here,
        }
    }
}

/// The text under `key`, empty where there is none.
pub open spec fn value_or_empty(s: Seq<char>, key: Seq<char>) -> Seq<char> {
    match value_of(s, key) {
        Some(v) => v,
        None => Seq::empty(),
    }
}

/// Whether a scheme is accepted; the older one only where `legacy` says so.
pub open spec fn scheme_accepted(scheme: Seq<char>, legacy: bool) -> bool {
    ||| text::lowered(scheme) == text::lowered("MediaBrowser"@)
    ||| legacy && text::lowered(scheme) == text::lowered("Emby"@)
}

/// What the fields of a header say.
pub open spec fn fields_view(s: Seq<char>) -> AuthorizationView {
    AuthorizationView {
        client: value_or_empty(s, "Client"@),
        device: value_or_empty(s, "Device"@),
        device_id: value_or_empty(s, "DeviceId"@),
        version: value_or_empty(s, "Version"@),
        token: value_of(s, "Token"@),
    }
}

/// What a header says, or why it says nothing.
pub open spec fn parsed(header: Seq<char>, legacy: bool) -> Result<
    AuthorizationView,
    AuthorizationError,
> {
    let n = first_of(header, ' ');
    if n >= header.len() {
        Err(AuthorizationError::MissingScheme)
    } else if !scheme_accepted(header.take(n), legacy) {
        Err(AuthorizationError::UnknownScheme)
    } else {
        Ok(fields_view(header.skip(n + 1)))
    }
}

fn find_char(s: &Vec<char>, from: usize, to: usize, c: char) -> (at: usize)
    requires
        from <= to <= s@.len(),
    ensures
        from <= at <= to,
        at == from + first_of(s@.subrange(from as int, to as int), c),
{
    let mut at: usize = from;
    while at < to && s[at] != c
        invariant
            from <= at <= to <= s@.len(),
            first_of(s@.subrange(from as int, to as int), c) == at - from + first_of(
                s@.subrange(at as int, to as int),
                c,
            ),
        decreases to - at,
    {
        assert(s@.subrange(at as int, to as int).skip(1) =~= s@.subrange(at + 1, to as int));
        at = at + 1;
    }
    at
}

fn find_field_end(s: &Vec<char>, from: usize) -> (at: usize)
    requires
        from <= s@.len(),
    ensures
        from <= at <= s@.len(),
        at == from + field_end(s@.skip(from as int), false),
{
    let mut at: usize = from;
    let mut quoted = false;
    while at < s.len() && !(s[at] == ',' && !quoted)
        invariant
            from <= at <= s@.len(),
            field_end(s@.skip(from as int), false) == at - from + field_end(
                s@.skip(at as int),
                quoted,
            ),
        decreases s@.len() - at,
    {
        assert(s@.skip(at as int).skip(1) =~= s@.skip(at + 1));
        quoted = quoted != (s[at] == '"');
        at = at + 1;
    }
    at
}

fn part(s: &Vec<char>, from: usize, to: usize) -> (text: String)
    requires
        from <= to <= s@.len(),
    ensures
        text@ == s@.subrange(from as int, to as int),
{
    let mut text = String::new();
    let mut i: usize = from;
    while i < to
        invariant
            from <= i <= to <= s@.len(),
            text@ == s@.subrange(from as int, i as int),
        decreases to - i,
    {
        text.push(s[i]);
        assert(s@.subrange(from as int, i + 1) =~= s@.subrange(from as int, i as int).push(
            s@[i as int],
        ));
        i = i + 1;
    }
    text
}

fn strip_quotes(text: &str) -> (inner: String)
    ensures
        inner@ == unquoted(text@),
{
    let chars = chars_of(text);
    let n: usize = chars.len();
    if n >= 2 && chars[0] == '"' && chars[n - 1] == '"' {
        part(&chars, 1, n - 1)
    } else {
        text_of(&chars)
    }
}

fn find_value(s: &Vec<char>, from: usize, key: &str) -> (value: Option<String>)
    requires
        from <= s@.len(),
    ensures
        text::opt_text(value) == value_of(s@.skip(from as int), key@),
    decreases s@.len() - from,
{
    let end = find_field_end(s, from);
    let equals = find_char(s, from, end, '=');
    let ghost rest = s@.skip(from as int);
    let ghost field = rest.take(end - from);
    proof {
        lemma_first_of_bound(field, '=');
        assert(field =~= s@.subrange(from as int, end as int));
    }
    let here: Option<String> = if equals < end {
        assert(field.take(equals - from) =~= s@.subrange(from as int, equals as int));
        assert(field.skip(equals - from + 1) =~= s@.subrange(equals + 1, end as int));
        if same_text(trim(part(s, from, equals).as_str()).as_str(), key) {
            Some(strip_quotes(trim(part(s, equals + 1, end).as_str()).as_str()))
        } else {
            None
        }
    } else {
        None
    };
    if end >= s.len() {
        here
    } else {
        assert(rest.skip(end - from + 1) =~= s@.skip(end + 1));
        match find_value(s, end + 1, key) {
            Some(value) => Some(value),
            None => here,
        }
    }
}

impl Authorization {
    /// Reads a header of the accepted scheme.
    pub fn parse(header: &str) -> (result: Result<Authorization, AuthorizationError>)
        ensures
            match result {
                Ok(authorization) => parsed(header@, false) == Ok::<_, AuthorizationError>(
                    authorization@,
                ),
                Err(error) => parsed(header@, false) == Err::<AuthorizationView, _>(error),
            },
    {
        Authorization::parse_with_legacy(header, false)
    }

    /// Reads a header; the older scheme is accepted too where `legacy` says so.
    pub fn parse_with_legacy(header: &str, legacy: bool) -> (result: Result<
        Authorization,
        AuthorizationError,
    >)
        ensures
            match result {
                Ok(authorization) => parsed(header@, legacy) == Ok::<_, AuthorizationError>(
                    authorization@,
                ),
                Err(error) => parsed(header@, legacy) == Err::<AuthorizationView, _>(error),
            },
    {
        let chars = chars_of(header);
        let n: usize = chars.len();
        let space = find_char(&chars, 0, n, ' ');
        assert(chars@.subrange(0, n as int) =~= header@);
        if space >= n {
            return Err(AuthorizationError::MissingScheme);
        }
        let scheme = part(&chars, 0, space);
        assert(scheme@ =~= header@.take(space as int));
        let accepted = eq_ignore_ascii_case(scheme.as_str(), "MediaBrowser") || (legacy
            && eq_ignore_ascii_case(scheme.as_str(), "Emby"));
        if !accepted {
            return Err(AuthorizationError::UnknownScheme);
        }
        let fields = space + 1;
        let client = find_value(&chars, fields, "Client").unwrap_or_default();
        let device = find_value(&chars, fields, "Device").unwrap_or_default();
        let device_id = find_value(&chars, fields, "DeviceId").unwrap_or_default();
        let version = find_value(&chars, fields, "Version").unwrap_or_default();
        let token = find_value(&chars, fields, "Token");
        Ok(Authorization { client, device, device_id, version, token })
    }
}

} // verus!
