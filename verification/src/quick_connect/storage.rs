//! Where the Quick Connect sessions are kept.
//!
//! A session stands under two keys, its secret and its code. Time is an
//! argument of the functions that end in `_at`; their namesakes read the clock.
use vstd::prelude::*;
use rand::Rng;
use crate::clock;
use crate::clock::Timestamp;
use crate::quick_connect::session;
use crate::quick_connect::session::{QuickConnectSession, SessionView};
use crate::table;
use crate::table::Table;

verus! {

/// The number of digits in a code.
pub const CODE_LEN: usize = 6;

/// The number of codes.
pub const CODE_COUNT: u32 = 1_000_000;

/// How many codes are drawn before the unused ones are looked for in turn.
pub const CODE_DRAWS: usize = 1000;

/// The sessions by key.
pub struct QuickConnectStorage {
    sessions: Table<String, QuickConnectSession>,
}

impl View for QuickConnectStorage {
    type V = Map<Seq<char>, SessionView>;

    closed spec fn view(&self) -> Map<Seq<char>, SessionView> {
        self.sessions@
    }
}

/// The sessions without the one under `key`, which goes from both its keys.
pub open spec fn without(m: Map<Seq<char>, SessionView>, key: Seq<char>) -> Map<
    Seq<char>,
    SessionView,
> {
    if m.contains_key(key) {
        m.remove(m[key].secret).remove(m[key].code)
    } else {
        m
    }
}

/// The sessions once `s` has been stored: whatever stood under one of its keys
/// is gone.
pub open spec fn stored(m: Map<Seq<char>, SessionView>, s: SessionView) -> Map<
    Seq<char>,
    SessionView,
> {
    without(without(m, s.secret), s.code).insert(s.secret, s).insert(s.code, s)
}

/// A session that is alive stands under `key`.
pub open spec fn live(m: Map<Seq<char>, SessionView>, key: Seq<char>, now: nat) -> bool {
    m.contains_key(key) && !session::expired(m[key], now)
}

/// The sessions once `key` has been looked up: an expired one is dropped.
pub open spec fn looked_up(m: Map<Seq<char>, SessionView>, key: Seq<char>, now: nat) -> Map<
    Seq<char>,
    SessionView,
> {
    if live(m, key, now) {
        m
    } else {
        without(m, key)
    }
}

/// The sessions once the one under `key` has become `s`.
pub open spec fn replaced(m: Map<Seq<char>, SessionView>, key: Seq<char>, s: SessionView) -> Map<
    Seq<char>,
    SessionView,
> {
    m.insert(s.secret, s).insert(key, s)
}

/// The sessions once an update of `key` has found an expired session there.
pub open spec fn dropped(m: Map<Seq<char>, SessionView>, key: Seq<char>) -> Map<
    Seq<char>,
    SessionView,
> {
    m.remove(m[key].secret).remove(key)
}

/// The sessions once the one under `key` has been taken out.
pub open spec fn taken(m: Map<Seq<char>, SessionView>, key: Seq<char>) -> Map<
    Seq<char>,
    SessionView,
> {
    if m.contains_key(key) {
        m.remove(key).remove(m[key].code)
    } else {
        m
    }
}

/// Some expired session has `key` as its secret or its code.
pub open spec fn expired_key(m: Map<Seq<char>, SessionView>, key: Seq<char>, now: nat) -> bool {
    exists|k: Seq<char>| #[trigger]
        m.contains_key(k) && session::expired(m[k], now) && (m[k].secret == key || m[k].code
            == key)
}

/// The keys under which an expired session stands.
pub open spec fn expired_entries(m: Map<Seq<char>, SessionView>, now: nat) -> Set<Seq<char>> {
    m.dom().filter(|k: Seq<char>| session::expired(m[k], now))
}

/// The sessions without the expired ones.
pub open spec fn cleaned(m: Map<Seq<char>, SessionView>, now: nat) -> Map<Seq<char>, SessionView> {
    Map::new(|k: Seq<char>| m.contains_key(k) && !expired_key(m, k, now), |k: Seq<char>| m[k])
}

/// `code` is made of six decimal digits.
pub open spec fn is_code(code: Seq<char>) -> bool {
    code.len() == CODE_LEN && forall|i: int| 0 <= i < code.len() ==> '0' <= #[trigger] code[i] <= '9'
}

/// Some code is not in use.
pub open spec fn code_is_free(m: Map<Seq<char>, SessionView>) -> bool {
    exists|code: Seq<char>| is_code(code) && !#[trigger] m.contains_key(code)
}

/// `rand::Rng::random_range` on the range `0..10` of the thread's generator:
/// any digit may come out, and nothing else.
#[verifier::external_body]
fn random_digit() -> (digit: u8)
    ensures
        digit < 10,
{
    rand::rng().random_range(0..10)
}

/// The code that drawn digits spell.
pub open spec fn code_text(digits: Seq<u8>) -> Seq<char> {
    Seq::new(digits.len(), |i: int| (48 + digits[i]) as char)
}

/// The code that drawn digits spell.
pub fn code_of(digits: &Vec<u8>) -> (code: String)
    requires
        forall|i: int| 0 <= i < digits@.len() ==> #[trigger] digits@[i] < 10,
    ensures
        code@ == code_text(digits@),
{
    let mut code = String::new();
    let mut i: usize = 0;
    while i < digits.len()
        invariant
            i <= digits@.len(),
            forall|j: int| 0 <= j < digits@.len() ==> #[trigger] digits@[j] < 10,
            code@ == code_text(digits@).take(i as int),
        decreases digits@.len() - i,
    {
        code.push((48 + digits[i]) as char);
        assert(code_text(digits@).take(i + 1) =~= code_text(digits@).take(i as int).push(
            (48 + digits@[i as int]) as char,
        ));
        i = i + 1;
    }
    assert(code_text(digits@).take(digits@.len() as int) =~= code_text(digits@));
    code
}

/// A code of six digits drawn at random. Which digits come is left open;
/// [`code_of`] says what becomes of them.
pub fn generate_code() -> (code: String)
    ensures
        is_code(code@),
{
    let mut digits: Vec<u8> = Vec::new();
    while digits.len() < CODE_LEN
        invariant
            digits@.len() <= CODE_LEN,
            forall|j: int| 0 <= j < digits@.len() ==> #[trigger] digits@[j] < 10,
        decreases CODE_LEN - digits@.len(),
    {
        digits.push(random_digit());
    }
    code_of(&digits)
}

/// The digits of the code with the number `n`.
pub open spec fn numbered_digits(n: nat) -> Seq<u8> {
    seq![
        (n / 100_000 % 10) as u8,
        (n / 10_000 % 10) as u8,
        (n / 1_000 % 10) as u8,
        (n / 100 % 10) as u8,
        (n / 10 % 10) as u8,
        (n % 10) as u8,
    ]
}

/// The code with the number `n`: `n` in six digits, with leading zeros.
pub open spec fn numbered_code(n: nat) -> Seq<char> {
    code_text(numbered_digits(n))
}

/// The digit at a place of a code, as a number.
pub open spec fn digit_at(code: Seq<char>, i: int) -> int {
    code[i] as int - 48
}

/// The number that a code spells.
pub open spec fn code_number(code: Seq<char>) -> nat {
    (digit_at(code, 0) * 100_000 + digit_at(code, 1) * 10_000 + digit_at(code, 2) * 1_000
        + digit_at(code, 3) * 100 + digit_at(code, 4) * 10 + digit_at(code, 5)) as nat
}

proof fn lemma_number_parts(n: int, k: int, high: int, digit: int, low: int)
    requires
        k > 0,
        n == (10 * high + digit) * k + low,
        0 <= low < k,
        0 <= digit < 10,
        0 <= high,
    ensures
        n / k % 10 == digit,
{
    vstd::arithmetic::div_mod::lemma_fundamental_div_mod_converse(n, k, 10 * high + digit, low);
    assert((10 * high + digit) % 10 == digit);
}

/// Every code has a number, and is the code with that number.
pub proof fn lemma_codes_are_numbered(code: Seq<char>)
    requires
        is_code(code),
    ensures
        code_number(code) < CODE_COUNT,
        numbered_code(code_number(code)) == code,
{
    let n = code_number(code);
    let a = digit_at(code, 0);
    let b = digit_at(code, 1);
    let c = digit_at(code, 2);
    let d = digit_at(code, 3);
    let e = digit_at(code, 4);
    let f = digit_at(code, 5);
    assert(0 <= a < 10 && 0 <= b < 10 && 0 <= c < 10 && 0 <= d < 10 && 0 <= e < 10 && 0 <= f < 10);
    let ab = 10 * a + b;
    let abc = 10 * ab + c;
    let abcd = 10 * abc + d;
    let abcde = 10 * abcd + e;
    lemma_number_parts(n as int, 100_000, 0, a, b * 10_000 + c * 1_000 + d * 100 + e * 10 + f);
    lemma_number_parts(n as int, 10_000, a, b, c * 1_000 + d * 100 + e * 10 + f);
    lemma_number_parts(n as int, 1_000, ab, c, d * 100 + e * 10 + f);
    lemma_number_parts(n as int, 100, abc, d, e * 10 + f);
    lemma_number_parts(n as int, 10, abcd, e, f);
    lemma_number_parts(n as int, 1, abcde, f, 0);
    assert(numbered_digits(n) =~= seq![a as u8, b as u8, c as u8, d as u8, e as u8, f as u8]);
    assert(numbered_code(n) =~= code);
}

/// The code with a number is a code, and spells that number.
pub proof fn lemma_numbers_are_spelled(n: nat)
    requires
        n < CODE_COUNT,
    ensures
        is_code(numbered_code(n)),
        code_number(numbered_code(n)) == n,
{
    let code = numbered_code(n);
    let n1 = n / 10;
    let n2 = n1 / 10;
    let n3 = n2 / 10;
    let n4 = n3 / 10;
    let n5 = n4 / 10;
    vstd::arithmetic::div_mod::lemma_div_denominator(n as int, 10, 10);
    vstd::arithmetic::div_mod::lemma_div_denominator(n as int, 100, 10);
    vstd::arithmetic::div_mod::lemma_div_denominator(n as int, 1_000, 10);
    vstd::arithmetic::div_mod::lemma_div_denominator(n as int, 10_000, 10);
    assert(digit_at(code, 0) == n5 % 10);
    assert(digit_at(code, 1) == n4 % 10);
    assert(digit_at(code, 2) == n3 % 10);
    assert(digit_at(code, 3) == n2 % 10);
    assert(digit_at(code, 4) == n1 % 10);
    assert(digit_at(code, 5) == n % 10);
}

/// The code with the number `n`.
pub fn code_with_number(n: u32) -> (code: String)
    requires
        n < CODE_COUNT,
    ensures
        code@ == numbered_code(n as nat),
{
    let digits: Vec<u8> = vec![
        (n / 100_000 % 10) as u8,
        (n / 10_000 % 10) as u8,
        (n / 1_000 % 10) as u8,
        (n / 100 % 10) as u8,
        (n / 10 % 10) as u8,
        (n % 10) as u8,
    ];
    assert(digits@ =~= numbered_digits(n as nat));
    code_of(&digits)
}

impl Default for QuickConnectStorage {
    fn default() -> (storage: Self)
        ensures
            storage@ == Map::<Seq<char>, SessionView>::empty(),
    {
        QuickConnectStorage::new()
    }
}

impl QuickConnectStorage {
    /// A storage without sessions.
    pub fn new() -> (storage: Self)
        ensures
            storage@ == Map::<Seq<char>, SessionView>::empty(),
    {
        QuickConnectStorage { sessions: Table::new() }
    }

    fn find(&self, key: &str) -> (found: Option<QuickConnectSession>)
        ensures
            match found {
                Some(s) => self@.contains_key(key@) && s@ == self@[key@],
                None => !self@.contains_key(key@),
            },
    {
        match self.sessions.get(&key.to_owned()) {
            Some(s) => Some(s.clone()),
            None => None,
        }
    }

    fn drop_found(&mut self, key: &str)
        ensures
            final(self)@ == without(old(self)@, key@),
    {
        if let Some(existing) = self.find(key) {
            let _ = self.sessions.remove(&existing.secret);
            let _ = self.sessions.remove(&existing.code);
        }
    }

    /// Stores a session under its secret and its code. A session that stood
    /// under either is dropped from both its keys.
    pub fn store_session(&mut self, session: QuickConnectSession)
        ensures
            final(self)@ == stored(old(self)@, session@),
    {
        self.drop_found(session.secret.as_str());
        self.drop_found(session.code.as_str());
        self.sessions.insert(session.secret.clone(), session.clone());
        self.sessions.insert(session.code.clone(), session);
    }

    /// A drawn code, unless a session is found under it.
    pub fn unless_used(&self, code: String) -> (free: Option<String>)
        ensures
            free == if self@.contains_key(code@) {
                None::<String>
            } else {
                Some(code)
            },
    {
        if self.sessions.contains_key(&code) {
            None
        } else {
            Some(code)
        }
    }

    /// The unused code with the least number, where there is one.
    pub fn first_unused_code(&self) -> (found: Option<String>)
        ensures
            match found {
                Some(code) => exists|n: nat|
                    {
                        &&& n < CODE_COUNT
                        &&& code@ == #[trigger] numbered_code(n)
                        &&& !self@.contains_key(code@)
                        &&& forall|m: nat| m < n ==> self@.contains_key(#[trigger] numbered_code(m))
                    },
                None => !code_is_free(self@),
            },
    {
        let mut n: u32 = 0;
        while n < CODE_COUNT
            invariant
                n <= CODE_COUNT,
                forall|m: nat| m < n ==> self@.contains_key(#[trigger] numbered_code(m)),
            decreases CODE_COUNT - n,
        {
            let code = code_with_number(n);
            assert(code@ == numbered_code(n as nat));
            if let Some(free) = self.unless_used(code) {
                return Some(free);
            }
            n = n + 1;
        }
        assert forall|code: Seq<char>| is_code(code) implies #[trigger] self@.contains_key(code) by {
            lemma_codes_are_numbered(code);
        }
        None
    }

    /// Draws a code that is not in use, and finds one wherever there is one:
    /// should many draws in a row be in use, the unused code with the least number
    /// is taken. Which codes are drawn is left open;
    /// [`QuickConnectStorage::unless_used`] says what becomes of each.
    pub fn generate_unique_code(&self) -> (found: Option<String>)
        ensures
            found is Some <==> code_is_free(self@),
            found matches Some(code) ==> is_code(code@) && !self@.contains_key(code@),
            self@.dom().finite(),
    {
        proof {
            self.sessions.lemma_keys_are_finite();
        }
        let mut i: usize = 0;
        while i < CODE_DRAWS
            invariant
                i <= CODE_DRAWS,
                self@.dom().finite(),
            decreases CODE_DRAWS - i,
        {
            if let Some(free) = self.unless_used(generate_code()) {
                assert(is_code(free@) && !self@.contains_key(free@));
                return Some(free);
            }
            i = i + 1;
        }
        let found = self.first_unused_code();
        if let Some(code) = &found {
            assert(is_code(code@) && !self@.contains_key(code@));
        }
        found
    }

    /// The session under a key, where it is alive at `now`. An expired one is
    /// dropped.
    pub fn get_session_at(&mut self, key: &str, now: Timestamp) -> (found: Option<
        QuickConnectSession,
    >)
        ensures
            final(self)@ == looked_up(old(self)@, key@, now@),
            match found {
                Some(s) => live(old(self)@, key@, now@) && s@ == old(self)@[key@],
                None => !live(old(self)@, key@, now@),
            },
    {
        match self.find(key) {
            Some(s) => {
                if s.is_expired_at(now) {
                    let _ = self.sessions.remove(&s.secret);
                    let _ = self.sessions.remove(&s.code);
                    None
                } else {
                    Some(s)
                }
            },
            None => None,
        }
    }

    /// The session under a key, where it is alive by the clock.
    pub fn get_session(&mut self, key: &str) -> (found: Option<QuickConnectSession>)
        ensures
            exists|now: nat|
                {
                    &&& clock::is_reading(now)
                    &&& final(self)@ == #[trigger] looked_up(old(self)@, key@, now)
                    &&& match found {
                        Some(s) => live(old(self)@, key@, now) && s@ == old(self)@[key@],
                        None => !live(old(self)@, key@, now),
                    }
                },
    {
        let now = Timestamp::now();
        let found = self.get_session_at(key, now);
        assert(self@ == looked_up(old(self)@, key@, now@));
        found
    }

    /// Lets `updater` change the session under `code`, where it is alive at
    /// `now`; tells whether there was one. What comes out stands under its
    /// secret and under `code`.
    pub fn update_session_by_code_at<F: FnOnce(&mut QuickConnectSession)>(
        &mut self,
        code: &str,
        updater: F,
        now: Timestamp,
    ) -> (updated: bool)
        requires
            forall|s: &mut QuickConnectSession| #[trigger] call_requires(updater, (s,)),
        ensures
            updated == live(old(self)@, code@, now@),
            updated ==> exists|s: &mut QuickConnectSession|
                {
                    &&& (*s)@ == old(self)@[code@]
                    &&& #[trigger] call_ensures(updater, (s,), ())
                    &&& final(self)@ == replaced(old(self)@, code@, (*final(s))@)
                },
            !updated && old(self)@.contains_key(code@) ==> final(self)@ == dropped(
                old(self)@,
                code@,
            ),
            !old(self)@.contains_key(code@) ==> final(self)@ == old(self)@,
    {
        match self.find(code) {
            Some(found) => {
                if found.is_expired_at(now) {
                    let _ = self.sessions.remove(&found.secret);
                    let _ = self.sessions.remove(&code.to_owned());
                    false
                } else {
                    let mut changed = found;
                    updater(&mut changed);
                    self.sessions.insert(changed.secret.clone(), changed.clone());
                    self.sessions.insert(code.to_owned(), changed);
                    true
                }
            },
            None => false,
        }
    }

    /// Lets `updater` change the session under `code`, where it is alive by
    /// the clock.
    pub fn update_session_by_code<F: FnOnce(&mut QuickConnectSession)>(
        &mut self,
        code: &str,
        updater: F,
    ) -> (updated: bool)
        requires
            forall|s: &mut QuickConnectSession| #[trigger] call_requires(updater, (s,)),
        ensures
            exists|now: nat|
                clock::is_reading(now) && updated == #[trigger] live(old(self)@, code@, now),
            updated ==> exists|s: &mut QuickConnectSession|
                {
                    &&& (*s)@ == old(self)@[code@]
                    &&& #[trigger] call_ensures(updater, (s,), ())
                    &&& final(self)@ == replaced(old(self)@, code@, (*final(s))@)
                },
            !updated && old(self)@.contains_key(code@) ==> final(self)@ == dropped(
                old(self)@,
                code@,
            ),
            !old(self)@.contains_key(code@) ==> final(self)@ == old(self)@,
    {
        let now = Timestamp::now();
        let updated = self.update_session_by_code_at(code, updater, now);
        assert(updated == live(old(self)@, code@, now@));
        updated
    }

    /// Takes out the session under `secret`, which goes from its code too.
    pub fn remove_session(&mut self, secret: &str) -> (removed: Option<QuickConnectSession>)
        ensures
            final(self)@ == taken(old(self)@, secret@),
            match removed {
                Some(s) => old(self)@.contains_key(secret@) && s@ == old(self)@[secret@],
                None => !old(self)@.contains_key(secret@),
            },
    {
        match self.sessions.remove(&secret.to_owned()) {
            Some(s) => {
                let _ = self.sessions.remove(&s.code);
                Some(s)
            },
            None => None,
        }
    }

    /// Drops every session that has expired at `now`. Returns how many entries
    /// were expired: a session that stands under two keys counts twice.
    pub fn cleanup_expired_at(&mut self, now: Timestamp) -> (count: usize)
        ensures
            final(self)@ == cleaned(old(self)@, now@),
            expired_entries(old(self)@, now@).finite(),
            count == expired_entries(old(self)@, now@).len(),
    {
        let ghost m = self@;
        let ghost items = self.sessions.items();
        let mut pairs: Vec<(String, String)> = Vec::new();
        let ghost mut seen: Set<Seq<char>> = Set::empty();
        let n: usize = self.sessions.len();
        let mut i: usize = 0;
        while i < n
            invariant
                i <= n,
                n == items.len(),
                items == self.sessions.items(),
                m == self@,
                m == table::rows_map(items),
                table::keys_distinct(items),
                seen.finite(),
                seen.len() == pairs@.len(),
                pairs@.len() <= i,
                forall|k: Seq<char>|
                    seen.contains(k) ==> exists|j: int|
                        0 <= j < i && (#[trigger] items[j]).0 == k && session::expired(
                            items[j].1,
                            now@,
                        ),
                forall|j: int|
                    0 <= j < i && session::expired((#[trigger] items[j]).1, now@) ==> seen.contains(
                        items[j].0,
                    ) && named(pairs@, items[j].1.secret) && named(pairs@, items[j].1.code),
                forall|k: Seq<char>| #[trigger] named(pairs@, k) ==> expired_key(m, k, now@),
            decreases n - i,
        {
            let s = self.sessions.value_at(i);
            let ghost before = pairs@;
            proof {
                table::lemma_row_is_entry(items, i as int);
            }
            if s.is_expired_at(now) {
                let key = self.sessions.key_at(i);
                pairs.push((s.secret.clone(), s.code.clone()));
                proof {
                    assert(!seen.contains(key@));
                    seen = seen.insert(key@);
                    lemma_named_push(before, pairs@.last());
                    assert(m.contains_key(key@) && session::expired(m[key@], now@));
                    assert forall|k: Seq<char>| #[trigger] named(pairs@, k) implies expired_key(
                        m,
                        k,
                        now@,
                    ) by {
                        if !named(before, k) {
                            assert(k == m[key@].secret || k == m[key@].code);
                        }
                    }
                }
            }
            i = i + 1;
        }
        proof {
            assert(seen =~= expired_entries(m, now@)) by {
                assert forall|k: Seq<char>| expired_entries(m, now@).contains(k) implies seen.contains(
                    k,
                ) by {
                    let j = table::lemma_entry_is_row(items, k);
                }
                assert forall|k: Seq<char>| seen.contains(k) implies expired_entries(
                    m,
                    now@,
                ).contains(k) by {
                    let j = choose|j: int|
                        0 <= j < n && (#[trigger] items[j]).0 == k && session::expired(
                            items[j].1,
                            now@,
                        );
                    table::lemma_row_is_entry(items, j);
                }
            }
            assert forall|k: Seq<char>| expired_key(m, k, now@) implies #[trigger] named(
                pairs@,
                k,
            ) by {
                let e = choose|e: Seq<char>| #[trigger]
                    m.contains_key(e) && session::expired(m[e], now@) && (m[e].secret == k
                        || m[e].code == k);
                let j = table::lemma_entry_is_row(items, e);
            }
        }
        let mut j: usize = 0;
        while j < pairs.len()
            invariant
                j <= pairs@.len(),
                forall|k: Seq<char>| #[trigger]
                    self@.contains_key(k) <==> m.contains_key(k) && !named(
                        pairs@.take(j as int),
                        k,
                    ),
                forall|k: Seq<char>| #[trigger] self@.contains_key(k) ==> self@[k] == m[k],
            decreases pairs@.len() - j,
        {
            proof {
                assert(pairs@.take(j + 1) =~= pairs@.take(j as int).push(pairs@[j as int]));
                lemma_named_push(pairs@.take(j as int), pairs@[j as int]);
            }
            let ghost before = self@;
            let _ = self.sessions.remove(&pairs[j].0);
            let _ = self.sessions.remove(&pairs[j].1);
            assert(self@ == before.remove(pairs@[j as int].0@).remove(pairs@[j as int].1@));
            assert forall|k: Seq<char>| #[trigger] self@.contains_key(k) implies self@[k] == m[k] by {
                assert(before.contains_key(k));
            }
            assert forall|k: Seq<char>| #[trigger]
                self@.contains_key(k) <==> m.contains_key(k) && !named(
                    pairs@.take(j + 1),
                    k,
                ) by {
                assert(before.contains_key(k) <==> m.contains_key(k) && !named(
                    pairs@.take(j as int),
                    k,
                ));
            }
            j = j + 1;
        }
        assert(pairs@.take(pairs@.len() as int) =~= pairs@);
        assert(self@ =~= cleaned(m, now@));
        pairs.len()
    }

    /// Drops every session that has expired by the clock.
    pub fn cleanup_expired(&mut self) -> (count: usize)
        ensures
            exists|now: nat|
                {
                    &&& clock::is_reading(now)
                    &&& final(self)@ == #[trigger] cleaned(old(self)@, now)
                    &&& expired_entries(old(self)@, now).finite()
                    &&& count == expired_entries(old(self)@, now).len()
                },
    {
        let now = Timestamp::now();
        let count = self.cleanup_expired_at(now);
        assert(self@ == cleaned(old(self)@, now@));
        count
    }
}

/// `key` is one of the texts in `pairs`.
spec fn named(pairs: Seq<(String, String)>, key: Seq<char>) -> bool {
    exists|j: int|
        0 <= j < pairs.len() && ((#[trigger] pairs[j]).0@ == key || pairs[j].1@ == key)
}

proof fn lemma_named_push(pairs: Seq<(String, String)>, pair: (String, String))
    ensures
        forall|key: Seq<char>| #[trigger]
            named(pairs.push(pair), key) <==> named(pairs, key) || pair.0@ == key || pair.1@
                == key,
{
    let after = pairs.push(pair);
    assert forall|key: Seq<char>| #[trigger]
        named(after, key) <==> named(pairs, key) || pair.0@ == key || pair.1@ == key by {
        if named(pairs, key) {
            let j = choose|j: int|
                0 <= j < pairs.len() && ((#[trigger] pairs[j]).0@ == key || pairs[j].1@ == key);
            assert(after[j] == pairs[j]);
        }
        assert(after[pairs.len() as int] == pair);
        if named(after, key) {
            let j = choose|j: int|
                0 <= j < after.len() && ((#[trigger] after[j]).0@ == key || after[j].1@ == key);
            if j < pairs.len() {
                assert(after[j] == pairs[j]);
            }
        }
    }
}

} // verus!
