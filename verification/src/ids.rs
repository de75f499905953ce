//! Identifiers of 128 bits and the texts that name them.
use vstd::prelude::*;
use crate::text;

verus! {

/// The small hexadecimal digit of value `n`.
pub open spec fn hex_digit(n: int) -> char {
    if n < 10 {
        (n + 48) as char
    } else {
        (n + 87) as char
    }
}

/// The last `count` hexadecimal digits of `value`.
pub open spec fn hex_digits(value: nat, count: nat) -> Seq<char>
    decreases count,
{
    if count == 0 {
        Seq::empty()
    } else {
        hex_digits(value / 16, (count - 1) as nat).push(hex_digit((value % 16) as int))
    }
}

/// The text of an identifier without hyphens.
pub open spec fn simple_text(id: u128) -> Seq<char> {
    hex_digits(id as nat, 32)
}

/// The text of an identifier in its five groups.
pub open spec fn hyphenated_text(id: u128) -> Seq<char> {
    let s = simple_text(id);
    s.subrange(0, 8) + seq!['-'] + s.subrange(8, 12) + seq!['-'] + s.subrange(12, 16) + seq!['-']
        + s.subrange(16, 20) + seq!['-'] + s.subrange(20, 32)
}

/// What stands before the groups where a text names an identifier as a URN.
pub open spec fn urn_prefix() -> Seq<char> {
    seq!['u', 'r', 'n', ':', 'u', 'u', 'i', 'd', ':']
}

/// `text` names `id`: with or without hyphens, in braces or as a URN, in
/// letters of either case.
pub open spec fn names_id(text: Seq<char>, id: u128) -> bool {
    let t = text::lowered(text);
    ||| t == simple_text(id)
    ||| t == hyphenated_text(id)
    ||| t == seq!['{'] + hyphenated_text(id) + seq!['}']
    ||| t == urn_prefix() + hyphenated_text(id)
}

/// The identifier that `text` names, where it names one.
pub open spec fn id_named(text: Seq<char>) -> Option<u128> {
    if exists|id: u128| names_id(text, id) {
        Some(choose|id: u128| names_id(text, id))
    } else {
        None
    }
}

/// The version and variant bits of a random identifier.
pub open spec fn is_random_id(id: u128) -> bool {
    &&& (id >> 76) & 0xf == 4
    &&& (id >> 62) & 3 == 2
}

/// `uuid::Uuid::new_v4`, read with `Uuid::as_u128`: some identifier that
/// carries the version and variant bits of a random one. Which one it is, and
/// that it differs from any other, is left open.
#[verifier::external_body]
fn uuid_new_v4() -> (id: u128)
    ensures
        is_random_id(id),
{
    uuid::Uuid::new_v4().as_u128()
}

/// `uuid::Uuid::parse_str`, read with `Uuid::as_u128`: an identifier comes back
/// exactly where the text names one, and it is the one that the text names.
#[verifier::external_body]
fn uuid_parse(text: &str) -> (id: Option<u128>)
    ensures
        match id {
            Some(i) => names_id(text@, i),
            None => forall|i: u128| !names_id(text@, i),
        },
{
    match uuid::Uuid::parse_str(text) {
        Ok(id) => Some(id.as_u128()),
        Err(_) => None,
    }
}

/// `uuid::Uuid::hyphenated` of `Uuid::from_u128`, printed: the identifier in
/// its five groups of small hexadecimal digits.
#[verifier::external_body]
fn uuid_hyphenated(id: u128) -> (text: String)
    ensures
        text@ == hyphenated_text(id),
{
    uuid::Uuid::from_u128(id).hyphenated().to_string()
}

proof fn lemma_hex_digits_len(value: nat, count: nat)
    ensures
        hex_digits(value, count).len() == count,
    decreases count,
{
    if count > 0 {
        lemma_hex_digits_len(value / 16, (count - 1) as nat);
    }
}

proof fn lemma_hex_digits_small(value: nat, count: nat, i: int)
    requires
        0 <= i < count,
    ensures
        hex_digits(value, count).len() == count,
        text::ascii_lower(hex_digits(value, count)[i]) == hex_digits(value, count)[i],
    decreases count,
{
    lemma_hex_digits_len(value, count);
    lemma_hex_digits_len(value / 16, (count - 1) as nat);
    if i < count - 1 {
        lemma_hex_digits_small(value / 16, (count - 1) as nat, i);
    }
}

spec fn pow16(n: nat) -> nat
    decreases n,
{
    if n == 0 {
        1
    } else {
        16 * pow16((n - 1) as nat)
    }
}

proof fn lemma_hex_digits_injective(a: nat, b: nat, count: nat)
    requires
        a < pow16(count),
        b < pow16(count),
        hex_digits(a, count) == hex_digits(b, count),
    ensures
        a == b,
    decreases count,
{
    if count > 0 {
        let n = (count - 1) as nat;
        lemma_hex_digits_len(a / 16, n);
        lemma_hex_digits_len(b / 16, n);
        let x = hex_digits(a, count);
        let y = hex_digits(b, count);
        assert(x.last() == hex_digit((a % 16) as int));
        assert(y.last() == hex_digit((b % 16) as int));
        assert(x.drop_last() =~= hex_digits(a / 16, n));
        assert(y.drop_last() =~= hex_digits(b / 16, n));
        assert(a % 16 == b % 16);
        lemma_hex_digits_injective(a / 16, b / 16, n);
    }
}

proof fn lemma_simple_injective(a: u128, b: u128)
    requires
        simple_text(a) == simple_text(b),
    ensures
        a == b,
{
    reveal_with_fuel(pow16, 33);
    assert(pow16(32) == 0x1_0000_0000_0000_0000_0000_0000_0000_0000);
    lemma_hex_digits_injective(a as nat, b as nat, 32);
}

proof fn lemma_hyphenated_len(id: u128)
    ensures
        simple_text(id).len() == 32,
        hyphenated_text(id).len() == 36,
{
    lemma_hex_digits_len(id as nat, 32);
}

proof fn lemma_hyphenated_injective(a: u128, b: u128)
    requires
        hyphenated_text(a) == hyphenated_text(b),
    ensures
        a == b,
{
    lemma_hyphenated_len(a);
    lemma_hyphenated_len(b);
    let s = simple_text(a);
    let t = simple_text(b);
    let x = hyphenated_text(a);
    let y = hyphenated_text(b);
    assert forall|i: int| 0 <= i < 32 implies s[i] == t[i] by {
        let j: int = if i < 8 {
            i
        } else if i < 12 {
            i + 1
        } else if i < 16 {
            i + 2
        } else if i < 20 {
            i + 3
        } else {
            i + 4
        };
        assert(x[j] == s[i]);
        assert(y[j] == t[i]);
    }
    assert(s =~= t);
    lemma_simple_injective(a, b);
}

/// A text names at most one identifier.
pub proof fn law_text_names_one_id(text: Seq<char>, a: u128, b: u128)
    requires
        names_id(text, a),
        names_id(text, b),
    ensures
        a == b,
{
    lemma_hyphenated_len(a);
    lemma_hyphenated_len(b);
    let t = text::lowered(text);
    let x = hyphenated_text(a);
    let y = hyphenated_text(b);
    if t.len() == 32 {
        lemma_simple_injective(a, b);
    } else if t.len() == 36 {
        lemma_hyphenated_injective(a, b);
    } else if t.len() == 38 {
        assert(t.subrange(1, 37) =~= x);
        assert(t.subrange(1, 37) =~= y);
        lemma_hyphenated_injective(a, b);
    } else {
        assert(t.subrange(9, 45) =~= x);
        assert(t.subrange(9, 45) =~= y);
        lemma_hyphenated_injective(a, b);
    }
}

/// The text of an identifier in its five groups names that identifier.
pub proof fn law_hyphenated_text_names_its_id(id: u128)
    ensures
        names_id(hyphenated_text(id), id),
        id_named(hyphenated_text(id)) == Some(id),
{
    lemma_hyphenated_len(id);
    let s = simple_text(id);
    let x = hyphenated_text(id);
    assert forall|i: int| 0 <= i < 36 implies text::ascii_lower(#[trigger] x[i]) == x[i] by {
        if i == 8 || i == 13 || i == 18 || i == 23 {
        } else {
            let j: int = if i < 8 {
                i
            } else if i < 13 {
                i - 1
            } else if i < 18 {
                i - 2
            } else if i < 23 {
                i - 3
            } else {
                i - 4
            };
            assert(x[i] == s[j]);
            lemma_hex_digits_small(id as nat, 32, j);
        }
    }
    assert(text::lowered(x) =~= x);
    assert(names_id(x, id));
    let other = choose|i: u128| names_id(x, i);
    law_text_names_one_id(x, id, other);
}

/// A fresh random identifier.
pub fn new_id() -> (id: u128)
    ensures
        is_random_id(id),
        id != 0,
{
    let id = uuid_new_v4();
    assert((0u128 >> 76) & 0xf == 0) by (bit_vector);
    id
}

/// The identifier that a text names, where it names one.
pub fn parse_id(text: &str) -> (id: Option<u128>)
    ensures
        id == id_named(text@),
{
    let id = uuid_parse(text);
    proof {
        if let Some(i) = id {
            law_text_names_one_id(text@, i, choose|j: u128| names_id(text@, j));
        }
    }
    id
}

/// The text of an identifier in its five groups.
pub fn id_text(id: u128) -> (text: String)
    ensures
        text@ == hyphenated_text(id),
{
    uuid_hyphenated(id)
}

/// A random identifier is of the fourth version, and of the variant whose texts show
/// one of `8`, `9`, `a` and `b` in its place.
pub proof fn law_random_ids_are_of_the_fourth_version(id: u128)
    requires
        is_random_id(id),
    ensures
        (id / 0x1000_0000_0000_0000_0000) % 16 == 4,
        8 <= (id / 0x1000_0000_0000_0000) % 16 < 12,
{
    assert((id / 0x1000_0000_0000_0000_0000) % 16 == 4 && 8 <= (id / 0x1000_0000_0000_0000) % 16 && (
    id / 0x1000_0000_0000_0000) % 16 < 12) by (bit_vector)
        requires
            (id >> 76) & 0xf == 4,
            (id >> 62) & 3 == 2,
    ;
}

} // verus!
