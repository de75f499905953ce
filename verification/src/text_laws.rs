//! What letter case, trimming, search, order and numbers come to in texts.
use vstd::prelude::*;
use crate::text;

verus! {

/// Making a text small changes each ASCII capital into its small letter, in its
/// place, and no other character.
pub proof fn law_lowering_changes_capitals_only(s: Seq<char>)
    ensures
        text::lowered(s).len() == s.len(),
        forall|i: int|
            0 <= i < s.len() ==> {
                let before = s[i] as int;
                let after = (#[trigger] text::lowered(s)[i]) as int;
                after == if 65 <= before <= 90 {
                    before + 32
                } else {
                    before
                }
            },
{
}

/// Two texts are the same in small letters where they differ in the case of ASCII
/// letters at most.
pub proof fn law_case_is_all_that_lowering_forgets(a: Seq<char>, b: Seq<char>)
    ensures
        text::lowered(a) == text::lowered(b) <==> a.len() == b.len() && forall|i: int|
            0 <= i < a.len() ==> text::ascii_lower(#[trigger] a[i]) == text::ascii_lower(b[i]),
{
    if text::lowered(a) == text::lowered(b) {
        assert(text::lowered(a).len() == text::lowered(b).len());
        assert forall|i: int| 0 <= i < a.len() implies text::ascii_lower(#[trigger] a[i])
            == text::ascii_lower(b[i]) by {
            assert(text::lowered(a)[i] == text::lowered(b)[i]);
        }
    } else if a.len() == b.len() && (forall|i: int|
        0 <= i < a.len() ==> text::ascii_lower(#[trigger] a[i]) == text::ascii_lower(b[i])) {
        assert(text::lowered(a) =~= text::lowered(b));
    }
}

/// White space in ASCII: the blank, and the controls from tab to carriage return.
pub proof fn law_ascii_white_space(c: char)
    requires
        (c as u32) < 128,
    ensures
        text::is_white(c) <==> c == ' ' || (9 <= c as u32 && c as u32 <= 13),
{
}

proof fn lemma_trimmed_start(s: Seq<char>) -> (from: int)
    ensures
        0 <= from <= s.len(),
        text::trimmed_start(s) == s.subrange(from, s.len() as int),
        forall|i: int| 0 <= i < from ==> text::is_white(#[trigger] s[i]),
        from < s.len() ==> !text::is_white(s[from]),
    decreases s.len(),
{
    if s.len() > 0 && text::is_white(s[0]) {
        let rest = s.skip(1);
        let at = lemma_trimmed_start(rest);
        assert(rest.subrange(at, rest.len() as int) =~= s.subrange(at + 1, s.len() as int));
        assert forall|i: int| 0 <= i < at + 1 implies text::is_white(#[trigger] s[i]) by {
            if i > 0 {
                assert(rest[i - 1] == s[i]);
            }
        }
        if at < rest.len() {
            assert(rest[at] == s[at + 1]);
        }
        at + 1
    } else {
        assert(s.subrange(0, s.len() as int) =~= s);
        0
    }
}

proof fn lemma_trimmed_end(s: Seq<char>) -> (to: int)
    ensures
        0 <= to <= s.len(),
        text::trimmed_end(s) == s.subrange(0, to),
        forall|i: int| to <= i < s.len() ==> text::is_white(#[trigger] s[i]),
        to > 0 ==> !text::is_white(s[to - 1]),
    decreases s.len(),
{
    if s.len() > 0 && text::is_white(s.last()) {
        let rest = s.drop_last();
        let to = lemma_trimmed_end(rest);
        assert(rest.subrange(0, to) =~= s.subrange(0, to));
        assert forall|i: int| to <= i < s.len() implies text::is_white(#[trigger] s[i]) by {
            if i < rest.len() {
                assert(rest[i] == s[i]);
            }
        }
        if to > 0 {
            assert(rest[to - 1] == s[to - 1]);
        }
        to
    } else {
        assert(s.subrange(0, s.len() as int) =~= s);
        s.len() as int
    }
}

/// Trimming takes white space from the two ends of a text and from nowhere else,
/// and takes all of it.
pub proof fn law_trimming_takes_white_ends(s: Seq<char>) -> (ends: (int, int))
    ensures
        0 <= ends.0 <= ends.1 <= s.len(),
        text::trimmed(s) == s.subrange(ends.0, ends.1),
        forall|i: int| 0 <= i < ends.0 ==> text::is_white(#[trigger] s[i]),
        forall|i: int| ends.1 <= i < s.len() ==> text::is_white(#[trigger] s[i]),
        ends.0 < ends.1 ==> !text::is_white(s[ends.0]) && !text::is_white(s[ends.1 - 1]),
{
    let from = lemma_trimmed_start(s);
    let body = s.subrange(from, s.len() as int);
    let to = lemma_trimmed_end(body);
    assert(body.subrange(0, to) =~= s.subrange(from, from + to));
    assert forall|i: int| from + to <= i < s.len() implies text::is_white(#[trigger] s[i]) by {
        assert(body[i - from] == s[i]);
    }
    if to > 0 {
        assert(body[to - 1] == s[from + to - 1]);
    }
    (from, from + to)
}

/// A text that neither begins nor ends with white space stays when it is trimmed.
pub proof fn law_trimming_leaves_the_trimmed(s: Seq<char>)
    requires
        s.len() > 0,
        !text::is_white(s[0]),
        !text::is_white(s.last()),
    ensures
        text::trimmed(s) == s,
{
    let (from, to) = law_trimming_takes_white_ends(s);
    assert(from == 0) by {
        if from > 0 {
            assert(text::is_white(s[0]));
        }
    }
    assert(to == s.len()) by {
        if to < s.len() {
            assert(text::is_white(s[s.len() - 1]));
        }
    }
    assert(s.subrange(0, s.len() as int) =~= s);
}

/// One text stands in another exactly where the other is something, that text and
/// something more.
pub proof fn law_occurring_is_standing_between(text: Seq<char>, needle: Seq<char>)
    ensures
        text::occurs(text, needle) <==> exists|a: Seq<char>, b: Seq<char>|
            text == #[trigger] (a + needle + b),
{
    if text::occurs(text, needle) {
        let at = choose|at: int| text::occurs_at(text, needle, at);
        let a = text.subrange(0, at);
        let b = text.subrange(at + needle.len(), text.len() as int);
        assert(text =~= a + needle + b) by {
            assert forall|i: int| 0 <= i < text.len() implies text[i] == (a + needle + b)[i] by {
                if at <= i < at + needle.len() {
                    assert(text.subrange(at, at + needle.len())[i - at] == needle[i - at]);
                }
            }
        }
    }
    if exists|a: Seq<char>, b: Seq<char>| text == #[trigger] (a + needle + b) {
        let (a, b) = choose|a: Seq<char>, b: Seq<char>| text == #[trigger] (a + needle + b);
        let at = a.len() as int;
        assert(text.subrange(at, at + needle.len()) =~= needle);
        assert(text::occurs_at(text, needle, at));
    }
}

/// One text comes before another where, behind what they have in common, it ends
/// first or has the lower character.
pub open spec fn lower_at(a: Seq<char>, b: Seq<char>, n: int) -> bool {
    &&& 0 <= n <= a.len() && n < b.len()
    &&& forall|i: int| 0 <= i < n ==> a[i] == b[i]
    &&& n == a.len() || a[n] < b[n]
}

/// Texts are ordered by the first place at which they differ.
pub proof fn law_texts_are_ordered_by_their_first_difference(a: Seq<char>, b: Seq<char>)
    ensures
        text::text_lt(a, b) <==> exists|n: int| lower_at(a, b, n),
    decreases a.len(),
{
    if b.len() == 0 {
    } else if a.len() == 0 || a[0] != b[0] {
        if text::text_lt(a, b) {
            assert(lower_at(a, b, 0));
        }
        if exists|n: int| lower_at(a, b, n) {
            let n = choose|n: int| lower_at(a, b, n);
            if n > 0 {
                assert(a[0] == b[0]);
            }
        }
    } else {
        let x = a.skip(1);
        let y = b.skip(1);
        law_texts_are_ordered_by_their_first_difference(x, y);
        if text::text_lt(x, y) {
            let n = choose|n: int| lower_at(x, y, n);
            assert forall|i: int| 0 <= i < n + 1 implies a[i] == b[i] by {
                if i > 0 {
                    assert(x[i - 1] == y[i - 1]);
                }
            }
            assert(lower_at(a, b, n + 1));
        }
        if exists|n: int| lower_at(a, b, n) {
            let n = choose|n: int| lower_at(a, b, n);
            assert(n > 0);
            assert forall|i: int| 0 <= i < n - 1 implies x[i] == y[i] by {
                assert(a[i + 1] == b[i + 1]);
            }
            assert(lower_at(x, y, n - 1));
        }
    }
}

/// The number that decimal digits spell.
pub open spec fn spelled(digits: Seq<char>) -> int
    decreases digits.len(),
{
    if digits.len() == 0 {
        0
    } else {
        10 * spelled(digits.drop_last()) + (digits.last() as int - 48)
    }
}

/// The decimal digits of a number spell it, are digits, and begin with no needless
/// zero.
pub proof fn law_digits_spell_the_number(n: nat)
    ensures
        spelled(text::digits(n)) == n,
        text::digits(n).len() > 0,
        forall|i: int|
            0 <= i < text::digits(n).len() ==> 48 <= (#[trigger] text::digits(n)[i]) as int <= 57,
        n > 0 ==> text::digits(n)[0] != '0',
    decreases n,
{
    reveal_with_fuel(spelled, 2);
    if n < 10 {
        assert(text::digits(n).drop_last() =~= Seq::empty());
    } else {
        law_digits_spell_the_number(n / 10);
        assert(text::digits(n).drop_last() =~= text::digits(n / 10));
    }
}

/// A negative number is written as its opposite behind a minus sign, any other one
/// as its digits.
pub proof fn law_numbers_are_written_with_their_sign(n: int)
    ensures
        n >= 0 ==> spelled(text::decimal(n)) == n && text::decimal(n)[0] != '-',
        n < 0 ==> text::decimal(n)[0] == '-' && spelled(text::decimal(n).skip(1)) == -n,
{
    if n < 0 {
        law_digits_spell_the_number((-n) as nat);
        assert(text::decimal(n).skip(1) =~= text::digits((-n) as nat));
    } else {
        law_digits_spell_the_number(n as nat);
    }
}

/// The view of an optional text is the text's, where there is one.
pub proof fn law_optional_text_is_the_text(t: String)
    ensures
        text::opt_text(Some(t)) == Some(t@),
        text::opt_text(None) is None,
{
}

} // verus!
