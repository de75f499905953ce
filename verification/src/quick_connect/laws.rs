//! What holds of the Quick Connect sessions whatever is done with them.
use vstd::prelude::*;
use crate::quick_connect::session;
use crate::quick_connect::session::SessionView;
use crate::quick_connect::storage;

verus! {

/// Every entry stands under its session's secret or code, and the session
/// stands under both.
pub open spec fn paired(m: Map<Seq<char>, SessionView>) -> bool {
    forall|k: Seq<char>| #[trigger]
        m.contains_key(k) ==> {
            &&& k == m[k].secret || k == m[k].code
            &&& m.contains_key(m[k].secret) && m[m[k].secret] == m[k]
            &&& m.contains_key(m[k].code) && m[m[k].code] == m[k]
        }
}

/// Dropping what stands under a key drops one session, and keeps the rest paired.
pub proof fn lemma_without_keeps_pairs(m: Map<Seq<char>, SessionView>, key: Seq<char>)
    requires
        paired(m),
    ensures
        paired(storage::without(m, key)),
        !storage::without(m, key).contains_key(key),
        forall|k: Seq<char>| #[trigger]
            storage::without(m, key).contains_key(k) <==> m.contains_key(k) && !(m.contains_key(key)
                && m[k] == m[key]),
        forall|k: Seq<char>| #[trigger]
            storage::without(m, key).contains_key(k) ==> storage::without(m, key)[k] == m[k],
{
    let after = storage::without(m, key);
    if m.contains_key(key) {
        let e = m[key];
        assert forall|k: Seq<char>| #[trigger]
            after.contains_key(k) <==> m.contains_key(k) && m[k] != e by {
            assert(m.contains_key(e.secret) && m.contains_key(e.code));
        }
        assert forall|k: Seq<char>| #[trigger] after.contains_key(k) implies {
            &&& k == after[k].secret || k == after[k].code
            &&& after.contains_key(after[k].secret) && after[after[k].secret] == after[k]
            &&& after.contains_key(after[k].code) && after[after[k].code] == after[k]
        } by {
            assert(m.contains_key(k));
            assert(m.contains_key(m[k].secret) && m.contains_key(m[k].code));
        }
    }
}

/// Storing a session keeps the sessions paired.
pub proof fn law_storing_keeps_pairs(m: Map<Seq<char>, SessionView>, s: SessionView)
    requires
        paired(m),
    ensures
        paired(storage::stored(m, s)),
{
    let m1 = storage::without(m, s.secret);
    let m2 = storage::without(m1, s.code);
    let after = storage::stored(m, s);
    lemma_without_keeps_pairs(m, s.secret);
    lemma_without_keeps_pairs(m1, s.code);
    assert(!m2.contains_key(s.secret)) by {
        assert(!m1.contains_key(s.secret));
    }
    assert forall|k: Seq<char>| #[trigger] after.contains_key(k) implies {
        &&& k == after[k].secret || k == after[k].code
        &&& after.contains_key(after[k].secret) && after[after[k].secret] == after[k]
        &&& after.contains_key(after[k].code) && after[after[k].code] == after[k]
    } by {
        if k != s.secret && k != s.code {
            assert(m2.contains_key(k));
            assert(m2.contains_key(m2[k].secret) && m2.contains_key(m2[k].code));
        }
    }
}

/// Looking a key up keeps the sessions paired.
pub proof fn law_looking_up_keeps_pairs(
    m: Map<Seq<char>, SessionView>,
    key: Seq<char>,
    now: nat,
)
    requires
        paired(m),
    ensures
        paired(storage::looked_up(m, key, now)),
{
    lemma_without_keeps_pairs(m, key);
}

/// Taking a session out by its secret keeps the sessions paired.
pub proof fn law_taking_out_keeps_pairs(m: Map<Seq<char>, SessionView>, secret: Seq<char>)
    requires
        paired(m),
        m.contains_key(secret) ==> m[secret].secret == secret,
    ensures
        paired(storage::taken(m, secret)),
{
    lemma_without_keeps_pairs(m, secret);
    assert(storage::taken(m, secret) == storage::without(m, secret));
}

/// Changing a session by its code keeps the sessions paired where its secret
/// and its code stay.
pub proof fn law_updating_keeps_pairs(
    m: Map<Seq<char>, SessionView>,
    code: Seq<char>,
    s: SessionView,
)
    requires
        paired(m),
        m.contains_key(code),
        m[code].code == code,
        s.secret == m[code].secret,
        s.code == code,
    ensures
        paired(storage::replaced(m, code, s)),
{
    let e = m[code];
    let after = storage::replaced(m, code, s);
    assert forall|k: Seq<char>| #[trigger] after.contains_key(k) implies {
        &&& k == after[k].secret || k == after[k].code
        &&& after.contains_key(after[k].secret) && after[after[k].secret] == after[k]
        &&& after.contains_key(after[k].code) && after[after[k].code] == after[k]
    } by {
        if k != s.secret && k != code {
            assert(m.contains_key(k));
            assert(m.contains_key(m[k].secret) && m.contains_key(m[k].code));
            if m[k].secret == s.secret || m[k].code == s.secret {
                assert(m[k] == m[e.secret]);
            }
            if m[k].secret == code || m[k].code == code {
                assert(m[k] == m[code]);
            }
        }
    }
}

/// Finding an expired session by its code keeps the sessions paired.
pub proof fn law_dropping_keeps_pairs(m: Map<Seq<char>, SessionView>, code: Seq<char>)
    requires
        paired(m),
        m.contains_key(code),
        m[code].code == code,
    ensures
        paired(storage::dropped(m, code)),
        !storage::dropped(m, code).contains_key(code),
{
    lemma_without_keeps_pairs(m, code);
    assert(storage::dropped(m, code) == storage::without(m, code));
}

/// Cleaning up keeps the sessions paired, and drops the expired sessions and no
/// others.
pub proof fn law_cleaning_drops_the_expired(m: Map<Seq<char>, SessionView>, now: nat)
    requires
        paired(m),
    ensures
        paired(storage::cleaned(m, now)),
        forall|k: Seq<char>| #[trigger]
            storage::cleaned(m, now).contains_key(k) <==> storage::live(m, k, now),
        forall|k: Seq<char>| #[trigger]
            storage::cleaned(m, now).contains_key(k) ==> storage::cleaned(m, now)[k] == m[k],
{
    let after = storage::cleaned(m, now);
    assert forall|k: Seq<char>| #[trigger] after.contains_key(k) <==> storage::live(m, k, now) by {
        if m.contains_key(k) {
            if storage::expired_key(m, k, now) {
                let e = choose|e: Seq<char>| #[trigger]
                    m.contains_key(e) && session::expired(m[e], now) && (m[e].secret == k
                        || m[e].code == k);
                assert(m[k] == m[e]);
            }
            if session::expired(m[k], now) {
                assert(storage::expired_key(m, k, now));
            }
        }
    }
    assert forall|k: Seq<char>| #[trigger] after.contains_key(k) implies {
        &&& k == after[k].secret || k == after[k].code
        &&& after.contains_key(after[k].secret) && after[after[k].secret] == after[k]
        &&& after.contains_key(after[k].code) && after[after[k].code] == after[k]
    } by {
        assert(storage::live(m, k, now));
        assert(m.contains_key(k));
        assert(after.contains_key(m[k].secret) <==> storage::live(m, m[k].secret, now));
        assert(after.contains_key(m[k].code) <==> storage::live(m, m[k].code, now));
    }
}

/// What a clean-up counts is what it drops: the expired entries are those that
/// are gone afterwards, so a count of nothing means that nothing changed, and a
/// change is counted.
pub proof fn law_cleaning_counts_what_it_drops(m: Map<Seq<char>, SessionView>, now: nat)
    requires
        paired(m),
        storage::expired_entries(m, now).finite(),
    ensures
        storage::expired_entries(m, now) == m.dom().difference(storage::cleaned(m, now).dom()),
        storage::expired_entries(m, now).len() == 0 <==> storage::cleaned(m, now) == m,
{
    let gone = storage::expired_entries(m, now);
    let after = storage::cleaned(m, now);
    law_cleaning_drops_the_expired(m, now);
    assert forall|k: Seq<char>| gone.contains(k) <==> m.dom().difference(after.dom()).contains(k) by {
        assert(after.contains_key(k) <==> storage::live(m, k, now));
    }
    assert(gone =~= m.dom().difference(after.dom()));
    if gone.len() == 0 {
        assert(gone =~= Set::empty());
        assert forall|k: Seq<char>| m.contains_key(k) implies #[trigger] after.contains_key(k) by {
            assert(!gone.contains(k));
        }
        assert(after =~= m);
    } else if after == m {
        assert(gone =~= Set::empty());
    }
}

/// A stored session is found by its secret and by its code while it lives.
pub proof fn law_stored_session_is_found(m: Map<Seq<char>, SessionView>, s: SessionView, now: nat)
    requires
        !session::expired(s, now),
    ensures
        storage::live(storage::stored(m, s), s.secret, now),
        storage::live(storage::stored(m, s), s.code, now),
        storage::stored(m, s)[s.secret] == s,
        storage::stored(m, s)[s.code] == s,
{
}

/// A session that collides with a stored one, by its secret or its code, is
/// gone from both its keys, unless the stored one took the key over. Every
/// other session stays as it was.
pub proof fn law_colliding_session_is_replaced(
    m: Map<Seq<char>, SessionView>,
    s: SessionView,
    key: Seq<char>,
)
    requires
        paired(m),
        m.contains_key(key),
        key != s.secret,
        key != s.code,
    ensures
        storage::stored(m, s).contains_key(key) <==> !((m.contains_key(s.secret) && m[key]
            == m[s.secret]) || (m.contains_key(s.code) && m[key] == m[s.code])),
        storage::stored(m, s).contains_key(key) ==> storage::stored(m, s)[key] == m[key],
{
    let m1 = storage::without(m, s.secret);
    lemma_without_keeps_pairs(m, s.secret);
    lemma_without_keeps_pairs(m1, s.code);
    assert(m1.contains_key(s.code) ==> m.contains_key(s.code) && m1[s.code] == m[s.code]);
    if m.contains_key(s.code) && !m1.contains_key(s.code) {
        assert(m[s.code] == m[s.secret]);
    }
    assert(storage::without(m1, s.code).contains_key(key) <==> m1.contains_key(key) && !(
    m1.contains_key(s.code) && m1[key] == m1[s.code]));
    assert(m1.contains_key(key) <==> m.contains_key(key) && !(m.contains_key(s.secret) && m[key]
        == m[s.secret]));
}

/// A session that was taken out is found no more, by its secret or its code.
pub proof fn law_taken_session_is_gone(m: Map<Seq<char>, SessionView>, secret: Seq<char>)
    requires
        m.contains_key(secret),
    ensures
        !storage::taken(m, secret).contains_key(secret),
        !storage::taken(m, secret).contains_key(m[secret].code),
{
}

/// A key that was looked up in vain holds nothing afterwards.
pub proof fn law_expired_session_is_gone(m: Map<Seq<char>, SessionView>, key: Seq<char>, now: nat)
    requires
        paired(m),
        !storage::live(m, key, now),
    ensures
        !storage::looked_up(m, key, now).contains_key(key),
{
    lemma_without_keeps_pairs(m, key);
}

/// Once a user has confirmed a code, the device that holds the secret finds the
/// session confirmed for that user.
pub proof fn law_confirmed_session_is_seen_by_secret(
    m: Map<Seq<char>, SessionView>,
    code: Seq<char>,
    user_id: Seq<char>,
    now: nat,
)
    requires
        paired(m),
        storage::live(m, code, now),
    ensures
        ({
            let s = session::confirmed(m[code], user_id);
            let after = storage::replaced(m, code, s);
            storage::live(after, m[code].secret, now) && after[m[code].secret] == s
        }),
{
}

/// While fewer keys are in use than there are codes, some code is free: the next
/// device gets one.
pub proof fn law_few_sessions_leave_a_code_free(m: Map<Seq<char>, SessionView>)
    requires
        m.dom().finite(),
        m.dom().len() < storage::CODE_COUNT,
    ensures
        storage::code_is_free(m),
{
    if !storage::code_is_free(m) {
        let numbers = vstd::set_lib::set_int_range(0, storage::CODE_COUNT as int);
        let code = |n: int| storage::numbered_code(n as nat);
        let codes = numbers.map(code);
        vstd::set_lib::lemma_int_range(0, storage::CODE_COUNT as int);
        assert forall|a: int, b: int|
            numbers.contains(a) && numbers.contains(b) && #[trigger] code(a) == #[trigger] code(
                b,
            ) implies a == b by {
            storage::lemma_numbers_are_spelled(a as nat);
            storage::lemma_numbers_are_spelled(b as nat);
        }
        vstd::set_lib::lemma_map_size(numbers, codes, code);
        assert forall|c: Seq<char>| codes.contains(c) implies m.dom().contains(c) by {
            let n = choose|n: int| numbers.contains(n) && c == code(n);
            storage::lemma_numbers_are_spelled(n as nat);
            assert(m.contains_key(c));
        }
        vstd::set_lib::lemma_len_subset(codes, m.dom());
    }
}

} // verus!
