//! First-match association lists, keyed by character sequences.
//!
//! Both the incremental cache and the relationship mapper keep small
//! key/value lists whose update discipline is "overwrite the first
//! binding in place, else append", so one key is never bound twice and
//! the list stands for a map.

use vstd::prelude::*;

verus! {

/// The first binding of `k` in the list, if any.
pub open spec fn spec_stored<V>(s: Seq<(Seq<char>, V)>, k: Seq<char>) -> Option<V>
    decreases s.len(),
{
    if s.len() == 0 {
        None
    } else if s[0].0 == k {
        Some(s[0].1)
    } else {
        spec_stored(s.drop_first(), k)
    }
}

/// A binding at `i` whose key has no earlier binding is the one found.
pub proof fn lemma_stored_at<V>(s: Seq<(Seq<char>, V)>, k: Seq<char>, i: int)
    requires
        0 <= i < s.len(),
        s[i].0 == k,
        forall|j: int| 0 <= j < i ==> (#[trigger] s[j]).0 != k,
    ensures
        spec_stored(s, k) == Some(s[i].1),
    decreases i,
{
    if i > 0 {
        let t = s.drop_first();
        assert forall|j: int| 0 <= j < i - 1 implies (#[trigger] t[j]).0 != k by {
            assert(t[j] == s[j + 1]);
        }
        assert(t[i - 1] == s[i]);
        lemma_stored_at(t, k, i - 1);
    }
}

/// A key bound nowhere is not found.
pub proof fn lemma_stored_absent<V>(s: Seq<(Seq<char>, V)>, k: Seq<char>)
    requires
        forall|j: int| 0 <= j < s.len() ==> (#[trigger] s[j]).0 != k,
    ensures
        spec_stored(s, k) is None,
    decreases s.len(),
{
    if s.len() > 0 {
        let t = s.drop_first();
        assert forall|j: int| 0 <= j < t.len() implies (#[trigger] t[j]).0 != k by {
            assert(t[j] == s[j + 1]);
        }
        lemma_stored_absent(t, k);
    }
}

/// Overwriting a binding in place leaves every other key's lookup alone.
pub proof fn lemma_stored_update_other<V>(
    s: Seq<(Seq<char>, V)>,
    i: int,
    p: (Seq<char>, V),
    k2: Seq<char>,
)
    requires
        0 <= i < s.len(),
        p.0 == s[i].0,
        k2 != p.0,
    ensures
        spec_stored(s.update(i, p), k2) == spec_stored(s, k2),
    decreases i,
{
    let s2 = s.update(i, p);
    if i == 0 {
        assert(s2.drop_first() =~= s.drop_first());
    } else {
        assert(s2[0] == s[0]);
        if s[0].0 != k2 {
            assert(s2.drop_first() =~= s.drop_first().update(i - 1, p));
            lemma_stored_update_other(s.drop_first(), i - 1, p, k2);
        }
    }
}

/// Appending a binding leaves every other key's lookup alone.
pub proof fn lemma_stored_push_other<V>(s: Seq<(Seq<char>, V)>, p: (Seq<char>, V), k2: Seq<char>)
    requires
        k2 != p.0,
    ensures
        spec_stored(s.push(p), k2) == spec_stored(s, k2),
    decreases s.len(),
{
    if s.len() == 0 {
        assert(s.push(p)[0] == p);
        let t = s.push(p).drop_first();
        assert(t =~= Seq::<(Seq<char>, V)>::empty());
        assert(spec_stored(t, k2) is None);
        assert(spec_stored(s, k2) is None);
    } else {
        assert(s.push(p)[0] == s[0]);
        if s[0].0 != k2 {
            assert(s.push(p).drop_first() =~= s.drop_first().push(p));
            lemma_stored_push_other(s.drop_first(), p, k2);
        }
    }
}

} // verus!
