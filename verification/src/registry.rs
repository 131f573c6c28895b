use vstd::prelude::*;

use crate::identity::Identity;

verus! {

/// No identity occurs twice.
pub open spec fn no_duplicates(s: Seq<Identity>) -> bool {
    forall|i: int, j: int| 0 <= i < j < s.len() ==> s[i] != s[j]
}

/// The sequence with the first occurrence of `t` removed; unchanged when `t`
/// does not occur.
pub open spec fn seq_remove_first(s: Seq<Identity>, t: Identity) -> Seq<Identity>
    decreases s.len(),
{
    if s.len() == 0 {
        s
    } else if s[0] == t {
        s.drop_first()
    } else {
        seq![s[0]] + seq_remove_first(s.drop_first(), t)
    }
}

/// What removing the first occurrence does: it drops exactly one entry when
/// `t` occurs and nothing otherwise, keeps the order of the rest, and
/// introduces no identity that was not already there.
pub proof fn lemma_seq_remove_first_props(s: Seq<Identity>, t: Identity)
    ensures
        !s.contains(t) ==> seq_remove_first(s, t) == s,
        s.contains(t) ==> seq_remove_first(s, t).len() == s.len() - 1,
        forall|x: Identity| seq_remove_first(s, t).contains(x) ==> s.contains(x),
        no_duplicates(s) ==> no_duplicates(seq_remove_first(s, t)),
        no_duplicates(s) ==> !seq_remove_first(s, t).contains(t),
    decreases s.len(),
{
    if s.len() == 0 {
        assert(seq_remove_first(s, t) =~= s);
    } else if s[0] == t {
        assert(s.contains(t)) by {
            assert(s[0] == t);
        }
        assert(seq_remove_first(s, t) == s.drop_first());
        assert forall|x: Identity| s.drop_first().contains(x) implies s.contains(x) by {
            let k = choose|k: int| 0 <= k < s.drop_first().len() && s.drop_first()[k] == x;
            assert(s[k + 1] == x);
        }
        if no_duplicates(s) {
            assert forall|i: int, j: int|
                0 <= i < j < s.drop_first().len() implies s.drop_first()[i]
                != s.drop_first()[j] by {
                assert(s[i + 1] != s[j + 1]);
            }
            assert forall|k: int|
                0 <= k < s.drop_first().len() implies s.drop_first()[k] != t by {
                assert(s[k + 1] != s[0]);
            }
        }
    } else {
        let rest = s.drop_first();
        lemma_seq_remove_first_props(rest, t);
        let r = seq_remove_first(s, t);
        assert(r == seq![s[0]] + seq_remove_first(rest, t));
        if s.contains(t) {
            let k = choose|k: int| 0 <= k < s.len() && s[k] == t;
            assert(k != 0);
            assert(rest[k - 1] == t);
            assert(rest.contains(t));
        }
        if rest.contains(t) {
            let k = choose|k: int| 0 <= k < rest.len() && rest[k] == t;
            assert(s[k + 1] == t);
            assert(s.contains(t));
        }
        assert forall|x: Identity| r.contains(x) implies s.contains(x) by {
            let k = choose|k: int| 0 <= k < r.len() && r[k] == x;
            if k == 0 {
                assert(s[0] == x);
            } else {
                assert(seq_remove_first(rest, t)[k - 1] == x);
                assert(seq_remove_first(rest, t).contains(x));
                assert(rest.contains(x));
                let m = choose|m: int| 0 <= m < rest.len() && rest[m] == x;
                assert(s[m + 1] == x);
            }
        }
        if no_duplicates(s) {
            assert forall|i: int, j: int|
                0 <= i < j < rest.len() implies rest[i] != rest[j] by {
                assert(s[i + 1] != s[j + 1]);
            }
            assert(no_duplicates(seq_remove_first(rest, t)));
            assert forall|i: int, j: int| 0 <= i < j < r.len() implies r[i] != r[j] by {
                if i == 0 {
                    assert(r[j] == seq_remove_first(rest, t)[j - 1]);
                    assert(seq_remove_first(rest, t).contains(r[j]));
                    assert(rest.contains(r[j]));
                    let m = choose|m: int| 0 <= m < rest.len() && rest[m] == r[j];
                    assert(s[m + 1] == r[j]);
                    assert(s[0] != s[m + 1]);
                } else {
                    assert(r[i] == seq_remove_first(rest, t)[i - 1]);
                    assert(r[j] == seq_remove_first(rest, t)[j - 1]);
                }
            }
            if seq_remove_first(rest, t).contains(t) {
                assert(false);
            }
            if r.contains(t) {
                let k = choose|k: int| 0 <= k < r.len() && r[k] == t;
                if k == 0 {
                    assert(s[0] == t);
                    assert(false);
                } else {
                    assert(seq_remove_first(rest, t)[k - 1] == t);
                    assert(seq_remove_first(rest, t).contains(t));
                    assert(false);
                }
            }
        }
    }
}

/// Removing the first occurrence is the same as removing at its index.
pub proof fn lemma_remove_first_occurrence(s: Seq<Identity>, t: Identity, i: int)
    requires
        0 <= i < s.len(),
        s[i] == t,
        forall|j: int| 0 <= j < i ==> s[j] != t,
    ensures
        s.remove(i) == seq_remove_first(s, t),
    decreases i,
{
    if i == 0 {
        assert(s.remove(0) =~= s.drop_first());
    } else {
        let rest = s.drop_first();
        assert(rest[i - 1] == t);
        assert forall|j: int| 0 <= j < i - 1 implies rest[j] != t by {
            assert(s[j + 1] != t);
        }
        lemma_remove_first_occurrence(rest, t, i - 1);
        assert(s[0] != t);
        assert(seq_remove_first(s, t) == seq![s[0]] + rest.remove(i - 1));
        assert(s.remove(i) =~= seq![s[0]] + rest.remove(i - 1));
    }
}

/// Index of the first occurrence of `t` in `v`, if any.
pub fn index_of_identity(v: &Vec<Identity>, t: Identity) -> (r: Option<usize>)
    ensures
        match r {
            Some(i) => {
                &&& i < v@.len()
                &&& v@[i as int] == t
                &&& forall|j: int| 0 <= j < i ==> v@[j] != t
            },
            None => !v@.contains(t),
        },
{
    let mut i: usize = 0;
    while i < v.len()
        invariant
            i <= v@.len(),
            forall|j: int| 0 <= j < i ==> v@[j] != t,
        decreases v@.len() - i,
    {
        if v[i] == t {
            return Some(i);
        }
        i = i + 1;
    }
    None
}

/// Whether `t` occurs in `v`.
pub fn contains_identity(v: &Vec<Identity>, t: Identity) -> (r: bool)
    ensures
        r == v@.contains(t),
{
    match index_of_identity(v, t) {
        Some(i) => {
            proof {
                assert(v@[i as int] == t);
            }
            true
        },
        None => false,
    }
}

} // verus!
