//! Sequences in order: what it is to sort by a key, with equals left as they
//! stood, and the members of a set in ascending order.
use vstd::prelude::*;
use vstd::seq_lib::{to_multiset_build, to_multiset_insert};

verus! {

/// The keys of `s` never fall from one item to a later one.
pub open spec fn ordered<T>(s: Seq<T>, key: spec_fn(T) -> int) -> bool {
    forall|i: int, j: int| 0 <= i <= j < s.len() ==> key(#[trigger] s[i]) <= key(#[trigger] s[j])
}

/// `s` with `x` put behind the last item whose key is not above that of `x`.
pub open spec fn insert_by<T>(s: Seq<T>, key: spec_fn(T) -> int, x: T) -> Seq<T>
    decreases s.len(),
{
    if s.len() == 0 || key(s.last()) <= key(x) {
        s.push(x)
    } else {
        insert_by(s.drop_last(), key, x).push(s.last())
    }
}

/// The items of `s` in the order of their keys; items with one key stay in the
/// order in which they stood.
pub open spec fn sorted_by<T>(s: Seq<T>, key: spec_fn(T) -> int) -> Seq<T>
    decreases s.len(),
{
    if s.len() == 0 {
        s
    } else {
        insert_by(sorted_by(s.drop_last(), key), key, s.last())
    }
}

/// Inserting at the place `at` that lies behind every key not above that of
/// `x` is `insert_by`.
pub proof fn lemma_insert_at<T>(s: Seq<T>, key: spec_fn(T) -> int, x: T, at: int)
    requires
        0 <= at <= s.len(),
        at > 0 ==> key(s[at - 1]) <= key(x),
        forall|i: int| at <= i < s.len() ==> key(x) < key(#[trigger] s[i]),
    ensures
        insert_by(s, key, x) == s.insert(at, x),
    decreases s.len(),
{
    if at == s.len() {
        assert(s.insert(at, x) =~= s.push(x));
    } else {
        lemma_insert_at(s.drop_last(), key, x, at);
        assert(s.insert(at, x) =~= s.drop_last().insert(at, x).push(s.last()));
    }
}

pub proof fn lemma_insert_place<T>(s: Seq<T>, key: spec_fn(T) -> int, x: T) -> (at: int)
    ensures
        0 <= at <= s.len(),
        at > 0 ==> key(s[at - 1]) <= key(x),
        forall|i: int| at <= i < s.len() ==> key(x) < key(#[trigger] s[i]),
    decreases s.len(),
{
    if s.len() == 0 || key(s.last()) <= key(x) {
        s.len() as int
    } else {
        let rest = s.drop_last();
        let at = lemma_insert_place(rest, key, x);
        assert forall|i: int| at <= i < s.len() implies key(x) < key(#[trigger] s[i]) by {
            if i < rest.len() {
                assert(rest[i] == s[i]);
            }
        }
        at
    }
}

proof fn lemma_insert_by<T>(s: Seq<T>, key: spec_fn(T) -> int, x: T)
    ensures
        insert_by(s, key, x).to_multiset() == s.to_multiset().insert(x),
        insert_by(s, key, x).len() == s.len() + 1,
        ordered(s, key) ==> ordered(insert_by(s, key, x), key),
{
    let at = lemma_insert_place(s, key, x);
    lemma_insert_at(s, key, x, at);
    to_multiset_insert(s, at, x);
}

/// Sorting orders the items and keeps each of them as often as it occurs.
pub proof fn law_sorting_orders_and_keeps<T>(s: Seq<T>, key: spec_fn(T) -> int)
    ensures
        ordered(sorted_by(s, key), key),
        sorted_by(s, key).to_multiset() == s.to_multiset(),
        sorted_by(s, key).len() == s.len(),
    decreases s.len(),
{
    if s.len() > 0 {
        let rest = s.drop_last();
        law_sorting_orders_and_keeps(rest, key);
        lemma_insert_by(sorted_by(rest, key), key, s.last());
        to_multiset_build(rest, s.last());
        assert(rest.push(s.last()) =~= s);
    }
}

proof fn lemma_insert_filter<T>(s: Seq<T>, key: spec_fn(T) -> int, x: T, k: int)
    ensures
        insert_by(s, key, x).filter(|y: T| key(y) == k) == (if key(x) == k {
            s.filter(|y: T| key(y) == k).push(x)
        } else {
            s.filter(|y: T| key(y) == k)
        }),
    decreases s.len(),
{
    let p = |y: T| key(y) == k;
    if s.len() == 0 || key(s.last()) <= key(x) {
        s.lemma_filter_push(x, p);
    } else {
        let rest = s.drop_last();
        lemma_insert_filter(rest, key, x, k);
        insert_by(rest, key, x).lemma_filter_push(s.last(), p);
        rest.lemma_filter_push(s.last(), p);
        assert(rest.push(s.last()) =~= s);
        if key(x) == k {
            assert(!p(s.last()));
        }
    }
}

/// Sorting is stable: the items that share a key stand in the order in which
/// they stood before.
pub proof fn law_sorting_is_stable<T>(s: Seq<T>, key: spec_fn(T) -> int, k: int)
    ensures
        sorted_by(s, key).filter(|y: T| key(y) == k) == s.filter(|y: T| key(y) == k),
    decreases s.len(),
{
    let p = |y: T| key(y) == k;
    if s.len() > 0 {
        let rest = s.drop_last();
        law_sorting_is_stable(rest, key, k);
        lemma_insert_filter(sorted_by(rest, key), key, s.last(), k);
        rest.lemma_filter_push(s.last(), p);
        assert(rest.push(s.last()) =~= s);
    }
}

/// The members of `members` below `bound`, in ascending order.
pub open spec fn ascending(members: Set<nat>, bound: nat) -> Seq<nat>
    decreases bound,
{
    if bound == 0 {
        Seq::empty()
    } else {
        let before = ascending(members, (bound - 1) as nat);
        if members.contains((bound - 1) as nat) {
            before.push((bound - 1) as nat)
        } else {
            before
        }
    }
}

/// Each number is above the one before it.
pub open spec fn strictly_ascending(s: Seq<nat>) -> bool {
    forall|i: int, j: int| 0 <= i < j < s.len() ==> #[trigger] s[i] < #[trigger] s[j]
}

/// `ascending` lists exactly the members below the bound, each once, from the
/// least to the greatest.
pub proof fn lemma_ascending(members: Set<nat>, bound: nat)
    ensures
        strictly_ascending(ascending(members, bound)),
        forall|i: int|
            0 <= i < ascending(members, bound).len() ==> {
                &&& #[trigger] ascending(members, bound)[i] < bound
                &&& members.contains(ascending(members, bound)[i])
            },
        forall|m: nat|
            m < bound && #[trigger] members.contains(m) ==> ascending(members, bound).contains(m),
    decreases bound,
{
    if bound > 0 {
        let last = (bound - 1) as nat;
        let before = ascending(members, last);
        let all = ascending(members, bound);
        lemma_ascending(members, last);
        assert forall|m: nat| m < bound && #[trigger] members.contains(m) implies all.contains(m) by {
            if m == last {
                assert(all[all.len() - 1] == m);
            } else {
                assert(before.contains(m));
                let i = choose|i: int| 0 <= i < before.len() && before[i] == m;
                assert(all[i] == m);
            }
        }
    }
}

/// A strictly ascending list of exactly the members below the bound is
/// `ascending`.
pub proof fn lemma_ascending_unique(members: Set<nat>, bound: nat, s: Seq<nat>)
    requires
        strictly_ascending(s),
        forall|i: int| 0 <= i < s.len() ==> #[trigger] s[i] < bound && members.contains(s[i]),
        forall|m: nat| m < bound && #[trigger] members.contains(m) ==> s.contains(m),
    ensures
        s == ascending(members, bound),
    decreases bound,
{
    if bound == 0 {
        if s.len() > 0 {
            assert(s[0] < bound);
        }
        assert(s =~= Seq::<nat>::empty());
    } else {
        let last = (bound - 1) as nat;
        if members.contains(last) {
            assert(s.contains(last));
            let at = choose|i: int| 0 <= i < s.len() && s[i] == last;
            if at < s.len() - 1 {
                assert(s[at] < s[s.len() - 1]);
                assert(false);
            }
            let before = s.drop_last();
            assert forall|m: nat| m < last && #[trigger] members.contains(m) implies before.contains(
                m,
            ) by {
                let i = choose|i: int| 0 <= i < s.len() && s[i] == m;
                assert(before[i] == m);
            }
            assert forall|i: int| 0 <= i < before.len() implies #[trigger] before[i] < last
                && members.contains(before[i]) by {
                assert(s[i] < s[s.len() - 1]);
            }
            lemma_ascending_unique(members, last, before);
            assert(s =~= before.push(last));
        } else {
            lemma_ascending_unique(members, last, s);
        }
    }
}

/// Items that stood in the order of a second key stand in that order wherever their first
/// keys are the same.
pub proof fn law_sorting_leaves_ties_in_place<T>(
    s: Seq<T>,
    key: spec_fn(T) -> int,
    tie: spec_fn(T) -> int,
)
    requires
        forall|i: int, j: int| 0 <= i < j < s.len() ==> tie(#[trigger] s[i]) < tie(#[trigger] s[j]),
    ensures
        forall|i: int, j: int|
            0 <= i < j < sorted_by(s, key).len() ==> {
                let a = #[trigger] sorted_by(s, key)[i];
                let b = #[trigger] sorted_by(s, key)[j];
                key(a) < key(b) || (key(a) == key(b) && tie(a) < tie(b))
            },
    decreases s.len(),
{
    if s.len() > 0 {
        let rest = s.drop_last();
        let x = s.last();
        let before = sorted_by(rest, key);
        let all = sorted_by(s, key);
        assert forall|i: int, j: int| 0 <= i < j < rest.len() implies tie(#[trigger] rest[i]) < tie(
            #[trigger] rest[j],
        ) by {
            assert(s[i] == rest[i] && s[j] == rest[j]);
        }
        law_sorting_leaves_ties_in_place(rest, key, tie);
        law_sorting_orders_and_keeps(rest, key);
        let at = lemma_insert_place(before, key, x);
        lemma_insert_at(before, key, x, at);
        assert forall|i: int| 0 <= i < before.len() implies tie(#[trigger] before[i]) < tie(x) by {
            rest.to_multiset_ensures();
            before.to_multiset_ensures();
            assert(before.contains(before[i]));
            assert(before.to_multiset().count(before[i]) > 0);
            assert(rest.contains(before[i]));
            let k = choose|k: int| 0 <= k < rest.len() && rest[k] == before[i];
            assert(s[k] == rest[k]);
            assert(tie(s[k]) < tie(s[s.len() - 1]));
        }
        assert forall|i: int, j: int| 0 <= i < j < all.len() implies {
            let a = #[trigger] all[i];
            let b = #[trigger] all[j];
            key(a) < key(b) || (key(a) == key(b) && tie(a) < tie(b))
        } by {
            if i == at {
                assert(all[j] == before[j - 1]);
            } else if j == at {
                assert(all[i] == before[i]);
                assert(key(before[i]) <= key(before[at - 1]));
            } else {
                let p = if i < at {
                    i
                } else {
                    i - 1
                };
                let q = if j < at {
                    j
                } else {
                    j - 1
                };
                assert(all[i] == before[p] && all[j] == before[q]);
            }
        }
    }
}

} // verus!
