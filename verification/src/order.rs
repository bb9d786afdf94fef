//! Sequences: stable sorting of items that carry a rank, and turning each item
//! into another.

use vstd::multiset::*;
use vstd::prelude::*;
use vstd::seq_lib::*;

verus! {

/// Items that are ranked by a strict weak order.
pub trait Ranked: Sized {
    spec fn precedes(&self, other: &Self) -> bool;

    proof fn asymmetric(a: &Self, b: &Self)
        ensures
            a.precedes(b) ==> !b.precedes(a),
    ;

    proof fn negatively_transitive(a: &Self, b: &Self, c: &Self)
        ensures
            !a.precedes(b) && !b.precedes(c) ==> !a.precedes(c),
    ;

    fn ranks_before(&self, other: &Self) -> (less: bool)
        ensures
            less == self.precedes(other),
    ;
}

/// Items that can be turned into a `T`.
pub trait Turned<T>: Sized {
    spec fn turned(self) -> T;

    fn turn(self) -> (one: T)
        ensures
            one == self.turned(),
    ;
}

/// Turns each item, in their order.
pub fn mapped<T, S: Turned<T>>(items: Vec<S>) -> (all: Vec<T>)
    ensures
        all@ == items@.map_values(|item: S| item.turned()),
{
    let mut rest = items;
    let mut all: Vec<T> = Vec::new();
    let ghost expected = items@.map_values(|item: S| item.turned());
    assert(items@.skip(0) =~= items@);
    while rest.len() > 0
        invariant
            all@.len() <= items@.len(),
            expected == items@.map_values(|item: S| item.turned()),
            rest@ == items@.skip(all@.len() as int),
            all@ == expected.take(all@.len() as int),
        decreases rest.len(),
    {
        let ghost done = all@.len() as int;
        all.push(rest.remove(0).turn());
        proof {
            assert(rest@ =~= items@.skip(done + 1));
            assert(all@ =~= expected.take(done + 1));
        }
    }
    assert(all@ =~= expected);
    all
}

/// `s` with `x` placed behind every item at the end of `s` that it does not
/// precede.
pub open spec fn placed<T: Ranked>(s: Seq<T>, x: T) -> Seq<T>
    decreases s.len(),
{
    if s.len() > 0 && x.precedes(&s.last()) {
        placed(s.drop_last(), x).push(s.last())
    } else {
        s.push(x)
    }
}

/// The items of `s` by rank, items of the same rank in the order of `s`.
pub open spec fn sorted<T: Ranked>(s: Seq<T>) -> Seq<T>
    decreases s.len(),
{
    if s.len() == 0 {
        s
    } else {
        placed(sorted(s.drop_last()), s.last())
    }
}

/// No item stands behind one that it precedes.
pub open spec fn in_order<T: Ranked>(s: Seq<T>) -> bool {
    forall|i: int, j: int| 0 <= i < j < s.len() ==> !(#[trigger] s[j]).precedes(#[trigger] &s[i])
}

/// Neither item precedes the other.
pub open spec fn same_rank<T: Ranked>(a: T, b: T) -> bool {
    !a.precedes(&b) && !b.precedes(&a)
}

/// The items of `s` that have the rank of `like`, in their order.
pub open spec fn of_rank<T: Ranked>(s: Seq<T>, like: T) -> Seq<T> {
    s.filter(|x: T| same_rank(x, like))
}

pub proof fn lemma_placed_at<T: Ranked>(s: Seq<T>, x: T, at: int)
    requires
        0 <= at <= s.len(),
        forall|j: int| at <= j < s.len() ==> x.precedes(#[trigger] &s[j]),
        at > 0 ==> !x.precedes(&s[at - 1]),
    ensures
        placed(s, x) == s.insert(at, x),
    decreases s.len() - at,
{
    if at < s.len() {
        lemma_placed_at(s.drop_last(), x, at);
        assert(s.drop_last().insert(at, x).push(s.last()) =~= s.insert(at, x));
    } else {
        assert(s.insert(at, x) =~= s.push(x));
    }
}

proof fn lemma_placed_in_order<T: Ranked>(s: Seq<T>, x: T)
    requires
        in_order(s),
    ensures
        in_order(placed(s, x)),
        placed(s, x).len() == s.len() + 1,
        forall|i: int|
            0 <= i < placed(s, x).len() ==> placed(s, x)[i] == x || s.contains(
                #[trigger] placed(s, x)[i],
            ),
    decreases s.len(),
{
    if s.len() > 0 && x.precedes(&s.last()) {
        let head = s.drop_last();
        lemma_placed_in_order(head, x);
        let p = placed(head, x);
        assert forall|i: int| 0 <= i < placed(s, x).len() implies placed(s, x)[i] == x
            || s.contains(#[trigger] placed(s, x)[i]) by {
            if i < p.len() {
                assert(placed(s, x)[i] == p[i]);
                if p[i] != x {
                    let k = choose|k: int| 0 <= k < head.len() && head[k] == p[i];
                    assert(s[k] == p[i]);
                }
            } else {
                assert(placed(s, x)[i] == s[s.len() - 1]);
            }
        }
        assert forall|i: int, j: int| 0 <= i < j < placed(s, x).len() implies !(
        #[trigger] placed(s, x)[j]).precedes(#[trigger] &placed(s, x)[i]) by {
            if j == p.len() {
                T::asymmetric(&x, &s.last());
                if p[i] != x {
                    let k = choose|k: int| 0 <= k < head.len() && head[k] == p[i];
                    assert(s[k] == p[i]);
                }
            } else {
                assert(placed(s, x)[j] == p[j]);
                assert(placed(s, x)[i] == p[i]);
            }
        }
    } else {
        assert forall|i: int, j: int| 0 <= i < j < placed(s, x).len() implies !(
        #[trigger] placed(s, x)[j]).precedes(#[trigger] &placed(s, x)[i]) by {
            if j == s.len() && i < s.len() - 1 {
                T::negatively_transitive(&x, &s.last(), &s[i]);
            }
        }
        assert forall|i: int| 0 <= i < placed(s, x).len() implies placed(s, x)[i] == x
            || s.contains(#[trigger] placed(s, x)[i]) by {
            if i < s.len() {
                assert(placed(s, x)[i] == s[i]);
            }
        }
    }
}

proof fn lemma_placed_multiset<T: Ranked>(s: Seq<T>, x: T)
    ensures
        placed(s, x).to_multiset() == s.to_multiset().insert(x),
    decreases s.len(),
{
    broadcast use group_to_multiset_ensures;

    if s.len() > 0 && x.precedes(&s.last()) {
        let head = s.drop_last();
        lemma_placed_multiset(head, x);
        assert(head.push(s.last()) =~= s);
        assert(head.to_multiset().insert(x).insert(s.last()) =~= head.to_multiset().insert(
            s.last(),
        ).insert(x));
    }
}

proof fn lemma_placed_of_rank<T: Ranked>(s: Seq<T>, x: T, like: T)
    ensures
        of_rank(placed(s, x), like) == of_rank(s.push(x), like),
    decreases s.len(),
{
    reveal_with_fuel(Seq::filter, 3);
    if s.len() > 0 && x.precedes(&s.last()) {
        let head = s.drop_last();
        lemma_placed_of_rank(head, x, like);
        assert(placed(s, x).drop_last() =~= placed(head, x));
        assert(head.push(x).drop_last() =~= head);
        assert(s.push(x).drop_last() =~= s);
        // Both cannot be of the rank of `like`: one precedes the other.
        if same_rank(x, like) && same_rank(s.last(), like) {
            T::negatively_transitive(&x, &like, &s.last());
        }
    }
}

/// Sorting puts the items in order.
pub proof fn law_sorted_in_order<T: Ranked>(s: Seq<T>)
    ensures
        in_order(sorted(s)),
    decreases s.len(),
{
    if s.len() > 0 {
        law_sorted_in_order(s.drop_last());
        lemma_placed_in_order(sorted(s.drop_last()), s.last());
    }
}

/// Sorting neither loses nor adds an item.
pub proof fn law_sorted_keeps_items<T: Ranked>(s: Seq<T>)
    ensures
        sorted(s).to_multiset() == s.to_multiset(),
        sorted(s).len() == s.len(),
    decreases s.len(),
{
    broadcast use group_to_multiset_ensures;

    if s.len() > 0 {
        law_sorted_keeps_items(s.drop_last());
        lemma_placed_multiset(sorted(s.drop_last()), s.last());
        law_sorted_in_order(s.drop_last());
        lemma_placed_in_order(sorted(s.drop_last()), s.last());
        assert(s.drop_last().push(s.last()) =~= s);
    }
}

/// Items of the same rank keep the order they had.
pub proof fn law_sorted_is_stable<T: Ranked>(s: Seq<T>, like: T)
    ensures
        of_rank(sorted(s), like) == of_rank(s, like),
    decreases s.len(),
{
    if s.len() > 0 {
        let head = s.drop_last();
        law_sorted_is_stable(head, like);
        lemma_placed_of_rank(sorted(head), s.last(), like);
        reveal(Seq::filter);
        assert(sorted(head).push(s.last()).drop_last() =~= sorted(head));
        assert(head.push(s.last()) =~= s);
    }
}

fn place<T: Ranked>(items: &mut Vec<T>, x: T)
    ensures
        final(items)@ == placed(old(items)@, x),
{
    let mut at: usize = items.len();
    while at > 0 && x.ranks_before(&items[at - 1])
        invariant
            items@ == old(items)@,
            at <= items.len(),
            forall|j: int| at <= j < items.len() ==> x.precedes(#[trigger] &items@[j]),
        decreases at,
    {
        at = at - 1;
    }
    proof {
        lemma_placed_at(items@, x, at as int);
    }
    items.insert(at, x);
}

/// Sorts items by rank; items of the same rank keep their order.
pub fn sort<T: Ranked>(items: Vec<T>) -> (arranged: Vec<T>)
    ensures
        arranged@ == sorted(items@),
        in_order(arranged@),
        arranged@.to_multiset() == items@.to_multiset(),
        forall|like: T| of_rank(arranged@, like) == #[trigger] of_rank(items@, like),
{
    let mut rest = items;
    let mut arranged: Vec<T> = Vec::new();
    let ghost mut done: int = 0;
    assert(items@.skip(0) =~= items@);
    assert(items@.take(0) =~= Seq::<T>::empty());
    while rest.len() > 0
        invariant
            0 <= done <= items@.len(),
            rest@ == items@.skip(done),
            arranged@ == sorted(items@.take(done)),
        decreases rest.len(),
    {
        let x = rest.remove(0);
        place(&mut arranged, x);
        proof {
            assert(items@.take(done + 1).drop_last() =~= items@.take(done));
            assert(items@.take(done + 1).last() == x);
            assert(rest@ =~= items@.skip(done + 1));
            done = done + 1;
        }
    }
    proof {
        assert(items@.take(done) =~= items@);
        law_sorted_in_order(items@);
        law_sorted_keeps_items(items@);
        assert forall|like: T| of_rank(arranged@, like) == #[trigger] of_rank(items@, like) by {
            law_sorted_is_stable(items@, like);
        }
    }
    arranged
}

/// Two sequences of the same items have the same members.
pub proof fn lemma_same_items<T>(a: Seq<T>, b: Seq<T>)
    requires
        a.to_multiset() == b.to_multiset(),
    ensures
        a.len() == b.len(),
        forall|x: T| #[trigger] a.contains(x) <==> b.contains(x),
{
    broadcast use group_to_multiset_ensures;

    assert(a.len() == a.to_multiset().len());
    assert(b.len() == b.to_multiset().len());
    assert forall|x: T| #[trigger] a.contains(x) <==> b.contains(x) by {
        assert(a.contains(x) <==> a.to_multiset().count(x) > 0);
        assert(b.contains(x) <==> b.to_multiset().count(x) > 0);
    }
}

/// Two sequences of the same items, mapped, hold the same items.
pub proof fn lemma_same_items_mapped<T, U>(a: Seq<T>, b: Seq<T>, f: spec_fn(T) -> U)
    requires
        a.to_multiset() == b.to_multiset(),
    ensures
        a.map_values(f).to_multiset() == b.map_values(f).to_multiset(),
    decreases a.len(),
{
    broadcast use group_to_multiset_ensures;

    lemma_same_items(a, b);
    if a.len() > 0 {
        let x = a.last();
        assert(a[a.len() - 1] == x);
        assert(a.contains(x));
        let at = choose|at: int| 0 <= at < b.len() && b[at] == x;
        let head = a.drop_last();
        let rest = b.remove(at);
        assert(a =~= head.push(x));
        assert(a.to_multiset() =~= head.to_multiset().insert(x));
        assert(b.to_multiset().remove(x) =~= rest.to_multiset());
        assert(head.to_multiset() =~= rest.to_multiset());
        lemma_same_items_mapped(head, rest, f);
        assert(a.map_values(f) =~= head.map_values(f).push(f(x)));
        assert(rest.map_values(f) =~= b.map_values(f).remove(at));
        assert(b.map_values(f)[at] == f(x));
        assert(a.map_values(f).to_multiset() =~= head.map_values(f).to_multiset().insert(f(x)));
        assert(b.map_values(f).to_multiset().remove(f(x)) =~= rest.map_values(f).to_multiset());
        assert(b.map_values(f).contains(f(x)));
        assert(a.map_values(f).to_multiset() =~= b.map_values(f).to_multiset());
    } else {
        assert(a =~= b);
    }
}

/// What is in order already is left as it is.
pub proof fn law_sorted_leaves_ordered<T: Ranked>(s: Seq<T>)
    requires
        in_order(s),
    ensures
        sorted(s) == s,
    decreases s.len(),
{
    if s.len() > 0 {
        let head = s.drop_last();
        assert forall|i: int, j: int| 0 <= i < j < head.len() implies !(
        #[trigger] head[j]).precedes(#[trigger] &head[i]) by {
            assert(!s[j].precedes(&s[i]));
        }
        law_sorted_leaves_ordered(head);
        if head.len() > 0 {
            assert(!s[s.len() - 1].precedes(&s[s.len() - 2]));
        }
        assert(head.push(s.last()) =~= s);
    }
}

} // verus!
