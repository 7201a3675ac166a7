//! Identity of items and the difference between two collections of them.

use vstd::hash_set::StringHashSet;
use vstd::prelude::*;
use vstd::string::*;

verus! {

/// An item that is told from the others by one field, its identity. Two items with
/// the same identity are the same package, whatever their other fields hold.
pub trait Identified: Sized {
    /// The field by which two items count as the same package.
    spec fn identity(&self) -> Seq<char>;

    /// The identity of this item.
    fn name(&self) -> (name: &str)
        ensures
            name@ == self.identity(),
    ;

    /// A copy of this item, every field included.
    fn duplicate(&self) -> (copy: Self)
        ensures
            copy == *self,
    ;
}

/// The identities carried by the items of `items`.
pub open spec fn identities<T: Identified>(items: Seq<T>) -> Set<Seq<char>> {
    Set::new(|id: Seq<char>| exists|i: int| 0 <= i < items.len() && #[trigger] items[i].identity() == id)
}

/// The items of `v1`, in their order, whose identity no item of `v2` carries and
/// no earlier item of `v1` carries either.
pub open spec fn difference<T: Identified>(v1: Seq<T>, v2: Seq<T>) -> Seq<
    T,
>
    decreases v1.len(),
{
    if v1.len() == 0 {
        Seq::empty()
    } else {
        let front = v1.drop_last();
        let id = v1.last().identity();
        if identities::<T>(v2).contains(id) || identities::<T>(front).contains(id) {
            difference::<T>(front, v2)
        } else {
            difference::<T>(front, v2).push(v1.last())
        }
    }
}

/// Adding an item adds its identity.
pub proof fn lemma_identities_push<T: Identified>(items: Seq<T>, x: T)
    ensures
        identities::<T>(items.push(x)) == identities::<T>(items).insert(x.identity()),
{
    let grown = items.push(x);
    assert forall|id: Seq<char>| identities::<T>(grown).contains(id) implies identities::<T>(
        items,
    ).insert(x.identity()).contains(id) by {
        let i = choose|i: int| 0 <= i < grown.len() && #[trigger] grown[i].identity() == id;
        if i < items.len() {
            assert(items[i].identity() == id);
        }
    }
    assert forall|id: Seq<char>| identities::<T>(items).insert(x.identity()).contains(
        id,
    ) implies identities::<T>(grown).contains(id) by {
        if id == x.identity() {
            assert(grown[items.len() as int].identity() == id);
        } else {
            let i = choose|i: int| 0 <= i < items.len() && #[trigger] items[i].identity() == id;
            assert(grown[i].identity() == id);
        }
    }
    assert(identities::<T>(grown) =~= identities::<T>(items).insert(x.identity()));
}

/// The items of `v1` that are missing from `v2`, compared by identity, or `None`
/// where there is none. Every identity is hashed once, so the work grows with the
/// sizes of the two collections, not with their product.
pub fn missing_items<T: Identified>(v1: &[T], v2: &[T]) -> (missing: Option<Vec<T>>)
    ensures
        match missing {
            None => difference::<T>(v1@, v2@).len() == 0,
            Some(items) => items@.len() > 0 && items@ == difference::<T>(v1@, v2@),
        },
{
    let mut seen = StringHashSet::new();
    let mut j: usize = 0;
    while j < v2.len()
        invariant
            j <= v2.len(),
            seen@ == identities::<T>(v2@.subrange(0, j as int)),
        decreases v2.len() - j,
    {
        let name = v2[j].name();
        proof {
            lemma_identities_push::<T>(v2@.subrange(0, j as int), v2@[j as int]);
            assert(v2@.subrange(0, j as int).push(v2@[j as int]) == v2@.subrange(0, j + 1));
        }
        seen.insert(name.to_owned());
        j += 1;
    }
    assert(v2@.subrange(0, v2.len() as int) == v2@);
    let mut out: Vec<T> = Vec::new();
    let mut i: usize = 0;
    while i < v1.len()
        invariant
            i <= v1.len(),
            seen@ == identities::<T>(v2@).union(identities::<T>(v1@.subrange(0, i as int))),
            out@ == difference::<T>(v1@.subrange(0, i as int), v2@),
        decreases v1.len() - i,
    {
        let name = v1[i].name();
        proof {
            let front = v1@.subrange(0, i as int);
            let next = v1@.subrange(0, i + 1);
            lemma_identities_push::<T>(front, v1@[i as int]);
            assert(front.push(v1@[i as int]) == next);
            assert(next.drop_last() == front);
            assert(next.last() == v1@[i as int]);
        }
        if !seen.contains(name) {
            out.push(v1[i].duplicate());
        }
        seen.insert(name.to_owned());
        i += 1;
    }
    assert(v1@.subrange(0, v1.len() as int) == v1@);
    if out.len() == 0 {
        None
    } else {
        Some(out)
    }
}

/// Copies of `items`.
pub fn duplicates_of<T: Identified>(items: &Vec<T>) -> (copies: Vec<T>)
    ensures
        copies@ == items@,
{
    let mut copies: Vec<T> = Vec::new();
    let mut i: usize = 0;
    while i < items.len()
        invariant
            i <= items.len(),
            copies@ == items@.subrange(0, i as int),
        decreases items.len() - i,
    {
        copies.push(items[i].duplicate());
        assert(items@.subrange(0, i as int).push(items@[i as int]) == items@.subrange(0, i + 1));
        i += 1;
    }
    assert(items@.subrange(0, items.len() as int) == items@);
    copies
}

/// The identities of a difference are those of the first collection that the
/// second lacks.
pub proof fn lemma_difference_identities<T: Identified>(v1: Seq<T>, v2: Seq<T>)
    ensures
        identities(difference(v1, v2)) == identities(v1).difference(identities(v2)),
    decreases v1.len(),
{
    if v1.len() == 0 {
        assert(identities(difference(v1, v2)) =~= identities(v1).difference(identities(v2)));
    } else {
        let front = v1.drop_last();
        let x = v1.last();
        lemma_difference_identities(front, v2);
        lemma_identities_push(front, x);
        assert(front.push(x) == v1);
        if identities(v2).contains(x.identity()) || identities(front).contains(x.identity()) {
            assert(identities(difference(v1, v2)) =~= identities(v1).difference(identities(v2)));
        } else {
            lemma_identities_push(difference(front, v2), x);
            assert(identities(difference(v1, v2)) =~= identities(v1).difference(identities(v2)));
        }
    }
}

/// A difference is empty exactly where every identity of the first collection
/// occurs in the second.
pub proof fn lemma_difference_empty<T: Identified>(v1: Seq<T>, v2: Seq<T>)
    ensures
        difference(v1, v2).len() == 0 <==> identities(v1).subset_of(identities(v2)),
{
    lemma_difference_identities(v1, v2);
    let d = difference(v1, v2);
    if d.len() == 0 {
        assert forall|id: Seq<char>| identities(v1).contains(id) implies identities(v2).contains(
            id,
        ) by {
            if !identities(v2).contains(id) {
                assert(identities(v1).difference(identities(v2)).contains(id));
                assert(identities(d).contains(id));
            }
        }
    } else {
        assert(d[0].identity() == d[0].identity());
        assert(identities(d).contains(d[0].identity()));
        assert(identities(v1).difference(identities(v2)).contains(d[0].identity()));
    }
}

/// No two items of a difference are the same package, and each is an item of the
/// first collection.
pub proof fn law_difference_holds_each_package_once<T: Identified>(v1: Seq<T>, v2: Seq<T>)
    ensures
        forall|i: int, j: int|
            0 <= i < j < difference(v1, v2).len() ==> (#[trigger] difference(v1, v2)[i]).identity()
                != (#[trigger] difference(v1, v2)[j]).identity(),
        forall|i: int|
            0 <= i < difference(v1, v2).len() ==> v1.contains(#[trigger] difference(v1, v2)[i]),
    decreases v1.len(),
{
    if v1.len() > 0 {
        let front = v1.drop_last();
        let x = v1.last();
        let d = difference(v1, v2);
        let df = difference(front, v2);
        law_difference_holds_each_package_once(front, v2);
        lemma_difference_identities(front, v2);
        assert forall|i: int| 0 <= i < d.len() implies v1.contains(#[trigger] d[i]) by {
            if i < df.len() {
                assert(front.contains(df[i]));
                let k = choose|k: int| 0 <= k < front.len() && front[k] == df[i];
                assert(v1[k] == d[i]);
            } else {
                assert(v1[v1.len() - 1] == d[i]);
            }
        }
        assert forall|i: int, j: int| 0 <= i < j < d.len() implies (#[trigger] d[i]).identity() != (
        #[trigger] d[j]).identity() by {
            if j >= df.len() {
                assert(identities(df).contains(df[i].identity()));
            }
        }
    }
}

/// What is to be installed and what is to be removed have no package in common,
/// and neither touches a package that is both desired and installed.
pub proof fn law_batches_are_disjoint<T: Identified>(desired: Seq<T>, installed: Seq<T>)
    ensures
        identities(difference(desired, installed)).disjoint(
            identities(difference(installed, desired)),
        ),
        identities(difference(desired, installed)).disjoint(
            identities(desired).intersect(identities(installed)),
        ),
        identities(difference(installed, desired)).disjoint(
            identities(desired).intersect(identities(installed)),
        ),
{
    lemma_difference_identities(desired, installed);
    lemma_difference_identities(installed, desired);
}

/// Once both batches have been applied, so that the installed packages are the old
/// ones with the first batch added and the second taken away, a second
/// reconciliation finds nothing to install and nothing to remove.
pub proof fn law_reconciled_state_is_stable<T: Identified>(
    desired: Seq<T>,
    installed: Seq<T>,
    after: Seq<T>,
)
    requires
        identities(after) == identities(installed).union(
            identities(difference(desired, installed)),
        ).difference(identities(difference(installed, desired))),
    ensures
        identities(after) == identities(desired),
        difference(desired, after).len() == 0,
        difference(after, desired).len() == 0,
{
    lemma_difference_identities(desired, installed);
    lemma_difference_identities(installed, desired);
    assert(identities(after) =~= identities(desired));
    lemma_difference_empty(desired, after);
    lemma_difference_empty(after, desired);
}

/// Which packages a difference holds does not depend on the order of either
/// collection.
pub proof fn law_difference_ignores_order<T: Identified>(
    v1: Seq<T>,
    v2: Seq<T>,
    w1: Seq<T>,
    w2: Seq<T>,
)
    requires
        v1.to_multiset() == w1.to_multiset(),
        v2.to_multiset() == w2.to_multiset(),
    ensures
        identities(difference(v1, v2)) == identities(difference(w1, w2)),
{
    lemma_same_items_same_identities(v1, w1);
    lemma_same_items_same_identities(v2, w2);
    lemma_difference_identities(v1, v2);
    lemma_difference_identities(w1, w2);
}

/// Two collections with the same items, in whatever order, carry the same
/// identities.
pub proof fn lemma_same_items_same_identities<T: Identified>(v: Seq<T>, w: Seq<T>)
    requires
        v.to_multiset() == w.to_multiset(),
    ensures
        identities(v) == identities(w),
{
    v.to_multiset_ensures();
    w.to_multiset_ensures();
    assert forall|id: Seq<char>| identities(v).contains(id) <==> identities(w).contains(id) by {
        if identities(v).contains(id) {
            let i = choose|i: int| 0 <= i < v.len() && #[trigger] v[i].identity() == id;
            assert(v.contains(v[i]));
            assert(v.to_multiset().count(v[i]) > 0);
            assert(w.to_multiset().count(v[i]) > 0);
            assert(w.contains(v[i]));
            let k = choose|k: int| 0 <= k < w.len() && w[k] == v[i];
            assert(w[k].identity() == id);
        }
        if identities(w).contains(id) {
            let i = choose|i: int| 0 <= i < w.len() && #[trigger] w[i].identity() == id;
            assert(w.contains(w[i]));
            assert(w.to_multiset().count(w[i]) > 0);
            assert(v.to_multiset().count(w[i]) > 0);
            assert(v.contains(w[i]));
            let k = choose|k: int| 0 <= k < v.len() && v[k] == w[i];
            assert(v[k].identity() == id);
        }
    }
    assert(identities(v) =~= identities(w));
}

/// Two collections one after the other carry the identities of both.
pub proof fn lemma_identities_of_both<T: Identified>(v: Seq<T>, w: Seq<T>)
    ensures
        identities(v + w) == identities(v).union(identities(w)),
{
    let both = v + w;
    assert forall|id: Seq<char>| identities(both).contains(id) <==> identities(v).union(
        identities(w),
    ).contains(id) by {
        if identities(both).contains(id) {
            let i = choose|i: int| 0 <= i < both.len() && #[trigger] both[i].identity() == id;
            if i < v.len() {
                assert(v[i].identity() == id);
            } else {
                assert(w[i - v.len()].identity() == id);
            }
        }
        if identities(v).contains(id) {
            let i = choose|i: int| 0 <= i < v.len() && #[trigger] v[i].identity() == id;
            assert(both[i].identity() == id);
        }
        if identities(w).contains(id) {
            let i = choose|i: int| 0 <= i < w.len() && #[trigger] w[i].identity() == id;
            assert(both[v.len() + i].identity() == id);
        }
    }
    assert(identities(both) =~= identities(v).union(identities(w)));
}

} // verus!
