//! Ordering: lexicographic comparison and stable sorting.
use vstd::prelude::*;

verus! {

/// The views of the items of a sequence.
pub open spec fn views<T: View>(items: Seq<T>) -> Seq<T::V> {
    Seq::new(items.len(), |i: int| items[i]@)
}

/// Whether the bytes `a` come before the bytes `b`: at the first difference, or by being
/// a proper prefix.
pub open spec fn bytes_before(a: Seq<u8>, b: Seq<u8>) -> bool
    decreases a.len(),
{
    if b.len() == 0 {
        false
    } else if a.len() == 0 {
        true
    } else if a[0] != b[0] {
        a[0] < b[0]
    } else {
        bytes_before(a.drop_first(), b.drop_first())
    }
}

/// Whether the text `a` comes before the text `b`: at the first different character, or by
/// being a proper prefix.
pub open spec fn text_before(a: Seq<char>, b: Seq<char>) -> bool
    decreases a.len(),
{
    if b.len() == 0 {
        false
    } else if a.len() == 0 {
        true
    } else if a[0] != b[0] {
        a[0] < b[0]
    } else {
        text_before(a.drop_first(), b.drop_first())
    }
}

/// The order of bytes is a strict total order.
pub proof fn bytes_order(a: Seq<u8>, b: Seq<u8>, c: Seq<u8>)
    ensures
        !bytes_before(a, a),
        bytes_before(a, b) && bytes_before(b, c) ==> bytes_before(a, c),
        !bytes_before(a, b) && !bytes_before(b, a) ==> a == b,
    decreases a.len(),
{
    if a.len() > 0 {
        bytes_order(a.drop_first(), a.drop_first(), a.drop_first());
    }
    if a.len() > 0 && b.len() > 0 && c.len() > 0 {
        bytes_order(a.drop_first(), b.drop_first(), c.drop_first());
    }
    if a.len() > 0 && b.len() > 0 {
        bytes_order(a.drop_first(), b.drop_first(), Seq::empty());
        if a[0] == b[0] && a.drop_first() == b.drop_first() {
            assert(a =~= seq![a[0]] + a.drop_first());
            assert(b =~= seq![b[0]] + b.drop_first());
        }
    }
    if a.len() == 0 && b.len() == 0 {
        assert(a =~= b);
    }
}

/// The order of texts is a strict total order.
pub proof fn text_order(a: Seq<char>, b: Seq<char>, c: Seq<char>)
    ensures
        !text_before(a, a),
        text_before(a, b) && text_before(b, c) ==> text_before(a, c),
        !text_before(a, b) && !text_before(b, a) ==> a == b,
    decreases a.len(),
{
    if a.len() > 0 {
        text_order(a.drop_first(), a.drop_first(), a.drop_first());
    }
    if a.len() > 0 && b.len() > 0 && c.len() > 0 {
        text_order(a.drop_first(), b.drop_first(), c.drop_first());
    }
    if a.len() > 0 && b.len() > 0 {
        text_order(a.drop_first(), b.drop_first(), Seq::empty());
        if a[0] == b[0] && a.drop_first() == b.drop_first() {
            assert(a =~= seq![a[0]] + a.drop_first());
            assert(b =~= seq![b[0]] + b.drop_first());
        }
    }
    if a.len() == 0 && b.len() == 0 {
        assert(a =~= b);
    }
}

/// Whether the bytes `a` come before the bytes `b`.
pub fn is_bytes_before(a: &Vec<u8>, b: &Vec<u8>) -> (before: bool)
    ensures
        before == bytes_before(a@, b@),
{
    let mut i: usize = 0;
    assert(a@.skip(0) =~= a@);
    assert(b@.skip(0) =~= b@);
    loop
        invariant
            i <= a@.len(),
            i <= b@.len(),
            bytes_before(a@, b@) == bytes_before(a@.skip(i as int), b@.skip(i as int)),
        decreases a@.len() - i,
    {
        if i >= b.len() {
            return false;
        }
        if i >= a.len() {
            return true;
        }
        if a[i] != b[i] {
            return a[i] < b[i];
        }
        assert(a@.skip(i as int).drop_first() =~= a@.skip(i + 1));
        assert(b@.skip(i as int).drop_first() =~= b@.skip(i + 1));
        i += 1;
    }
}

/// Whether the characters `a` come before the characters `b`.
pub fn is_text_before(a: &Vec<char>, b: &Vec<char>) -> (before: bool)
    ensures
        before == text_before(a@, b@),
{
    let mut i: usize = 0;
    assert(a@.skip(0) =~= a@);
    assert(b@.skip(0) =~= b@);
    loop
        invariant
            i <= a@.len(),
            i <= b@.len(),
            text_before(a@, b@) == text_before(a@.skip(i as int), b@.skip(i as int)),
        decreases a@.len() - i,
    {
        if i >= b.len() {
            return false;
        }
        if i >= a.len() {
            return true;
        }
        if a[i] != b[i] {
            return a[i] < b[i];
        }
        assert(a@.skip(i as int).drop_first() =~= a@.skip(i + 1));
        assert(b@.skip(i as int).drop_first() =~= b@.skip(i + 1));
        i += 1;
    }
}

/// Items that can be sorted: `precedes` orders their views, and two items of which neither
/// precedes the other are of equal rank.
pub trait Ranked: View + Sized {
    /// Whether an item with view `a` comes before one with view `b`.
    spec fn precedes(a: Self::V, b: Self::V) -> bool;

    /// Whether this item comes before `other`.
    fn is_before(&self, other: &Self) -> (before: bool)
        ensures
            before == Self::precedes(self@, other@),
    ;

    /// No item precedes itself, and what follows something follows whatever precedes that.
    proof fn precedes_orders(a: Self::V, b: Self::V, c: Self::V)
        ensures
            !Self::precedes(a, a),
            Self::precedes(a, b) && Self::precedes(b, c) ==> Self::precedes(a, c),
            !Self::precedes(b, a) && !Self::precedes(c, b) ==> !Self::precedes(c, a),
    ;
}

/// `sorted` with `item` put behind every item that it does not precede.
pub open spec fn inserted<T: Ranked>(sorted: Seq<T::V>, item: T::V) -> Seq<T::V>
    decreases sorted.len(),
{
    if sorted.len() > 0 && T::precedes(item, sorted.last()) {
        inserted::<T>(sorted.drop_last(), item).push(sorted.last())
    } else {
        sorted.push(item)
    }
}

/// `items` in order, those of equal rank in the order in which they came.
pub open spec fn sorted_form<T: Ranked>(items: Seq<T::V>) -> Seq<T::V>
    decreases items.len(),
{
    if items.len() == 0 {
        items
    } else {
        inserted::<T>(sorted_form::<T>(items.drop_last()), items.last())
    }
}

/// Whether no item precedes one that stands before it.
pub open spec fn in_order<T: Ranked>(items: Seq<T::V>) -> bool {
    forall|i: int, j: int| 0 <= i < j < items.len() ==> !T::precedes(items[j], items[i])
}

/// Insertion keeps the order, and adds exactly the inserted item.
pub proof fn insertion_keeps_order<T: Ranked>(sorted: Seq<T::V>, item: T::V)
    requires
        in_order::<T>(sorted),
    ensures
        in_order::<T>(inserted::<T>(sorted, item)),
        inserted::<T>(sorted, item).to_multiset() == sorted.to_multiset().insert(item),
        inserted::<T>(sorted, item).len() == sorted.len() + 1,
        forall|k: int|
            0 <= k <= sorted.len() ==> inserted::<T>(sorted, item)[k] == item || sorted.contains(
                #[trigger] inserted::<T>(sorted, item)[k],
            ),
    decreases sorted.len(),
{
    broadcast use vstd::seq_lib::group_to_multiset_ensures;

    let out = inserted::<T>(sorted, item);
    if sorted.len() > 0 && T::precedes(item, sorted.last()) {
        let shorter = sorted.drop_last();
        insertion_keeps_order::<T>(shorter, item);
        let inner = inserted::<T>(shorter, item);
        assert forall|i: int, j: int| 0 <= i < j < out.len() implies !T::precedes(
            out[j],
            out[i],
        ) by {
            if j == out.len() - 1 {
                assert(out[i] == inner[i]);
                T::precedes_orders(item, sorted.last(), item);
                if inner[i] != item {
                    let k = choose|k: int| 0 <= k < shorter.len() && shorter[k] == inner[i];
                    assert(sorted[k] == inner[i]);
                }
            }
        }
        assert(sorted =~= shorter.push(sorted.last()));
        assert(shorter.to_multiset().insert(item).insert(sorted.last())
            =~= shorter.to_multiset().insert(sorted.last()).insert(item));
        assert forall|k: int| 0 <= k <= sorted.len() implies out[k] == item || sorted.contains(
            #[trigger] out[k],
        ) by {
            if k == sorted.len() {
                assert(sorted[sorted.len() - 1] == out[k]);
            } else {
                assert(out[k] == inner[k]);
                if inner[k] != item {
                    let m = choose|m: int| 0 <= m < shorter.len() && shorter[m] == inner[k];
                    assert(sorted[m] == inner[k]);
                }
            }
        }
    } else {
        assert forall|i: int, j: int| 0 <= i < j < out.len() implies !T::precedes(
            out[j],
            out[i],
        ) by {
            if j == out.len() - 1 {
                if i < sorted.len() - 1 {
                    T::precedes_orders(sorted[i], sorted.last(), item);
                }
            }
        }
        assert forall|k: int| 0 <= k <= sorted.len() implies out[k] == item || sorted.contains(
            #[trigger] out[k],
        ) by {
            if k < sorted.len() {
                assert(sorted[k] == out[k]);
            }
        }
    }
}

/// Sorting keeps exactly the items that were there and puts them in order.
pub proof fn sorting_orders<T: Ranked>(items: Seq<T::V>)
    ensures
        in_order::<T>(sorted_form::<T>(items)),
        sorted_form::<T>(items).to_multiset() == items.to_multiset(),
        sorted_form::<T>(items).len() == items.len(),
    decreases items.len(),
{
    broadcast use vstd::seq_lib::group_to_multiset_ensures;

    if items.len() > 0 {
        sorting_orders::<T>(items.drop_last());
        insertion_keeps_order::<T>(sorted_form::<T>(items.drop_last()), items.last());
        assert(items =~= items.drop_last().push(items.last()));
    }
}

/// Whether every item precedes those that stand behind it.
pub open spec fn ascends<T: Ranked>(items: Seq<T::V>) -> bool {
    forall|i: int, j: int| 0 <= i < j < items.len() ==> T::precedes(items[i], items[j])
}

/// Whether of every two items one precedes the other.
pub open spec fn all_differ<T: Ranked>(items: Seq<T::V>) -> bool {
    forall|i: int, j: int|
        0 <= i < j < items.len() ==> T::precedes(items[i], items[j]) || T::precedes(
            items[j],
            items[i],
        )
}

/// Items that ascend still do behind an insertion of one that is of the rank of none of them.
pub proof fn insertion_keeps_ascent<T: Ranked>(sorted: Seq<T::V>, item: T::V)
    requires
        ascends::<T>(sorted),
        forall|i: int|
            0 <= i < sorted.len() ==> T::precedes(#[trigger] sorted[i], item) || T::precedes(
                item,
                sorted[i],
            ),
    ensures
        ascends::<T>(inserted::<T>(sorted, item)),
        inserted::<T>(sorted, item).len() == sorted.len() + 1,
        forall|k: int|
            0 <= k <= sorted.len() ==> inserted::<T>(sorted, item)[k] == item || sorted.contains(
                #[trigger] inserted::<T>(sorted, item)[k],
            ),
    decreases sorted.len(),
{
    let out = inserted::<T>(sorted, item);
    if sorted.len() > 0 && T::precedes(item, sorted.last()) {
        let shorter = sorted.drop_last();
        assert forall|i: int| 0 <= i < shorter.len() implies T::precedes(
            #[trigger] shorter[i],
            item,
        ) || T::precedes(item, shorter[i]) by {
            assert(shorter[i] == sorted[i]);
        }
        insertion_keeps_ascent::<T>(shorter, item);
        let inner = inserted::<T>(shorter, item);
        assert forall|k: int| 0 <= k <= sorted.len() implies out[k] == item || sorted.contains(
            #[trigger] out[k],
        ) by {
            if k == sorted.len() {
                assert(sorted[sorted.len() - 1] == out[k]);
            } else {
                assert(out[k] == inner[k]);
                if inner[k] != item {
                    let m = choose|m: int| 0 <= m < shorter.len() && shorter[m] == inner[k];
                    assert(sorted[m] == inner[k]);
                }
            }
        }
        assert forall|i: int, j: int| 0 <= i < j < out.len() implies T::precedes(
            out[i],
            out[j],
        ) by {
            if j == out.len() - 1 {
                assert(out[i] == inner[i]);
                if inner[i] != item {
                    let m = choose|m: int| 0 <= m < shorter.len() && shorter[m] == inner[i];
                    assert(sorted[m] == inner[i]);
                }
            } else {
                assert(out[i] == inner[i]);
                assert(out[j] == inner[j]);
            }
        }
    } else {
        assert forall|k: int| 0 <= k <= sorted.len() implies out[k] == item || sorted.contains(
            #[trigger] out[k],
        ) by {
            if k < sorted.len() {
                assert(sorted[k] == out[k]);
            }
        }
        assert forall|i: int, j: int| 0 <= i < j < out.len() implies T::precedes(
            out[i],
            out[j],
        ) by {
            if j == out.len() - 1 {
                assert(out[i] == sorted[i]);
                let last = sorted[sorted.len() - 1];
                assert(T::precedes(last, item));
                if i < sorted.len() - 1 {
                    T::precedes_orders(sorted[i], last, item);
                }
            }
        }
    }
}

/// Items of different ranks ascend when they are sorted.
pub proof fn different_items_ascend<T: Ranked>(items: Seq<T::V>)
    requires
        all_differ::<T>(items),
    ensures
        ascends::<T>(sorted_form::<T>(items)),
    decreases items.len(),
{
    broadcast use vstd::seq_lib::group_to_multiset_ensures;

    if items.len() > 0 {
        let rest = items.drop_last();
        let sorted = sorted_form::<T>(rest);
        assert(all_differ::<T>(rest));
        different_items_ascend::<T>(rest);
        sorting_orders::<T>(rest);
        assert forall|i: int| 0 <= i < sorted.len() implies T::precedes(
            #[trigger] sorted[i],
            items.last(),
        ) || T::precedes(items.last(), sorted[i]) by {
            assert(sorted.to_multiset().count(sorted[i]) > 0);
            assert(rest.contains(sorted[i]));
            let k = choose|k: int| 0 <= k < rest.len() && rest[k] == sorted[i];
            assert(items[k] == sorted[i]);
        }
        insertion_keeps_ascent::<T>(sorted, items.last());
    }
}

proof fn insertion_filters<T: Ranked>(
    sorted: Seq<T::V>,
    item: T::V,
    keep: spec_fn(T::V) -> bool,
)
    requires
        in_order::<T>(sorted),
    ensures
        inserted::<T>(sorted, item).filter(keep) == if keep(item) {
            inserted::<T>(sorted.filter(keep), item)
        } else {
            sorted.filter(keep)
        },
    decreases sorted.len(),
{
    reveal(Seq::filter);
    let out = inserted::<T>(sorted, item);
    if sorted.len() > 0 && T::precedes(item, sorted.last()) {
        let shorter = sorted.drop_last();
        assert(in_order::<T>(shorter));
        insertion_filters::<T>(shorter, item, keep);
        assert(out.drop_last() =~= inserted::<T>(shorter, item));
        if keep(sorted.last()) {
            let kept = sorted.filter(keep);
            assert(kept.drop_last() =~= shorter.filter(keep));
        }
    } else {
        assert(out.drop_last() =~= sorted);
        if keep(item) {
            kept_are_not_behind::<T>(sorted, item, keep);
        }
    }
}

proof fn kept_are_not_behind<T: Ranked>(
    sorted: Seq<T::V>,
    item: T::V,
    keep: spec_fn(T::V) -> bool,
)
    requires
        in_order::<T>(sorted),
        sorted.len() > 0 ==> !T::precedes(item, sorted.last()),
    ensures
        inserted::<T>(sorted.filter(keep), item) == sorted.filter(keep).push(item),
{
    broadcast use vstd::seq_lib::group_filter_ensures;

    let kept = sorted.filter(keep);
    if kept.len() > 0 {
        let last = kept[kept.len() - 1];
        assert(kept.contains(last));
        sorted.lemma_filter_contains_rev(keep, last);
        let at = choose|at: int| 0 <= at < sorted.len() && sorted[at] == last;
        if at < sorted.len() - 1 {
            T::precedes_orders(last, sorted.last(), item);
        }
    }
}

/// Leaving items out and sorting can be done in either order.
pub proof fn sorting_filters<T: Ranked>(items: Seq<T::V>, keep: spec_fn(T::V) -> bool)
    ensures
        sorted_form::<T>(items.filter(keep)) == sorted_form::<T>(items).filter(keep),
    decreases items.len(),
{
    reveal(Seq::filter);
    if items.len() > 0 {
        let rest = items.drop_last();
        sorting_filters::<T>(rest, keep);
        sorting_orders::<T>(rest);
        insertion_filters::<T>(sorted_form::<T>(rest), items.last(), keep);
        if keep(items.last()) {
            assert(items.filter(keep).drop_last() =~= rest.filter(keep));
        }
    }
}

/// Puts `item` behind every item of `sorted` that it does not precede.
pub fn insert_in_order<T: Ranked>(sorted: &mut Vec<T>, item: T)
    ensures
        views(final(sorted)@) == inserted::<T>(views(old(sorted)@), item@),
{
    let ghost all = views(sorted@);
    let mut at: usize = sorted.len();
    assert(all.take(at as int) =~= all);
    assert(all.skip(at as int) =~= Seq::<T::V>::empty());
    assert(inserted::<T>(all, item@) =~= inserted::<T>(all.take(at as int), item@) + all.skip(
        at as int,
    ));
    while at > 0 && item.is_before(&sorted[at - 1])
        invariant
            at <= sorted@.len(),
            sorted@ == old(sorted)@,
            all == views(sorted@),
            inserted::<T>(all, item@) == inserted::<T>(all.take(at as int), item@) + all.skip(
                at as int,
            ),
        decreases at,
    {
        proof {
            let here = all.take(at as int);
            assert(here.last() == sorted@[at - 1]@);
            assert(here.drop_last() =~= all.take(at - 1));
            assert(inserted::<T>(here, item@) + all.skip(at as int) =~= inserted::<T>(
                all.take(at - 1),
                item@,
            ) + all.skip(at - 1));
        }
        at -= 1;
    }
    proof {
        let here = all.take(at as int);
        if at > 0 {
            assert(here.last() == sorted@[at - 1]@);
        }
        assert(inserted::<T>(here, item@) == here.push(item@));
    }
    let ghost view = item@;
    sorted.insert(at, item);
    assert(views(sorted@) =~= all.take(at as int).push(view) + all.skip(at as int));
}

/// Sorts `items`, those of equal rank staying in the order in which they came.
pub fn stable_sort<T: Ranked>(items: Vec<T>) -> (sorted: Vec<T>)
    ensures
        views(sorted@) == sorted_form::<T>(views(items@)),
{
    let mut rest: Vec<T> = items;
    let mut sorted: Vec<T> = Vec::new();
    let total: usize = rest.len();
    let mut done: usize = 0;
    assert(rest@ =~= items@.skip(0));
    assert(views(items@).take(0) =~= Seq::<T::V>::empty());
    assert(views(sorted@) =~= Seq::<T::V>::empty());
    while done < total
        invariant
            done <= total,
            total == items@.len(),
            rest@ == items@.skip(done as int),
            sorted@.len() == done,
            views(sorted@) == sorted_form::<T>(views(items@).take(done as int)),
        decreases total - done,
    {
        let item: T = rest.remove(0);
        assert(rest@ =~= items@.skip(done + 1));
        proof {
            let upto = views(items@).take(done + 1);
            assert(upto.drop_last() =~= views(items@).take(done as int));
            assert(upto.last() == item@);
            insertion_length::<T>(views(sorted@), item@);
        }
        insert_in_order(&mut sorted, item);
        assert(sorted@.len() == views(sorted@).len());
        done += 1;
    }
    assert(views(items@).take(total as int) =~= views(items@));
    sorted
}

proof fn insertion_length<T: Ranked>(sorted: Seq<T::V>, item: T::V)
    ensures
        inserted::<T>(sorted, item).len() == sorted.len() + 1,
    decreases sorted.len(),
{
    if sorted.len() > 0 && T::precedes(item, sorted.last()) {
        insertion_length::<T>(sorted.drop_last(), item);
    }
}

/// Items that are in order stay as they are: with `sorting_filters`, items of the same rank keep
/// the order in which they came.
pub proof fn sorting_leaves_ordered_items<T: Ranked>(items: Seq<T::V>)
    requires
        in_order::<T>(items),
    ensures
        sorted_form::<T>(items) == items,
    decreases items.len(),
{
    if items.len() > 0 {
        let fewer = items.drop_last();
        assert forall|i: int, j: int| 0 <= i < j < fewer.len() implies !T::precedes(
            fewer[j],
            fewer[i],
        ) by {
            assert(!T::precedes(items[j], items[i]));
        }
        sorting_leaves_ordered_items::<T>(fewer);
        if fewer.len() > 0 {
            assert(!T::precedes(items[items.len() - 1], items[items.len() - 2]));
        }
        assert(items =~= fewer.push(items.last()));
    }
}

} // verus!
