//! Sorting by a key, largest first, with equal keys left in their order.

use vstd::prelude::*;

verus! {

/// Two sequences merged into one by key, largest first: the entry that goes
/// last is the last of `right` unless the last of `left` has a smaller key.
/// So of two entries of equal key, the one from `left` comes first.
pub open spec fn merge_descending<T>(left: Seq<(i128, T)>, right: Seq<(i128, T)>) -> Seq<
    (i128, T),
>
    decreases left.len() + right.len(),
{
    if left.len() == 0 {
        right
    } else if right.len() == 0 {
        left
    } else if right.last().0 <= left.last().0 {
        merge_descending(left, right.drop_last()).push(right.last())
    } else {
        merge_descending(left.drop_last(), right).push(left.last())
    }
}

/// `items` by key, largest first: the two halves, each sorted, merged.
/// Entries of equal key stay in their order.
pub open spec fn sort_descending<T>(items: Seq<(i128, T)>) -> Seq<(i128, T)>
    decreases items.len(),
{
    if items.len() <= 1 {
        items
    } else {
        merge_descending(
            sort_descending(items.take((items.len() / 2) as int)),
            sort_descending(items.skip((items.len() / 2) as int)),
        )
    }
}

/// Whether no entry has a larger key than an entry before it.
pub open spec fn is_descending<T>(items: Seq<(i128, T)>) -> bool {
    forall|i: int, j: int| 0 <= i < j < items.len() ==> items[i].0 >= items[j].0
}

/// The entries of `items` without their keys.
pub open spec fn values<T>(items: Seq<(i128, T)>) -> Seq<T> {
    Seq::new(items.len(), |i: int| items[i].1)
}

/// The entries of `items` with `change` applied to what they carry.
pub open spec fn relabel<A, B>(items: Seq<(i128, A)>, change: spec_fn(A) -> B) -> Seq<(i128, B)> {
    Seq::new(items.len(), |i: int| (items[i].0, change(items[i].1)))
}

/// Merging keeps every entry of both sequences, each as often as it was
/// there, and two descending sequences give a descending one.
pub proof fn lemma_merge_descending<T>(left: Seq<(i128, T)>, right: Seq<(i128, T)>)
    ensures
        merge_descending(left, right).len() == left.len() + right.len(),
        merge_descending(left, right).to_multiset() == left.to_multiset().add(
            right.to_multiset(),
        ),
        is_descending(left) && is_descending(right) ==> is_descending(
            merge_descending(left, right),
        ),
    decreases left.len() + right.len(),
{
    broadcast use vstd::seq_lib::group_to_multiset_ensures;

    if left.len() > 0 && right.len() > 0 {
        if right.last().0 <= left.last().0 {
            let rest = right.drop_last();
            lemma_merge_descending(left, rest);
            assert(rest.push(right.last()) =~= right);
            if is_descending(left) && is_descending(right) {
                lemma_push_smallest(merge_descending(left, rest), left, rest, right.last());
            }
        } else {
            let rest = left.drop_last();
            lemma_merge_descending(rest, right);
            assert(rest.push(left.last()) =~= left);
            if is_descending(left) && is_descending(right) {
                lemma_push_smallest(merge_descending(rest, right), rest, right, left.last());
            }
        }
    }
}

/// A descending sequence made of the entries of two others stays descending
/// when an entry is put behind it whose key is no larger than any key of
/// the two.
proof fn lemma_push_smallest<T>(
    front: Seq<(i128, T)>,
    first: Seq<(i128, T)>,
    second: Seq<(i128, T)>,
    last: (i128, T),
)
    requires
        is_descending(front),
        front.to_multiset() == first.to_multiset().add(second.to_multiset()),
        forall|i: int| 0 <= i < first.len() ==> (#[trigger] first[i]).0 >= last.0,
        forall|i: int| 0 <= i < second.len() ==> (#[trigger] second[i]).0 >= last.0,
    ensures
        is_descending(front.push(last)),
{
    broadcast use vstd::seq_lib::group_to_multiset_ensures;

    let out = front.push(last);
    assert forall|i: int, j: int| 0 <= i < j < out.len() implies out[i].0 >= out[j].0 by {
        if j == front.len() {
            assert(front.to_multiset().count(front[i]) > 0);
        }
    }
}

/// What `sort_descending` gives is descending, and holds the entries of
/// `items`, each as often as `items` does.
pub proof fn lemma_sort_descending<T>(items: Seq<(i128, T)>)
    ensures
        is_descending(sort_descending(items)),
        sort_descending(items).to_multiset() == items.to_multiset(),
        sort_descending(items).len() == items.len(),
    decreases items.len(),
{
    broadcast use vstd::seq_lib::group_to_multiset_ensures;

    if items.len() > 1 {
        let mid = (items.len() / 2) as int;
        let left = items.take(mid);
        let right = items.skip(mid);
        lemma_sort_descending(left);
        lemma_sort_descending(right);
        lemma_merge_descending(sort_descending(left), sort_descending(right));
        assert(left + right =~= items);
        vstd::seq_lib::lemma_multiset_commutative(left, right);
    }
}

/// Merging the two parts of a descending sequence gives it back.
proof fn lemma_merge_of_parts<T>(left: Seq<(i128, T)>, right: Seq<(i128, T)>)
    requires
        is_descending(left + right),
    ensures
        merge_descending(left, right) == left + right,
    decreases left.len() + right.len(),
{
    let whole = left + right;
    if left.len() > 0 && right.len() > 0 {
        assert(whole[left.len() - 1] == left.last());
        assert(whole[whole.len() - 1] == right.last());
        let rest = right.drop_last();
        assert(is_descending(left + rest)) by {
            assert forall|i: int, j: int| 0 <= i < j < (left + rest).len() implies (left
                + rest)[i].0 >= (left + rest)[j].0 by {
                assert((left + rest)[i] == whole[i]);
                assert((left + rest)[j] == whole[j]);
            }
        }
        lemma_merge_of_parts(left, rest);
    }
}

/// A sequence that is descending already is left as it is.
pub proof fn lemma_sort_keeps_descending<T>(items: Seq<(i128, T)>)
    requires
        is_descending(items),
    ensures
        sort_descending(items) == items,
    decreases items.len(),
{
    if items.len() > 1 {
        let mid = (items.len() / 2) as int;
        let left = items.take(mid);
        let right = items.skip(mid);
        assert(is_descending(left));
        assert(is_descending(right));
        lemma_sort_keeps_descending(left);
        lemma_sort_keeps_descending(right);
        lemma_merge_of_parts(left, right);
    }
}

/// Merging looks at the keys alone.
proof fn lemma_merge_relabel<A, B>(
    left: Seq<(i128, A)>,
    right: Seq<(i128, A)>,
    change: spec_fn(A) -> B,
)
    ensures
        relabel(merge_descending(left, right), change) == merge_descending(
            relabel(left, change),
            relabel(right, change),
        ),
    decreases left.len() + right.len(),
{
    if left.len() > 0 && right.len() > 0 {
        if right.last().0 <= left.last().0 {
            lemma_merge_relabel(left, right.drop_last(), change);
            assert(relabel(right, change).drop_last() =~= relabel(right.drop_last(), change));
        } else {
            lemma_merge_relabel(left.drop_last(), right, change);
            assert(relabel(left, change).drop_last() =~= relabel(left.drop_last(), change));
        }
    }
}

/// Sorting looks at the keys alone: whether what the entries carry is
/// changed before or after makes no difference.
pub proof fn lemma_sort_relabel<A, B>(items: Seq<(i128, A)>, change: spec_fn(A) -> B)
    ensures
        relabel(sort_descending(items), change) == sort_descending(relabel(items, change)),
    decreases items.len(),
{
    let renamed = relabel(items, change);
    if items.len() > 1 {
        let mid = (items.len() / 2) as int;
        lemma_sort_relabel(items.take(mid), change);
        lemma_sort_relabel(items.skip(mid), change);
        lemma_merge_relabel(
            sort_descending(items.take(mid)),
            sort_descending(items.skip(mid)),
            change,
        );
        assert(renamed.take(mid) =~= relabel(items.take(mid), change));
        assert(renamed.skip(mid) =~= relabel(items.skip(mid), change));
    }
}

/// Puts the entries of `tail`, last first, behind those of `head`.
fn append_reversed<T>(head: Vec<(i128, T)>, tail: Vec<(i128, T)>) -> (r: Vec<(i128, T)>)
    ensures
        r@ == head@ + tail@.reverse(),
{
    let mut out = head;
    let mut rest = tail;
    while rest.len() > 0
        invariant
            rest@.len() <= tail@.len(),
            rest@ == tail@.take(rest@.len() as int),
            out@ == head@ + tail@.reverse().take(tail@.len() - rest@.len()),
        decreases rest.len(),
    {
        let entry = rest.pop().unwrap();
        out.push(entry);
    }
    out
}

/// Merges two sequences by key, largest first; of two entries of equal key
/// the one from `left` comes first.
pub fn merge_by_key_descending<T>(left: Vec<(i128, T)>, right: Vec<(i128, T)>) -> (r: Vec<
    (i128, T),
>)
    ensures
        r@ == merge_descending(left@, right@),
{
    let mut a = left;
    let mut b = right;
    let mut behind: Vec<(i128, T)> = Vec::new();
    while a.len() > 0 && b.len() > 0
        invariant
            merge_descending(left@, right@) == merge_descending(a@, b@) + behind@.reverse(),
        decreases a.len() + b.len(),
    {
        let entry = if b[b.len() - 1].0 <= a[a.len() - 1].0 {
            b.pop().unwrap()
        } else {
            a.pop().unwrap()
        };
        behind.push(entry);
    }
    if a.len() == 0 {
        append_reversed(b, behind)
    } else {
        append_reversed(a, behind)
    }
}

/// Sorts `items` by key, largest first. Entries of equal key stay in the
/// order in which they came.
pub fn sort_by_key_descending<T>(items: Vec<(i128, T)>) -> (r: Vec<(i128, T)>)
    ensures
        r@ == sort_descending(items@),
        is_descending(r@),
        r@.to_multiset() == items@.to_multiset(),
        r@.len() == items@.len(),
    decreases items@.len(),
{
    proof {
        lemma_sort_descending(items@);
    }
    if items.len() <= 1 {
        return items;
    }
    let mid = items.len() / 2;
    let mut left = items;
    let right = left.split_off(mid);
    let left = sort_by_key_descending(left);
    let right = sort_by_key_descending(right);
    merge_by_key_descending(left, right)
}

} // verus!
