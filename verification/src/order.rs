use vstd::prelude::*;

verus! {

/// Things that are kept in an order.
pub trait Ordered: Sized {
    /// Whether this comes before another.
    spec fn precedes(&self, other: &Self) -> bool;

    /// Nothing comes before what comes before it.
    proof fn lemma_asymmetric(&self, other: &Self)
        ensures
            self.precedes(other) ==> !other.precedes(self),
    ;

    /// What comes before nothing that comes before nothing before a third comes before none.
    proof fn lemma_negatively_transitive(&self, other: &Self, third: &Self)
        ensures
            !self.precedes(other) && !other.precedes(third) ==> !self.precedes(third),
    ;

    /// Whether this comes before another.
    fn comes_before(&self, other: &Self) -> (result: bool)
        ensures
            result == self.precedes(other),
    ;
}

/// Whether nothing in a list stands behind something that it comes before.
pub open spec fn is_sorted<T: Ordered>(list: Seq<T>) -> bool {
    forall|i: int, j: int|
        #![trigger list[i], list[j]]
        0 <= i < j < list.len() ==> !list[j].precedes(&list[i])
}

/// The place of an item in a sorted list: behind everything that it does not come before.
pub open spec fn is_place<T: Ordered>(list: Seq<T>, item: T, place: int) -> bool {
    &&& 0 <= place <= list.len()
    &&& forall|i: int|
        #![trigger list[i]]
        0 <= i < place ==> !item.precedes(&list[i])
    &&& forall|i: int|
        #![trigger list[i]]
        place <= i < list.len() ==> item.precedes(&list[i])
}

/// Put an item in its place in a sorted list.
pub fn insert_sorted<T: Ordered>(list: &mut Vec<T>, item: T)
    requires
        is_sorted(old(list)@),
    ensures
        is_sorted(final(list)@),
        exists|place: int| #[trigger]
            is_place(old(list)@, item, place) && final(list)@ == old(list)@.insert(place, item),
{
    let mut place: usize = list.len();
    while place > 0 && item.comes_before(&list[place - 1])
        invariant
            place <= list@.len(),
            forall|i: int|
                #![trigger list@[i]]
                place <= i < list@.len() ==> item.precedes(&list@[i]),
        decreases place,
    {
        place = place - 1;
    }
    let ghost before = list@;
    proof {
        assert forall|i: int|
            #![trigger before[i]]
            0 <= i < place implies !item.precedes(&before[i]) by {
            if i < place - 1 {
                item.lemma_negatively_transitive(&before[place - 1], &before[i]);
            }
        }
        assert forall|i: int|
            #![trigger before[i]]
            place <= i < before.len() implies !before[i].precedes(&item) by {
            item.lemma_asymmetric(&before[i]);
        }
    }
    list.insert(place, item);
    assert(is_place(before, item, place as int));
    assert(is_sorted(list@)) by {
        let after = list@;
        assert forall|i: int, j: int|
            #![trigger after[i], after[j]]
            0 <= i < j < after.len() implies !after[j].precedes(&after[i]) by {
            let p = place as int;
            let from_i = if i < p { i } else { i - 1 };
            let from_j = if j < p { j } else { j - 1 };
            if i != p && j != p {
                assert(after[i] == before[from_i]);
                assert(after[j] == before[from_j]);
            } else if i == p {
                assert(after[j] == before[from_j]);
            } else {
                assert(after[i] == before[from_i]);
            }
        }
    }
}

/// An item is put behind everything that it does not come before and in front of the rest, and
/// nothing else changes its place.
pub proof fn law_item_is_put_in_its_place<T: Ordered>(list: &mut Vec<T>, item: T)
    requires
        is_sorted(old(list)@),
        call_ensures(insert_sorted::<T>, (list, item), ()),
    ensures
        exists|place: int|
            #![trigger old(list)@.insert(place, item)]
            {
                &&& 0 <= place <= old(list)@.len()
                &&& final(list)@ == old(list)@.insert(place, item)
                &&& forall|i: int|
                    0 <= i < place ==> !item.precedes(&#[trigger] old(list)@[i])
                &&& forall|i: int|
                    place <= i < old(list)@.len() ==> item.precedes(&#[trigger] old(list)@[i])
            },
{
    let place = choose|place: int| #[trigger]
        is_place(old(list)@, item, place) && final(list)@ == old(list)@.insert(place, item);
    assert(final(list)@ == old(list)@.insert(place, item));
}

} // verus!
