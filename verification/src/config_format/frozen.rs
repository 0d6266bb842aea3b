use vstd::prelude::*;

verus! {

/// A collection with room for at most `N` items that only ever grows: an item
/// can be appended and read, never removed or replaced.
///
/// Its view is the sequence of the items in the order in which they were
/// appended.
pub struct FrozenVec<T, const N: usize> {
    items: Vec<T>,
}

impl<T, const N: usize> View for FrozenVec<T, N> {
    type V = Seq<T>;

    closed spec fn view(&self) -> Seq<T> {
        self.items@
    }
}

/// What a sequence of items becomes when `item` is appended to a collection
/// with room for `capacity` items: a full collection stays as it is.
pub open spec fn appended<T>(items: Seq<T>, capacity: nat, item: T) -> Seq<T> {
    if items.len() < capacity {
        items.push(item)
    } else {
        items
    }
}

/// What a sequence of items becomes when the items of `more` are appended one
/// after the other to a collection with room for `capacity` items.
pub open spec fn appended_all<T>(items: Seq<T>, capacity: nat, more: Seq<T>) -> Seq<T>
    decreases more.len(),
{
    if more.len() == 0 {
        items
    } else {
        appended(appended_all(items, capacity, more.drop_last()), capacity, more.last())
    }
}

impl<T, const N: usize> FrozenVec<T, N> {
    #[verifier::type_invariant]
    spec fn within_capacity(self) -> bool {
        self.items@.len() <= N
    }

    /// An empty collection with room for `N` items.
    pub fn new() -> (vec: Self)
        ensures
            vec@ == Seq::<T>::empty(),
    {
        FrozenVec { items: Vec::new() }
    }

    /// Appends `item` if there is room for it, and hands it back if there is
    /// none.
    pub fn push(&mut self, item: T) -> (res: Result<(), T>)
        ensures
            final(self)@ == appended(old(self)@, N as nat, item),
            old(self)@.len() < N ==> res == Ok::<(), T>(()),
            old(self)@.len() >= N ==> res == Err::<(), T>(item),
    {
        if self.is_full() {
            Err(item)
        } else {
            self.push_unchecked(item);
            Ok(())
        }
    }

    /// Appends `item` if there is room for it and returns a reference to it in
    /// its place; hands it back if there is no room.
    pub fn push_get(&mut self, item: T) -> (res: Result<&T, T>)
        ensures
            final(self)@ == appended(old(self)@, N as nat, item),
            old(self)@.len() < N ==> res == Ok::<&T, T>(&item),
            old(self)@.len() >= N ==> res == Err::<&T, T>(item),
    {
        if self.is_full() {
            Err(item)
        } else {
            Ok(self.push_get_unchecked(item))
        }
    }

    /// Appends `item` to a collection that is not full and returns a reference
    /// to it in its place.
    pub fn push_get_unchecked(&mut self, item: T) -> (pushed: &T)
        requires
            old(self)@.len() < N,
        ensures
            final(self)@ == old(self)@.push(item),
            *pushed == item,
    {
        self.push_unchecked(item);
        let last = self.items.len() - 1;
        &self.items[last]
    }

    /// Appends `item` to a collection that is not full.
    pub fn push_unchecked(&mut self, item: T)
        requires
            old(self)@.len() < N,
        ensures
            final(self)@ == old(self)@.push(item),
    {
        let mut items: Vec<T> = Vec::new();
        core::mem::swap(&mut items, &mut self.items);
        items.push(item);
        core::mem::swap(&mut items, &mut self.items);
    }

    /// The item at `index`, if there is one.
    pub fn get(&self, index: usize) -> (item: Option<&T>)
        ensures
            index < self@.len() ==> item == Some(&self@[index as int]),
            index >= self@.len() ==> item.is_none(),
    {
        if index < self.len() {
            Some(self.get_unchecked(index))
        } else {
            None
        }
    }

    /// The item at `index`, which has to be below the length.
    pub fn get_unchecked(&self, index: usize) -> (item: &T)
        requires
            index < self@.len(),
        ensures
            *item == self@[index as int],
    {
        &self.items[index]
    }

    /// An iterator over the items, first to last.
    pub fn iter(&self) -> (iter: Iter<'_, T, N>)
        ensures
            iter.items() == self@,
            iter.position() == 0,
    {
        Iter { vec: self, idx: 0 }
    }

    /// Whether there is no room left.
    pub fn is_full(&self) -> (full: bool)
        ensures
            full == (self@.len() == N),
            self@.len() <= N,
    {
        self.len() == self.capacity()
    }

    /// Whether nothing was appended yet.
    pub fn is_empty(&self) -> (empty: bool)
        ensures
            empty == (self@.len() == 0),
    {
        self.len() == 0
    }

    /// The number of items appended so far: never more than `N`.
    pub fn len(&self) -> (len: usize)
        ensures
            len == self@.len(),
            len <= N,
    {
        proof {
            use_type_invariant(self);
        }
        self.items.len()
    }

    /// The number of items that the collection has room for.
    pub fn capacity(&self) -> (capacity: usize)
        ensures
            capacity == N,
    {
        N
    }
}

impl<T: Clone, const N: usize> Clone for FrozenVec<T, N> {
    /// A collection of the same length whose items are the clones of this
    /// one's, in the same order.
    fn clone(&self) -> (copy: Self)
        ensures
            copy@.len() == self@.len(),
            forall|i: int| 0 <= i < self@.len() ==> cloned::<T>(self@[i], #[trigger] copy@[i]),
    {
        let len = self.len();
        let mut items: Vec<T> = Vec::new();
        let mut i: usize = 0;
        while i < len
            invariant
                i <= len,
                len == self@.len(),
                items@.len() == i,
                forall|j: int| 0 <= j < i ==> cloned::<T>(self@[j], #[trigger] items@[j]),
            decreases len - i,
        {
            items.push(self.get_unchecked(i).clone());
            i += 1;
        }
        FrozenVec { items }
    }
}

impl<T, const N: usize> Default for FrozenVec<T, N> {
    fn default() -> (vec: Self)
        ensures
            vec@ == Seq::<T>::empty(),
    {
        Self::new()
    }
}

impl<T, const N: usize> core::ops::Index<usize> for FrozenVec<T, N> {
    type Output = T;

    /// The item at `index`, which has to be below the length.
    fn index(&self, index: usize) -> (item: &T)
        ensures
            *item == self@[index as int],
    {
        self.get_unchecked(index)
    }
}

impl<T, const N: usize> vstd::std_specs::core::IndexSpecImpl<usize> for FrozenVec<T, N> {
    open spec fn index_req(&self, index: &usize) -> bool {
        *index < self@.len()
    }
}

/// A pass over the items of a [`FrozenVec`], first to last.
pub struct Iter<'a, T, const N: usize> {
    vec: &'a FrozenVec<T, N>,
    idx: usize,
}

impl<'a, T, const N: usize> Iter<'a, T, N> {
    /// The items of the collection that is iterated over.
    pub closed spec fn items(&self) -> Seq<T> {
        self.vec@
    }

    /// The number of items yielded so far.
    pub closed spec fn position(&self) -> int {
        self.idx as int
    }

    /// The next item, or `None` when all were yielded.
    pub fn next(&mut self) -> (item: Option<&'a T>)
        ensures
            final(self).items() == old(self).items(),
            old(self).position() < old(self).items().len() ==> item == Some(
                &old(self).items()[old(self).position()],
            ) && final(self).position() == old(self).position() + 1,
            old(self).position() >= old(self).items().len() ==> item.is_none()
                && final(self).position() == old(self).position(),
    {
        if self.idx < self.vec.len() {
            let ret = self.vec.get_unchecked(self.idx);
            self.idx += 1;
            Some(ret)
        } else {
            None
        }
    }
}

/// Appending never takes the length above the capacity, and a full
/// collection is left as it is.
pub proof fn lemma_capacity_is_kept<T>(items: Seq<T>, capacity: nat, item: T)
    requires
        items.len() <= capacity,
    ensures
        appended(items, capacity, item).len() <= capacity,
        items.len() == capacity ==> appended(items, capacity, item) == items,
        items.len() < capacity ==> appended(items, capacity, item).len() == items.len() + 1,
{
}

/// Appending leaves every item that is already there in its place and
/// unchanged: what was read once is read again at the same index.
pub proof fn lemma_items_stay<T>(items: Seq<T>, capacity: nat, item: T, i: int)
    requires
        0 <= i < items.len(),
    ensures
        appended(items, capacity, item)[i] == items[i],
        items.len() <= appended(items, capacity, item).len(),
{
}

/// Appending the items of one list and then those of another is appending the
/// items of both in one go.
pub proof fn lemma_appended_all_twice<T>(items: Seq<T>, capacity: nat, first: Seq<T>, then: Seq<T>)
    ensures
        appended_all(appended_all(items, capacity, first), capacity, then) == appended_all(
            items,
            capacity,
            first + then,
        ),
    decreases then.len(),
{
    if then.len() == 0 {
        assert(first + then =~= first);
    } else {
        lemma_appended_all_twice(items, capacity, first, then.drop_last());
        assert((first + then).drop_last() =~= first + then.drop_last());
    }
}

/// Appending the items of `more` keeps as many from the front of `more` as
/// there is room for, in their order, and leaves out the rest. So appending to
/// an empty collection keeps the first `capacity` items of `more`.
pub proof fn lemma_appended_all_is_prefix<T>(items: Seq<T>, capacity: nat, more: Seq<T>)
    requires
        items.len() <= capacity,
    ensures
        items.len() + more.len() <= capacity ==> appended_all(items, capacity, more) == items
            + more,
        items.len() + more.len() > capacity ==> appended_all(items, capacity, more) == items
            + more.take(capacity - items.len()),
        appended_all(items, capacity, more).len() <= capacity,
    decreases more.len(),
{
    if more.len() > 0 {
        let front = more.drop_last();
        let room = capacity - items.len();
        lemma_appended_all_is_prefix(items, capacity, front);
        if items.len() + more.len() <= capacity {
            assert((items + front).push(more.last()) =~= items + more);
        } else if items.len() + more.len() == capacity + 1 {
            assert(items + front =~= items + more.take(room));
        } else {
            assert(front.take(room) =~= more.take(room));
        }
    } else {
        assert(items + more =~= items);
    }
}

} // verus!
