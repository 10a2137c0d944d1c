//! A vector whose elements are addressed by handles of one type, so that a
//! handle of one arena cannot index another.

use std::marker::PhantomData;
use vstd::prelude::*;

verus! {

/// A handle: a position in an arena, wrapped in a type of its own.
pub trait VecIndex: Sized {
    /// The position that the handle stands for. A handle type says what it
    /// is; until it does, nothing is known of it.
    open spec fn as_index(self) -> usize {
        arbitrary()
    }

    fn get(self) -> (index: usize)
        ensures
            index == self.as_index(),
    ;

    fn new(index: usize) -> (handle: Self)
        ensures
            handle.as_index() == index,
    ;
}

/// An arena: elements are only ever added, so a handle stays valid.
#[derive(Debug)]
pub struct IndexVec<T, I: VecIndex> {
    pub underlying: Vec<T>,
    marker: PhantomData<I>,
}

impl<T, I: VecIndex> View for IndexVec<T, I> {
    type V = Seq<T>;

    /// The elements, in the order of their handles.
    closed spec fn view(&self) -> Seq<T> {
        self.underlying@
    }
}

impl<T: Clone, I: VecIndex> Clone for IndexVec<T, I> {
    fn clone(&self) -> (copy: Self)
        ensures
            copy@.len() == self@.len(),
            forall|i: int| 0 <= i < self@.len() ==> cloned::<T>(#[trigger] self@[i], copy@[i]),
    {
        IndexVec { underlying: self.underlying.clone(), marker: PhantomData }
    }
}

impl<T, I: VecIndex> Default for IndexVec<T, I> {
    fn default() -> (arena: Self)
        ensures
            arena@ == Seq::<T>::empty(),
    {
        IndexVec { underlying: Vec::new(), marker: PhantomData }
    }
}

impl<T, I: VecIndex> vstd::std_specs::core::IndexSpecImpl<I> for IndexVec<T, I> {
    open spec fn index_req(&self, index: &I) -> bool {
        index.as_index() < self@.len()
    }
}

impl<T, I: VecIndex> std::ops::Index<I> for IndexVec<T, I> {
    type Output = T;

    fn index(&self, index: I) -> (element: &T)
        ensures
            *element == self@[index.as_index() as int],
    {
        &self.underlying[index.get()]
    }
}

impl<T, I: VecIndex> IndexVec<T, I> {
    /// An empty arena.
    pub fn new() -> (arena: Self)
        ensures
            arena@ == Seq::<T>::empty(),
    {
        IndexVec { underlying: Vec::new(), marker: PhantomData }
    }

    /// The number of elements.
    pub fn len(&self) -> (length: usize)
        ensures
            length == self@.len(),
    {
        self.underlying.len()
    }

    /// Adds an element and returns its handle.
    pub fn push(&mut self, element: T) -> (handle: I)
        ensures
            final(self)@ == old(self)@.push(element),
            handle.as_index() == old(self)@.len(),
            final(self)@.len() <= usize::MAX,
    {
        self.underlying.push(element);
        I::new(self.underlying.len() - 1)
    }

    /// The element at `index`, to be changed in place.
    pub fn get_mut(&mut self, index: I) -> (element: &mut T)
        requires
            index.as_index() < old(self)@.len(),
        ensures
            *element == old(self)@[index.as_index() as int],
            final(self)@ == old(self)@.update(index.as_index() as int, *final(element)),
    {
        let position = index.get();
        &mut self.underlying[position]
    }

    /// Puts `element` in the place of the element at `index`.
    pub fn set(&mut self, index: I, element: T)
        requires
            index.as_index() < old(self)@.len(),
        ensures
            final(self)@ == old(self)@.update(index.as_index() as int, element),
    {
        let position = index.get();
        self.underlying[position] = element;
    }
}

} // verus!
