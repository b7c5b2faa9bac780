//! A list that grows and shrinks at both ends.

use vstd::prelude::*;
use std::collections::VecDeque;
use std::rc::Rc;

verus! {

/// A double-ended list. The items cannot be changed once they are in the
/// list.
pub struct LinkedList<T> {
    items: VecDeque<T>,
}

impl<T> View for LinkedList<T> {
    type V = Seq<T>;

    closed spec fn view(&self) -> Seq<T> {
        self.items@
    }
}

impl<T> LinkedList<T> {
    /// An empty list.
    pub fn new() -> (r: LinkedList<T>)
        ensures
            r@ == Seq::<T>::empty(),
    {
        LinkedList { items: VecDeque::new() }
    }

    /// Pushes the data item to the end of the list.
    pub fn push(&mut self, data: T)
        ensures
            final(self)@ == old(self)@.push(data),
    {
        self.items.push_back(data);
    }

    /// Pushes the data item to the front of the list.
    pub fn push_front(&mut self, data: T)
        ensures
            final(self)@ == seq![data] + old(self)@,
    {
        self.items.push_front(data);
    }

    /// Removes the last item from the list and returns it, or returns `None`
    /// if the list is empty.
    pub fn pop(&mut self) -> (r: Option<Rc<T>>)
        ensures
            old(self)@.len() == 0 ==> r is None && final(self)@ == old(self)@,
            old(self)@.len() > 0 ==> r is Some && *r->0 == old(self)@.last() && final(self)@
                == old(self)@.drop_last(),
    {
        match self.items.pop_back() {
            None => None,
            Some(data) => Some(Rc::new(data)),
        }
    }

    /// Removes the first item from the list and returns it, or returns
    /// `None` if the list is empty.
    pub fn pop_front(&mut self) -> (r: Option<Rc<T>>)
        ensures
            old(self)@.len() == 0 ==> r is None && final(self)@ == old(self)@,
            old(self)@.len() > 0 ==> r is Some && *r->0 == old(self)@.first() && final(self)@
                == old(self)@.drop_first(),
    {
        match self.items.pop_front() {
            None => None,
            Some(data) => Some(Rc::new(data)),
        }
    }

    /// Returns the number of items in the list.
    pub fn len(&self) -> (r: usize)
        ensures
            r == self@.len(),
    {
        self.items.len()
    }

    /// Whether the list holds no item.
    pub fn is_empty(&self) -> (r: bool)
        ensures
            r == (self@.len() == 0),
    {
        self.items.len() == 0
    }

    /// The item at `index`, counted from the front.
    pub fn get(&self, index: usize) -> (r: Option<&T>)
        ensures
            index < self@.len() ==> r is Some && *r->0 == self@[index as int],
            index >= self@.len() ==> r is None,
    {
        if index < self.items.len() {
            Some(&self.items[index])
        } else {
            None
        }
    }
}

} // verus!
