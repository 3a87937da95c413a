use vstd::prelude::*;

verus! {

/// An immutable, stack-allocated singly linked list in which each list
/// borrows its parent: appending produces a new list that points back at the
/// old one, and the old one stays usable.
#[derive(Debug, Clone, Copy)]
pub struct ParentedList<'p, T> {
    last: Option<ParentNode<'p, T>>,
}

/// One node of a [`ParentedList`]: a value and the node before it.
#[derive(Debug, Clone, Copy)]
pub struct ParentNode<'p, T> {
    parent: Option<&'p ParentNode<'p, T>>,
    pub value: T,
}

/// Walks a [`ParentedList`] from the most recently appended value back to
/// the first one.
#[derive(Debug, Clone, Copy)]
pub struct ParentedListIterator<'i, 'p, T> {
    next: Option<&'i ParentNode<'p, T>>,
}

/// The values of the chain that starts at `node`, newest first.
pub closed spec fn node_values<'p, T>(node: ParentNode<'p, T>) -> Seq<T>
    decreases node,
{
    match node.parent {
        Some(p) => seq![node.value] + node_values(*p),
        None => seq![node.value],
    }
}

/// The values of an optional chain, newest first.
pub closed spec fn chain_values<'p, T>(node: Option<ParentNode<'p, T>>) -> Seq<T> {
    match node {
        Some(n) => node_values(n),
        None => Seq::empty(),
    }
}

impl<'p, T> View for ParentedList<'p, T> {
    type V = Seq<T>;

    /// The values of the list, the most recently appended one first.
    closed spec fn view(&self) -> Seq<T> {
        chain_values(self.last)
    }
}

impl<'i, 'p, T> View for ParentedListIterator<'i, 'p, T> {
    type V = Seq<T>;

    /// The values the iterator has yet to yield, in the order it yields them.
    closed spec fn view(&self) -> Seq<T> {
        match self.next {
            Some(n) => node_values(*n),
            None => Seq::empty(),
        }
    }
}

impl<'p, T> ParentNode<'p, T> {
    /// The node this one was appended to, if any.
    pub fn parent(&self) -> (r: Option<&'p ParentNode<'p, T>>)
        ensures
            r is None <==> node_values(*self).len() == 1,
            r matches Some(p) ==> node_values(*p) == node_values(*self).drop_first(),
    {
        proof {
            match self.parent {
                Some(p) => {
                    assert(node_values(*self).drop_first() =~= node_values(*p));
                }
                None => {}
            }
        }
        self.parent
    }
}

impl<'p, T> ParentedList<'p, T> {
    /// The empty list.
    pub fn new() -> (r: Self)
        ensures
            r@ == Seq::<T>::empty(),
    {
        ParentedList { last: None }
    }

    /// The node holding the most recently appended value, if any.
    pub fn last(&self) -> (r: Option<&ParentNode<'p, T>>)
        ensures
            r is None <==> self@.len() == 0,
            r matches Some(n) ==> node_values(*n) == self@,
    {
        match &self.last {
            Some(n) => Some(n),
            None => None,
        }
    }

    /// A new list holding `value` in front of all values of `self`; `self`
    /// is left untouched.
    pub fn with_appended<'s>(&'s self, value: T) -> (r: ParentedList<'s, T>)
        where 's: 'p
        ensures
            r@ == seq![value] + self@,
    {
        let r = ParentedList {
            last: Some(ParentNode {
                parent: match &self.last {
                    Some(n) => Some(n),
                    None => None,
                },
                value,
            }),
        };
        proof {
            assert(self@ == chain_values(self.last));
            match &self.last {
                Some(n) => {
                    assert(r@ == seq![value] + node_values(*n));
                }
                None => {
                    assert(r@ =~= seq![value] + self@);
                }
            }
        }
        r
    }

    /// An iterator over the values, the most recently appended first.
    pub fn iter<'s>(&'s self) -> (r: ParentedListIterator<'s, 'p, T>)
        ensures
            r@ == self@,
    {
        ParentedListIterator {
            next: match &self.last {
                Some(n) => Some(n),
                None => None,
            },
        }
    }
}

impl<'p, T> Default for ParentedList<'p, T> {
    fn default() -> (r: Self)
        ensures
            r@ == Seq::<T>::empty(),
    {
        ParentedList { last: None }
    }
}

impl<'i, 'p, T> ParentedListIterator<'i, 'p, T> {
    /// Yields the next value, or `None` once every value has been yielded.
    pub fn next(&mut self) -> (r: Option<&'i T>)
        ensures
            old(self)@.len() == 0 ==> r is None && final(self)@ == old(self)@,
            old(self)@.len() > 0 ==> (r matches Some(v) && *v == old(self)@[0]
                && final(self)@ == old(self)@.drop_first()),
    {
        match self.next {
            None => None,
            Some(current) => {
                self.next = current.parent;
                proof {
                    assert(node_values(*current).drop_first() =~= match current.parent {
                        Some(p) => node_values(*p),
                        None => Seq::empty(),
                    });
                }
                Some(&current.value)
            }
        }
    }
}

} // verus!
