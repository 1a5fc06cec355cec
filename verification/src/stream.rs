//! A cursor over a shared sequence: random access and lookahead.

use vstd::prelude::*;
use std::sync::Arc;
use crate::sharing::share;

verus! {

/// A sequence of nodes and a position in it. The nodes are shared between
/// the copies of a stream; the position is each copy's own.
#[derive(Debug)]
pub struct Stream<T: Clone> {
    nodes: Arc<Vec<T>>,
    index: usize,
}

impl<T: Clone> Stream<T> {
    /// The position never lies behind the end of the nodes.
    #[verifier::type_invariant]
    spec fn in_bounds(self) -> bool {
        self.index <= self.nodes@.len()
    }

    /// All the nodes, consumed or not.
    pub closed spec fn items(&self) -> Seq<T> {
        self.nodes@
    }

    /// The number of nodes consumed.
    pub closed spec fn position(&self) -> int {
        self.index as int
    }

    pub fn new(nodes: Vec<T>) -> (r: Self)
        ensures
            r.items() == nodes@,
            r.position() == 0,
    {
        Stream { nodes: Arc::new(nodes), index: 0 }
    }

    /// The number of nodes not yet consumed.
    pub fn len(&self) -> (r: usize)
        ensures
            0 <= self.position() <= self.items().len(),
            r == self.items().len() - self.position(),
    {
        proof {
            use_type_invariant(self);
        }
        self.nodes.len() - self.index
    }

    /// The number of all nodes.
    pub fn count(&self) -> (r: usize)
        ensures
            r == self.items().len(),
    {
        self.nodes.len()
    }

    pub fn is_exhausted(&self) -> (r: bool)
        ensures
            0 <= self.position() <= self.items().len(),
            r == (self.position() == self.items().len()),
    {
        proof {
            use_type_invariant(self);
        }
        self.index >= self.nodes.len()
    }

    /// The node at place `index`, counted from the start of the nodes.
    pub fn at(&self, index: usize) -> (r: Option<&T>)
        ensures
            r == if index < self.items().len() {
                Some(&self.items()[index as int])
            } else {
                None
            },
    {
        if index < self.nodes.len() {
            Some(&self.nodes[index])
        } else {
            None
        }
    }

    /// The next node, which stays unconsumed.
    pub fn peek(&self) -> (r: Option<&T>)
        ensures
            0 <= self.position() <= self.items().len(),
            r == if self.position() < self.items().len() {
                Some(&self.items()[self.position()])
            } else {
                None
            },
    {
        proof {
            use_type_invariant(self);
        }
        self.at(self.index)
    }

    /// The node `n` places after the next one, which stays unconsumed.
    pub fn peek_n(&self, n: usize) -> (r: Option<&T>)
        ensures
            r == if self.position() + n < self.items().len() {
                Some(&self.items()[self.position() + n])
            } else {
                None
            },
    {
        proof {
            use_type_invariant(self);
        }
        if n < self.nodes.len() - self.index {
            self.at(self.index + n)
        } else {
            None
        }
    }

    /// The next `N` nodes, which stay unconsumed; nothing where the nodes
    /// have ended.
    pub fn peek_next_n<const N: usize>(&self) -> (r: [Option<&T>; N])
        ensures
            forall|i: int|
                0 <= i < N ==> #[trigger] r@[i] == if self.position() + i < self.items().len() {
                    Some(&self.items()[self.position() + i])
                } else {
                    None
                },
    {
        let mut nodes: [Option<&T>; N] = [None; N];
        let mut i: usize = 0;
        while i < N
            invariant
                i <= N,
                forall|k: int|
                    0 <= k < i ==> #[trigger] nodes@[k] == if self.position() + k
                        < self.items().len() {
                        Some(&self.items()[self.position() + k])
                    } else {
                        None
                    },
            decreases N - i,
        {
            nodes[i] = self.peek_n(i);
            i += 1;
        }
        nodes
    }

    /// Consumes the next node, if there is one, and gives it.
    pub fn next(&mut self) -> (r: Option<&T>)
        ensures
            final(self).items() == old(self).items(),
            r == if old(self).position() < old(self).items().len() {
                Some(&old(self).items()[old(self).position()])
            } else {
                None
            },
            final(self).position() == if old(self).position() < old(self).items().len() {
                old(self).position() + 1
            } else {
                old(self).position()
            },
    {
        let index = self.index;
        if index < self.nodes.len() {
            self.index = index + 1;
        }
        self.at(index)
    }

    /// Consumes the next node, if there is one.
    pub fn advance(&mut self)
        ensures
            final(self).items() == old(self).items(),
            final(self).position() == if old(self).position() < old(self).items().len() {
                old(self).position() + 1
            } else {
                old(self).position()
            },
    {
        proof {
            use_type_invariant(&*self);
        }
        self.advance_n(1);
    }

    /// Consumes the next `n` nodes, or those that are left.
    pub fn advance_n(&mut self, n: usize)
        ensures
            final(self).items() == old(self).items(),
            final(self).position() == if old(self).position() + n <= old(self).items().len() {
                old(self).position() + n
            } else {
                old(self).items().len() as int
            },
    {
        proof {
            use_type_invariant(&*self);
        }
        let left = self.nodes.len() - self.index;
        if n < left {
            self.index = self.index + n;
        } else {
            self.index = self.nodes.len();
        }
    }
}

impl<T: Clone> Clone for Stream<T> {
    /// A copy that shares the nodes and stands at the same position.
    fn clone(&self) -> (r: Self)
        ensures
            r.items() == self.items(),
            r.position() == self.position(),
    {
        proof {
            use_type_invariant(self);
        }
        Stream { nodes: share(&self.nodes), index: self.index }
    }
}

impl<T: Clone> From<Vec<T>> for Stream<T> {
    /// A stream at the start of `nodes`.
    fn from(nodes: Vec<T>) -> (r: Self)
        ensures
            r.items() == nodes@,
            r.position() == 0,
    {
        Stream::new(nodes)
    }
}

impl<T: Clone> vstd::std_specs::convert::FromSpecImpl<Vec<T>> for Stream<T> {
    open spec fn obeys_from_spec() -> bool {
        false
    }

    open spec fn from_spec(nodes: Vec<T>) -> Self {
        arbitrary()
    }
}

} // verus!
