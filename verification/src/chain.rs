//! A restartable, bidirectional, length-aware cursor over an error and its
//! transitive predecessors.
//!
//! The cursor starts in the `Linked` state, stepping lazily from each error
//! to its predecessor. Backward traversal forces the whole chain to be
//! materialized once into the `Buffered` state; a buffered chain never
//! reverts to `Linked`.

use vstd::prelude::*;

use crate::error::ErrorObj;
use crate::error::chain_nodes;
use crate::error::lemma_chain_nodes_tail;

verus! {

/// An iterator over an error and its sources.
pub struct Chain<'a> {
    pub state: ChainState<'a>,
}

pub enum ChainState<'a> {
    /// Still walking predecessor links; `next` is the next pending error.
    Linked { next: Option<&'a ErrorObj> },
    /// Fully materialized: the remaining elements, in forward order.
    Buffered { rest: Vec<&'a ErrorObj> },
}

/// The chain rooted at a pending reference: empty once exhausted.
pub open spec fn pending_nodes(next: Option<&ErrorObj>) -> Seq<ErrorObj> {
    match next {
        None => Seq::<ErrorObj>::empty(),
        Some(e) => chain_nodes(*e),
    }
}

impl<'a> Chain<'a> {
    /// The elements this cursor has yet to yield, in forward order
    /// (outermost error first, deepest root cause last).
    pub open spec fn remaining(self) -> Seq<ErrorObj> {
        match self.state {
            ChainState::Linked { next } => pending_nodes(next),
            ChainState::Buffered { rest } => rest@.map_values(|r: &ErrorObj| *r),
        }
    }

    /// Whether the chain has been materialized.
    pub open spec fn is_buffered(self) -> bool {
        self.state is Buffered
    }

    /// A fresh cursor over `head` and its transitive predecessors.
    pub fn new(head: &'a ErrorObj) -> (r: Chain<'a>)
        ensures
            r.remaining() == chain_nodes(*head),
            !r.is_buffered(),
    {
        Chain { state: ChainState::Linked { next: Some(head) } }
    }

    /// Yields the next element in forward order, advancing the cursor.
    pub fn next(&mut self) -> (r: Option<&'a ErrorObj>)
        ensures
            old(self).remaining().len() == 0 ==> r is None,
            old(self).remaining().len() > 0 ==> (r matches Some(e)
                && *e == old(self).remaining()[0]
                && final(self).remaining() == old(self).remaining().drop_first()),
            old(self).remaining().len() == 0 ==> final(self).remaining()
                == old(self).remaining(),
            final(self).is_buffered() == old(self).is_buffered(),
    {
        match &mut self.state {
            ChainState::Linked { next } => {
                match *next {
                    None => None,
                    Some(error) => {
                        *next = error.source();
                        proof {
                            lemma_chain_nodes_tail(*error);
                        }
                        Some(error)
                    },
                }
            },
            ChainState::Buffered { rest } => {
                if rest.len() == 0 {
                    proof {
                        assert(old(self).remaining() =~= Seq::<ErrorObj>::empty());
                    }
                    None
                } else {
                    let e = rest.remove(0);
                    proof {
                        assert(final(self).remaining() =~= old(
                            self,
                        ).remaining().drop_first());
                    }
                    Some(e)
                }
            },
        }
    }

    /// Yields the next element in backward order (deepest root cause first).
    /// The first backward step from the `Linked` state walks the whole chain
    /// and materializes it; the chain is `Buffered` from then on.
    pub fn next_back(&mut self) -> (r: Option<&'a ErrorObj>)
        ensures
            old(self).remaining().len() == 0 ==> r is None,
            old(self).remaining().len() > 0 ==> (r matches Some(e)
                && *e == old(self).remaining().last()
                && final(self).remaining() == old(self).remaining().drop_last()),
            old(self).remaining().len() == 0 ==> final(self).remaining()
                == old(self).remaining(),
            final(self).is_buffered(),
    {
        let ghost all = self.remaining();
        match &mut self.state {
            ChainState::Linked { next } => {
                let mut rest: Vec<&'a ErrorObj> = Vec::new();
                let mut cur: Option<&'a ErrorObj> = *next;
                while cur.is_some()
                    invariant
                        rest@.map_values(|r: &ErrorObj| *r) + pending_nodes(cur) =~= all,
                    decreases pending_nodes(cur).len(),
                {
                    let cause = cur.unwrap();
                    rest.push(cause);
                    cur = cause.source();
                    proof {
                        lemma_chain_nodes_tail(*cause);
                        assert(rest@.map_values(|r: &ErrorObj| *r) + pending_nodes(cur)
                            =~= all);
                    }
                }
                proof {
                    assert(rest@.map_values(|r: &ErrorObj| *r) =~= all);
                }
                let last = rest.pop();
                proof {
                    if all.len() > 0 {
                        assert(rest@.map_values(|r: &ErrorObj| *r) =~= all.drop_last());
                    }
                }
                self.state = ChainState::Buffered { rest };
                last
            },
            ChainState::Buffered { rest } => {
                let last = rest.pop();
                proof {
                    if all.len() > 0 {
                        assert(rest@.map_values(|r: &ErrorObj| *r) =~= all.drop_last());
                    }
                }
                last
            },
        }
    }

    /// The number of elements still to be yielded in forward order. Walking
    /// the chain for its length is a read-only probe: the cursor does not
    /// move, so later iteration is unaffected.
    pub fn len(&self) -> (r: usize)
        requires
            self.remaining().len() <= usize::MAX,
        ensures
            r == self.remaining().len(),
    {
        match &self.state {
            ChainState::Linked { next } => {
                let mut cur: Option<&'a ErrorObj> = *next;
                let mut len: usize = 0;
                while cur.is_some()
                    invariant
                        len + pending_nodes(cur).len() == self.remaining().len(),
                        self.remaining().len() <= usize::MAX,
                    decreases pending_nodes(cur).len(),
                {
                    let cause = cur.unwrap();
                    cur = cause.source();
                    len = len + 1;
                    proof {
                        lemma_chain_nodes_tail(*cause);
                    }
                }
                len
            },
            ChainState::Buffered { rest } => rest.len(),
        }
    }

    /// Lower and upper bounds on the number of remaining elements; both
    /// equal the exact length.
    pub fn size_hint(&self) -> (r: (usize, Option<usize>))
        requires
            self.remaining().len() <= usize::MAX,
        ensures
            r.0 == self.remaining().len(),
            r.1 matches Some(hi) && hi == self.remaining().len(),
    {
        let len = self.len();
        (len, Some(len))
    }
}

/// Forward-then-reverse consistency. Forward iteration visits `remaining()`
/// front to back, and backward iteration visits it back to front — each
/// `next` yields the first of `remaining()` and each `next_back` the last —
/// so the elements collected forward equal the elements collected backward
/// once that backward collection is reversed again.
pub proof fn lemma_forward_reverse_consistency(c: Chain<'_>)
    ensures
        c.remaining().reverse().reverse() == c.remaining(),
{
    assert(c.remaining().reverse().reverse() =~= c.remaining());
}

impl<'a> Default for Chain<'a> {
    /// The empty chain: already buffered, with nothing to yield.
    fn default() -> (r: Chain<'a>)
        ensures
            r.remaining() == Seq::<ErrorObj>::empty(),
            r.is_buffered(),
    {
        let r = Chain { state: ChainState::Buffered { rest: Vec::new() } };
        proof {
            assert(r.remaining() =~= Seq::<ErrorObj>::empty());
        }
        r
    }
}

} // verus!
