//! The model of an underlying error: a displayable message together with an
//! optional predecessor ("caused by") error. The transitive predecessors of
//! an error form its causal chain, outermost error first.

use vstd::prelude::*;

verus! {

/// An underlying error value: a human-readable message and an optional
/// predecessor error that caused it.
pub struct ErrorObj {
    pub message: String,
    pub source: Option<Box<ErrorObj>>,
}

/// The causal chain of an error: the error itself followed by its
/// transitive predecessors, outermost first.
pub open spec fn chain_nodes(e: ErrorObj) -> Seq<ErrorObj>
    decreases e,
{
    match e.source {
        None => seq![e],
        Some(s) => seq![e] + chain_nodes(*s),
    }
}

/// The messages along the causal chain of an error, outermost first.
pub open spec fn chain_msgs(e: ErrorObj) -> Seq<Seq<char>> {
    chain_nodes(e).map(|i: int, n: ErrorObj| n.message@)
}

/// A causal chain always begins with the error itself.
pub proof fn lemma_chain_nodes_head(e: ErrorObj)
    ensures
        chain_nodes(e).len() >= 1,
        chain_nodes(e)[0] == e,
{
}

/// Dropping the head of a causal chain leaves the predecessor's chain.
pub proof fn lemma_chain_nodes_tail(e: ErrorObj)
    ensures
        e.source is None ==> chain_nodes(e).drop_first() == Seq::<ErrorObj>::empty(),
        e.source matches Some(s) ==> chain_nodes(e).drop_first() == chain_nodes(*s),
{
    match e.source {
        None => {
            assert(chain_nodes(e).drop_first() =~= Seq::<ErrorObj>::empty());
        },
        Some(s) => {
            assert(chain_nodes(e).drop_first() =~= chain_nodes(*s));
        },
    }
}

impl ErrorObj {
    /// An error with no predecessor.
    pub fn new(message: String) -> (r: ErrorObj)
        ensures
            r.message == message,
            r.source is None,
            chain_nodes(r) == seq![r],
    {
        let r = ErrorObj { message, source: None };
        proof {
            lemma_chain_nodes_head(r);
        }
        r
    }

    /// An error caused by `source`.
    pub fn with_source(message: String, source: ErrorObj) -> (r: ErrorObj)
        ensures
            r.message == message,
            r.source matches Some(s) && *s == source,
            chain_nodes(r) == seq![r] + chain_nodes(source),
    {
        ErrorObj { message, source: Some(Box::new(source)) }
    }

    /// The predecessor of this error, if any.
    pub fn source(&self) -> (r: Option<&ErrorObj>)
        ensures
            self.source is None ==> r is None,
            self.source matches Some(s) ==> (r matches Some(x) && *x == *s),
    {
        match &self.source {
            None => None,
            Some(b) => Some(&**b),
        }
    }
}

} // verus!
