//! The pluggable policy that renders a report: it chooses the order in which
//! the causal chain is walked (oldest cause first or newest first), numbers
//! each cause through the indentation renderer, and appends the context list
//! and the captured trace.

use vstd::prelude::*;

use crate::chain::Chain;
use crate::context::ContextList;
use crate::context::ContextObject;
use crate::context::context_text;
use crate::context::push_context;
use crate::error::ErrorObj;
use crate::error::chain_msgs;
use crate::error::chain_nodes;
use crate::indent::Indented;
use crate::indent::indented_block;
use crate::text::chars_to_string;
use crate::trace::TraceCapture;
use crate::trace::push_trace;
use crate::trace::trace_text;

verus! {

/// Everything a strategy needs to render one report: the underlying error,
/// the attached context, and the captured trace.
pub struct ErrorInfo<'a> {
    pub error: &'a ErrorObj,
    pub context: &'a ContextList,
    pub trace: &'a TraceCapture,
}

/// The numbered cause blocks for `msgs`, ordinals counting up from `i`, one
/// line break after each block.
pub open spec fn numbered_from(msgs: Seq<Seq<char>>, i: nat) -> Seq<char>
    decreases msgs.len(),
{
    if msgs.len() == 0 {
        Seq::<char>::empty()
    } else {
        indented_block(msgs[0], Some(i as usize)) + seq!['\n'] + numbered_from(
            msgs.drop_first(),
            i + 1,
        )
    }
}

/// The full rendering of a report whose causes, already in the order the
/// strategy walks them, are `msgs`: a leading line break, the numbered cause
/// blocks, a blank line, then the context list and the trace.
pub open spec fn rendered(
    msgs: Seq<Seq<char>>,
    entries: Seq<ContextObject>,
    t: TraceCapture,
) -> Seq<char> {
    seq!['\n'] + numbered_from(msgs, 0) + seq!['\n'] + context_text(entries) + trace_text(
        t,
    )
}

/// A formatting strategy: a traversal order over the causal chain, and a
/// renderer that walks the chain in that order.
pub trait ErrorFormatter {
    /// The order in which this strategy walks the causal chain, given the
    /// chain's messages in forward order (outermost error first).
    spec fn chain_order(msgs: Seq<Seq<char>>) -> Seq<Seq<char>>;

    /// Renders the report: causes in this strategy's order, each numbered
    /// from zero, then the context list and the trace.
    fn fmt_error(info: ErrorInfo<'_>) -> (r: String)
        requires
            chain_msgs(*info.error).len() <= usize::MAX,
        ensures
            r@ == rendered(
                Self::chain_order(chain_msgs(*info.error)),
                info.context@,
                *info.trace,
            ),
    ;
}

/// Renders the deepest root cause first and the originally-reported error
/// last.
pub struct RootCauseFirst;

/// Renders the originally-reported error first and the deepest root cause
/// last.
pub struct RootCauseLast;

impl ErrorFormatter for RootCauseFirst {
    open spec fn chain_order(msgs: Seq<Seq<char>>) -> Seq<Seq<char>> {
        msgs.reverse()
    }

    fn fmt_error(info: ErrorInfo<'_>) -> (r: String) {
        let ghost msgs = chain_msgs(*info.error);
        let ghost order = msgs.reverse();
        let mut out: Vec<char> = Vec::new();
        out.push('\n');
        let mut errors = Chain::new(info.error);
        let n = errors.len();
        proof {
            assert(errors.remaining().map_values(|e: ErrorObj| e.message@) =~= msgs);
            if msgs.len() == 0 {
                assert(order =~= Seq::<Seq<char>>::empty());
            } else {
                assert(order =~= Seq::new(msgs.len(), |k: int| msgs[msgs.len() - 1 - k]));
            }
            assert(order.len() == msgs.len());
            assert(order.subrange(0, n as int) =~= order);
            assert(out@ =~= seq!['\n']);
        }
        let mut i: usize = 0;
        while i < n
            invariant
                i <= n,
                n == order.len(),
                n == msgs.len(),
                order == msgs.reverse(),
                errors.remaining().map_values(|e: ErrorObj| e.message@) =~= msgs.subrange(
                    0,
                    n - i,
                ),
                seq!['\n'] + numbered_from(order, 0) =~= out@ + numbered_from(
                    order.subrange(i as int, n as int),
                    i as nat,
                ),
            decreases n - i,
        {
            let ghost rest = order.subrange(i as int, n as int);
            proof {
                assert(rest[0] == order[i as int]);
                assert(rest.drop_first() =~= order.subrange(i as int + 1, n as int));
                assert(errors.remaining().map_values(|e: ErrorObj| e.message@).len()
                    == errors.remaining().len());
                assert(errors.remaining().len() == n - i);
            }
            let item = errors.next_back();
            let error = item.unwrap();
            proof {
                assert(error.message@ == msgs.subrange(0, n - i).last());
                assert(order =~= Seq::new(msgs.len(), |k: int| msgs[msgs.len() - 1 - k]));
                assert(order[i as int] == msgs[n - 1 - i as int]);
                assert(error.message@ == order[i as int]);
            }
            let mut w = Indented::numbered(i);
            w.write_str(error.message.as_str());
            out.append(&mut w.out);
            out.push('\n');
            i = i + 1;
            proof {
                assert(errors.remaining().map_values(|e: ErrorObj| e.message@)
                    =~= msgs.subrange(0, n - i));
                assert(seq!['\n'] + numbered_from(order, 0) =~= out@ + numbered_from(
                    order.subrange(i as int, n as int),
                    i as nat,
                ));
            }
        }
        proof {
            assert(numbered_from(order.subrange(n as int, n as int), n as nat)
                =~= Seq::<char>::empty());
            assert(out@ =~= seq!['\n'] + numbered_from(order, 0));
        }
        out.push('\n');
        push_context(&mut out, info.context);
        push_trace(&mut out, info.trace);
        let r = chars_to_string(&out);
        proof {
            assert(r@ =~= rendered(order, info.context@, *info.trace));
        }
        r
    }
}

impl ErrorFormatter for RootCauseLast {
    open spec fn chain_order(msgs: Seq<Seq<char>>) -> Seq<Seq<char>> {
        msgs
    }

    fn fmt_error(info: ErrorInfo<'_>) -> (r: String) {
        let ghost msgs = chain_msgs(*info.error);
        let mut out: Vec<char> = Vec::new();
        out.push('\n');
        let mut errors = Chain::new(info.error);
        let n = errors.len();
        proof {
            assert(errors.remaining().map_values(|e: ErrorObj| e.message@) =~= msgs);
            assert(msgs.subrange(0, n as int) =~= msgs);
            assert(out@ =~= seq!['\n']);
        }
        let mut i: usize = 0;
        while i < n
            invariant
                i <= n,
                n == msgs.len(),
                errors.remaining().map_values(|e: ErrorObj| e.message@) =~= msgs.subrange(
                    i as int,
                    n as int,
                ),
                seq!['\n'] + numbered_from(msgs, 0) =~= out@ + numbered_from(
                    msgs.subrange(i as int, n as int),
                    i as nat,
                ),
            decreases n - i,
        {
            let ghost rest = msgs.subrange(i as int, n as int);
            proof {
                assert(rest[0] == msgs[i as int]);
                assert(rest.drop_first() =~= msgs.subrange(i as int + 1, n as int));
                assert(errors.remaining().len() == n - i);
            }
            let item = errors.next();
            let error = item.unwrap();
            proof {
                assert(error.message@ == msgs[i as int]);
            }
            let mut w = Indented::numbered(i);
            w.write_str(error.message.as_str());
            out.append(&mut w.out);
            out.push('\n');
            i = i + 1;
            proof {
                assert(errors.remaining().map_values(|e: ErrorObj| e.message@)
                    =~= msgs.subrange(i as int, n as int));
                assert(seq!['\n'] + numbered_from(msgs, 0) =~= out@ + numbered_from(
                    msgs.subrange(i as int, n as int),
                    i as nat,
                ));
            }
        }
        proof {
            assert(numbered_from(msgs.subrange(n as int, n as int), n as nat)
                =~= Seq::<char>::empty());
            assert(out@ =~= seq!['\n'] + numbered_from(msgs, 0));
        }
        out.push('\n');
        push_context(&mut out, info.context);
        push_trace(&mut out, info.trace);
        let r = chars_to_string(&out);
        proof {
            assert(r@ =~= rendered(msgs, info.context@, *info.trace));
        }
        r
    }
}

} // verus!
