//! The report container: it owns one underlying error, one ordered context
//! list, and one trace captured when the error was first wrapped, and it is
//! parameterized at the type level by the strategy that renders it.

use core::marker::PhantomData;
use vstd::prelude::*;

use crate::chain::Chain;
use crate::context::ContextList;
use crate::context::ContextObject;
use crate::context::ErrorContext;
use crate::error::ErrorObj;
use crate::error::chain_msgs;
use crate::error::chain_nodes;
use crate::error::lemma_chain_nodes_tail;
use crate::strategy::ErrorFormatter;
use crate::strategy::ErrorInfo;
use crate::strategy::rendered;
use crate::text::append_str;
use crate::text::chars_to_string;
use crate::trace::TraceCapture;
use crate::trace::span_text;
use crate::trace::stack_text;

verus! {

/// The single-line summary chain after the root message: `": <cause>"` for
/// each cause, oldest first.
pub open spec fn summary_tail(msgs: Seq<Seq<char>>) -> Seq<char>
    decreases msgs.len(),
{
    if msgs.len() == 0 {
        Seq::<char>::empty()
    } else {
        seq![':', ' '] + msgs[0] + summary_tail(msgs.drop_first())
    }
}

/// The short-form display of a causal chain: the root message alone, or, in
/// alternate mode, the root message followed by `": <cause>"` for every
/// later cause in oldest-first order.
pub open spec fn display_text(msgs: Seq<Seq<char>>, alternate: bool) -> Seq<char>
    recommends
        msgs.len() >= 1,
{
    if alternate {
        msgs[0] + summary_tail(msgs.drop_first())
    } else {
        msgs[0]
    }
}

/// A general-purpose error report: one type-erased underlying error, the
/// ordered context attached while propagating, and the trace captured at the
/// original wrap point. The type parameter selects the strategy that renders
/// the full report.
pub struct ErrorReporter<F: ErrorFormatter> {
    pub error: ErrorObj,
    pub context: ContextList,
    pub trace: TraceCapture,
    pub strategy: PhantomData<F>,
}

impl<F: ErrorFormatter> ErrorReporter<F> {
    /// Wraps an underlying error: the context list starts empty and the
    /// trace is captured immediately, at this wrap point.
    pub fn from_error(error: ErrorObj) -> (r: ErrorReporter<F>)
        ensures
            r.error == error,
            r.context@ == Seq::<ContextObject>::empty(),
            stack_text(r.trace) is None,
            span_text(r.trace) == Seq::<char>::empty(),
    {
        ErrorReporter {
            error,
            context: ContextList::new(),
            trace: TraceCapture::capture(),
            strategy: PhantomData,
        }
    }

    /// Wraps an underlying error together with a trace a capture backend
    /// produced at the wrap point.
    pub fn from_parts(error: ErrorObj, trace: TraceCapture) -> (r: ErrorReporter<F>)
        ensures
            r.error == error,
            r.context@ == Seq::<ContextObject>::empty(),
            r.trace == trace,
    {
        ErrorReporter { error, context: ContextList::new(), trace, strategy: PhantomData }
    }

    /// The underlying error.
    pub fn error(&self) -> (r: &ErrorObj)
        ensures
            *r == self.error,
    {
        &self.error
    }

    /// A fresh causal chain rooted at the underlying error. Repeated calls
    /// are side-effect-free and always yield the same sequence.
    pub fn chain(&self) -> (r: Chain<'_>)
        ensures
            r.remaining() == chain_nodes(self.error),
            !r.is_buffered(),
    {
        Chain::new(&self.error)
    }

    /// Appends a note to the context list; the underlying error, its causal
    /// chain, and the captured trace are untouched.
    pub fn note(&mut self, message: String)
        ensures
            final(self).context@ == old(self).context@.push(ContextObject::Note(message)),
            final(self).error == old(self).error,
            final(self).trace == old(self).trace,
    {
        self.context.push(ContextObject::Note(message));
    }

    /// Appends a warning to the context list; the underlying error, its
    /// causal chain, and the captured trace are untouched.
    pub fn warn(&mut self, message: String)
        ensures
            final(self).context@ == old(self).context@.push(ContextObject::Warn(message)),
            final(self).error == old(self).error,
            final(self).trace == old(self).trace,
    {
        self.context.push(ContextObject::Warn(message));
    }

    /// The short-form display: the root message, plus the one-line summary
    /// chain of every later cause when `alternate` is requested.
    pub fn display(&self, alternate: bool) -> (r: String)
        ensures
            r@ == display_text(chain_msgs(self.error), alternate),
    {
        let mut out: Vec<char> = Vec::new();
        append_str(&mut out, self.error.message.as_str());
        let ghost msgs = chain_msgs(self.error);
        proof {
            assert(msgs[0] == self.error.message@);
            assert(out@ =~= msgs[0]);
        }
        if alternate {
            let mut cur: Option<&ErrorObj> = self.error.source();
            proof {
                lemma_chain_nodes_tail(self.error);
                assert(pending_msgs(cur) =~= msgs.drop_first());
            }
            while cur.is_some()
                invariant
                    msgs[0] + summary_tail(msgs.drop_first()) =~= out@ + summary_tail(
                        pending_msgs(cur),
                    ),
                decreases pending_msgs(cur).len(),
            {
                let cause = cur.unwrap();
                let ghost pre = pending_msgs(cur);
                append_str(&mut out, ": ");
                proof {
                    reveal_strlit(": ");
                    assert(": "@ =~= seq![':', ' ']);
                    assert(pre[0] == cause.message@);
                }
                append_str(&mut out, cause.message.as_str());
                cur = cause.source();
                proof {
                    lemma_chain_nodes_tail(*cause);
                    assert(pending_msgs(cur) =~= pre.drop_first());
                }
            }
            proof {
                assert(summary_tail(pending_msgs(cur)) =~= Seq::<char>::empty());
                assert(out@ =~= msgs[0] + summary_tail(msgs.drop_first()));
            }
        }
        chars_to_string(&out)
    }

    /// The long-form rendering. In alternate mode this is the raw diagnostic
    /// dump: only the root error's own text, bypassing strategy, context,
    /// and trace. Otherwise the selected strategy renders the numbered
    /// causal chain followed by the context list and the trace.
    pub fn debug(&self, alternate: bool) -> (r: String)
        requires
            chain_msgs(self.error).len() <= usize::MAX,
        ensures
            alternate ==> r@ == self.error.message@,
            !alternate ==> r@ == rendered(
                F::chain_order(chain_msgs(self.error)),
                self.context@,
                self.trace,
            ),
    {
        if alternate {
            self.error.message.as_str().to_owned()
        } else {
            F::fmt_error(
                ErrorInfo { error: &self.error, context: &self.context, trace: &self.trace },
            )
        }
    }
}

/// The messages still pending on a walk down the predecessor links.
pub open spec fn pending_msgs(cur: Option<&ErrorObj>) -> Seq<Seq<char>> {
    match cur {
        None => Seq::<Seq<char>>::empty(),
        Some(e) => chain_msgs(*e),
    }
}

} // verus!
