//! The trace recorded when an error is first wrapped into a report: a
//! low-level stack trace that may be "not captured", and a higher-level span
//! trace that is always present but may be empty. The capture backend is an
//! external collaborator; this crate holds only the displayable snapshot.

use vstd::prelude::*;

use crate::text::append_str;

verus! {

/// A snapshot of execution location, taken once at report-creation time and
/// immutable thereafter.
pub struct TraceCapture {
    /// The stack trace's display text; `None` records that the capture did
    /// not succeed.
    pub stack: Option<String>,
    /// The span trace's display text; always captured, possibly empty.
    pub span: String,
}

/// The stack portion as text, when it was captured.
pub open spec fn stack_text(t: TraceCapture) -> Option<Seq<char>> {
    match t.stack {
        Some(s) => Some(s@),
        None => None,
    }
}

/// The span portion as text.
pub open spec fn span_text(t: TraceCapture) -> Seq<char> {
    t.span@
}

/// The rendering of a trace: the span trace verbatim, then — only if the
/// stack capture succeeded — a blank line, a capitalized header, and the
/// stack trace verbatim.
pub open spec fn trace_text(t: TraceCapture) -> Seq<char> {
    match stack_text(t) {
        None => span_text(t),
        Some(s) => span_text(t) + seq!['\n', '\n'] + stack_header() + seq!['\n'] + s,
    }
}

/// The header above a captured stack trace.
pub open spec fn stack_header() -> Seq<char> {
    seq!['S', 't', 'a', 'c', 'k', ' ', 'b', 'a', 'c', 'k', 't', 'r', 'a', 'c', 'e', ':']
}

impl TraceCapture {
    /// A snapshot assembled from the two captures' display texts.
    pub fn new(stack: Option<String>, span: String) -> (r: TraceCapture)
        ensures
            r.stack == stack,
            r.span == span,
    {
        TraceCapture { stack, span }
    }

    /// Captures a trace now. This crate carries no capture backend of its
    /// own, so the stack portion is recorded as "not captured" and the span
    /// portion is empty; a backend's output can be carried in through
    /// `new` instead.
    pub fn capture() -> (r: TraceCapture)
        ensures
            stack_text(r) is None,
            span_text(r) == Seq::<char>::empty(),
    {
        TraceCapture { stack: None, span: String::new() }
    }
}

/// Appends the rendering of `t` to `out`.
pub fn push_trace(out: &mut Vec<char>, t: &TraceCapture)
    ensures
        final(out)@ == old(out)@ + trace_text(*t),
{
    append_str(out, t.span.as_str());
    match &t.stack {
        None => {},
        Some(s) => {
            out.push('\n');
            out.push('\n');
            append_str(out, "Stack backtrace:");
            proof {
                reveal_strlit("Stack backtrace:");
                assert("Stack backtrace:"@ =~= stack_header());
            }
            out.push('\n');
            append_str(out, s.as_str());
            proof {
                assert(final(out)@ =~= old(out)@ + trace_text(*t));
            }
        },
    }
}

} // verus!
