//! Ordered, append-only context a report accumulates as it propagates: each
//! entry is a note or a warning, attached by a call site, and rendered in
//! insertion order under its own tagged heading.

use vstd::prelude::*;

use crate::error::ErrorObj;
use crate::indent::Indented;
use crate::indent::indented_block;
use crate::report::ErrorReporter;
use crate::strategy::ErrorFormatter;
use crate::text::append_str;
use crate::trace::TraceCapture;
use crate::trace::span_text;
use crate::trace::stack_text;

verus! {

/// One attached annotation: a note or a warning, each carrying the text it
/// displays as.
pub enum ContextObject {
    Note(String),
    Warn(String),
}

/// The text a context entry displays as.
pub open spec fn entry_text(e: ContextObject) -> Seq<char> {
    match e {
        ContextObject::Note(s) => s@,
        ContextObject::Warn(s) => s@,
    }
}

/// The heading under which a context entry is rendered.
pub open spec fn entry_tag(e: ContextObject) -> Seq<char> {
    match e {
        ContextObject::Note(_) => seq!['N', 'o', 't', 'e', ':'],
        ContextObject::Warn(_) => seq!['W', 'a', 'r', 'n', ':'],
    }
}

/// The rendering of one context entry: its tagged heading, then its text
/// under the plain four-space margin.
pub open spec fn entry_block(e: ContextObject) -> Seq<char> {
    entry_tag(e) + seq!['\n'] + indented_block(entry_text(e), None) + seq!['\n']
}

/// The rendering of a whole context list, in insertion order. An empty list
/// renders as nothing at all.
pub open spec fn context_text(entries: Seq<ContextObject>) -> Seq<char>
    decreases entries.len(),
{
    if entries.len() == 0 {
        Seq::<char>::empty()
    } else {
        entry_block(entries[0]) + context_text(entries.drop_first())
    }
}

/// Helper trait for inserting context entries into a context holder.
pub trait ErrorContext {
    /// The entries held so far, in insertion order.
    spec fn entries(&self) -> Seq<ContextObject>;

    /// Appends one entry; everything already held is preserved.
    fn push(&mut self, context: ContextObject)
        ensures
            final(self).entries() == old(self).entries().push(context),
    ;
}

/// The ordered context list a report owns.
pub struct ContextList {
    pub entries: Vec<ContextObject>,
}

impl View for ContextList {
    type V = Seq<ContextObject>;

    open spec fn view(&self) -> Seq<ContextObject> {
        self.entries@
    }
}

impl ContextList {
    /// An empty context list.
    pub fn new() -> (r: ContextList)
        ensures
            r@ == Seq::<ContextObject>::empty(),
    {
        let r = ContextList { entries: Vec::new() };
        proof {
            assert(r@ =~= Seq::<ContextObject>::empty());
        }
        r
    }
}

impl ErrorContext for ContextList {
    open spec fn entries(&self) -> Seq<ContextObject> {
        self@
    }

    fn push(&mut self, context: ContextObject) {
        self.entries.push(context);
    }
}

/// Appends the rendering of `list` to `out`: each entry in insertion order,
/// tagged as a note or a warning, its text under the plain margin.
pub fn push_context(out: &mut Vec<char>, list: &ContextList)
    ensures
        final(out)@ == old(out)@ + context_text(list@),
{
    let n = list.entries.len();
    let mut j: usize = 0;
    proof {
        assert(list@.subrange(0, n as int) =~= list@);
    }
    while j < n
        invariant
            j <= n,
            n == list@.len(),
            old(out)@ + context_text(list@) =~= out@ + context_text(
                list@.subrange(j as int, n as int),
            ),
        decreases n - j,
    {
        let ghost rest = list@.subrange(j as int, n as int);
        proof {
            assert(rest[0] == list@[j as int]);
            assert(rest.drop_first() =~= list@.subrange(j as int + 1, n as int));
        }
        let entry = &list.entries[j];
        match entry {
            ContextObject::Note(s) => {
                append_str(out, "Note:");
                proof {
                    reveal_strlit("Note:");
                    assert("Note:"@ =~= entry_tag(list@[j as int]));
                }
                push_entry_text(out, s);
            },
            ContextObject::Warn(s) => {
                append_str(out, "Warn:");
                proof {
                    reveal_strlit("Warn:");
                    assert("Warn:"@ =~= entry_tag(list@[j as int]));
                }
                push_entry_text(out, s);
            },
        }
        j = j + 1;
        proof {
            assert(old(out)@ + context_text(list@) =~= out@ + context_text(
                list@.subrange(j as int, n as int),
            ));
        }
    }
    proof {
        assert(context_text(list@.subrange(n as int, n as int)) =~= Seq::<char>::empty());
        assert(final(out)@ =~= old(out)@ + context_text(list@));
    }
}

/// Appends a line break, the entry's text under the plain margin, and a
/// closing line break.
fn push_entry_text(out: &mut Vec<char>, s: &String)
    ensures
        final(out)@ == old(out)@ + seq!['\n'] + indented_block(s@, None) + seq!['\n'],
{
    out.push('\n');
    let mut w = Indented::plain();
    w.write_str(s.as_str());
    out.append(&mut w.out);
    out.push('\n');
}

/// The unifying extension point for attaching context while an error
/// propagates: a raw underlying error is first wrapped into a report (with a
/// fresh trace), while an existing report keeps its trace and its earlier
/// context; either way the new entry goes to the end of the context list.
pub trait StdError<F: ErrorFormatter>: Sized {
    /// The underlying error the resulting report wraps.
    spec fn base_error(self) -> ErrorObj;

    /// The context entries attached before this call.
    spec fn pre_entries(self) -> Seq<ContextObject>;

    /// What must hold of the resulting report's trace: a raw error captures
    /// a fresh trace at this wrap point, an existing report preserves the
    /// trace from its original wrap point.
    spec fn trace_after(self, t: TraceCapture) -> bool;

    /// Attaches one context entry, wrapping into a report first if needed.
    fn ext_context(self, context: ContextObject) -> (r: ErrorReporter<F>)
        ensures
            r.error == self.base_error(),
            r.context@ == self.pre_entries().push(context),
            self.trace_after(r.trace),
    ;
}

impl<F: ErrorFormatter> StdError<F> for ErrorObj {
    open spec fn base_error(self) -> ErrorObj {
        self
    }

    open spec fn pre_entries(self) -> Seq<ContextObject> {
        Seq::<ContextObject>::empty()
    }

    open spec fn trace_after(self, t: TraceCapture) -> bool {
        stack_text(t) is None && span_text(t) == Seq::<char>::empty()
    }

    fn ext_context(self, context: ContextObject) -> (r: ErrorReporter<F>) {
        let mut error = ErrorReporter::<F>::from_error(self);
        error.context.push(context);
        error
    }
}

impl<F: ErrorFormatter> StdError<F> for ErrorReporter<F> {
    open spec fn base_error(self) -> ErrorObj {
        self.error
    }

    open spec fn pre_entries(self) -> Seq<ContextObject> {
        self.context@
    }

    open spec fn trace_after(self, t: TraceCapture) -> bool {
        t == self.trace
    }

    fn ext_context(self, context: ContextObject) -> (r: ErrorReporter<F>) {
        let mut this = self;
        this.context.push(context);
        this
    }
}

/// Seals [`ContextExt`] to the result types it is written for.
pub trait Sealed {

}

impl<T, E> Sealed for Result<T, E> {

}

impl<T> Sealed for Option<T> {

}

/// Result combinators for attaching context on the error path, so that a
/// call site can annotate a fallible call whether the error is still raw or
/// already a report.
pub trait ContextExt<T, E, F: ErrorFormatter>: Sealed + Sized where E: StdError<F> {
    /// The result this value stands for.
    spec fn as_result(self) -> Result<T, E>;

    /// Wraps the error value, if any, with an additional note.
    fn note(self, context: String) -> (r: Result<T, ErrorReporter<F>>)
        ensures
            (match self.as_result() {
                Ok(v) => r matches Ok(rv) && rv == v,
                Err(e) => r matches Err(rep) && rep.error == e.base_error()
                    && rep.context@ == e.pre_entries().push(ContextObject::Note(context))
                    && e.trace_after(rep.trace),
            }),
    ;

    /// Wraps the error value, if any, with an additional note that is
    /// evaluated lazily, only once an error did occur.
    fn with_note<Op: FnOnce() -> String>(self, context: Op) -> (r: Result<
        T,
        ErrorReporter<F>,
    >)
        requires
            self.as_result() is Err ==> context.requires(()),
        ensures
            (match self.as_result() {
                Ok(v) => r matches Ok(rv) && rv == v,
                Err(e) => r matches Err(rep) && rep.error == e.base_error()
                    && e.trace_after(rep.trace) && exists|s: String|
                    #[trigger] context.ensures((), s) && rep.context@
                        == e.pre_entries().push(ContextObject::Note(s)),
            }),
    ;
}

impl<T, E, F: ErrorFormatter> ContextExt<T, E, F> for Result<T, E> where E: StdError<F> {
    open spec fn as_result(self) -> Result<T, E> {
        self
    }

    fn note(self, context: String) -> (r: Result<T, ErrorReporter<F>>) {
        match self {
            Ok(v) => Ok(v),
            Err(e) => Err(e.ext_context(ContextObject::Note(context))),
        }
    }

    fn with_note<Op: FnOnce() -> String>(self, context: Op) -> (r: Result<
        T,
        ErrorReporter<F>,
    >) {
        match self {
            Ok(v) => Ok(v),
            Err(e) => {
                let s = context();
                Err(e.ext_context(ContextObject::Note(s)))
            },
        }
    }
}

} // verus!
