//! Tests for the report container and the two formatting strategies:
//! context ordering, trace preservation, traversal order, and the short and
//! long display forms.

use reporter::ContextExt;
use reporter::ContextObject;
use reporter::ErrorObj;
use reporter::ErrorReporter;
use reporter::RootCauseFirst;
use reporter::RootCauseLast;
use reporter::StdError;
use reporter::TraceCapture;

fn three_causes() -> ErrorObj {
    let c = ErrorObj::new("C".to_string());
    let b = ErrorObj::with_source("B".to_string(), c);
    ErrorObj::with_source("A".to_string(), b)
}

#[test]
fn root_cause_first_renders_deepest_first() {
    let rep = ErrorReporter::<RootCauseFirst>::from_error(three_causes());
    assert_eq!(rep.debug(false), "\n    0: C\n    1: B\n    2: A\n\n");
}

#[test]
fn root_cause_last_renders_outermost_first() {
    let rep = ErrorReporter::<RootCauseLast>::from_error(three_causes());
    assert_eq!(rep.debug(false), "\n    0: A\n    1: B\n    2: C\n\n");
}

#[test]
fn single_cause_still_gets_one_numbered_line() {
    let rep = ErrorReporter::<RootCauseLast>::from_error(ErrorObj::new("boom".to_string()));
    assert_eq!(rep.debug(false), "\n    0: boom\n\n");
}

#[test]
fn note_then_warn_render_in_insertion_order() {
    let mut rep = ErrorReporter::<RootCauseLast>::from_error(ErrorObj::new("boom".to_string()));
    rep.note("a".to_string());
    rep.warn("b".to_string());
    assert_eq!(rep.debug(false), "\n    0: boom\n\nNote:\n    a\nWarn:\n    b\n");
}

#[test]
fn empty_context_renders_no_tagged_block() {
    let rep = ErrorReporter::<RootCauseLast>::from_error(ErrorObj::new("boom".to_string()));
    let out = rep.debug(false);
    assert!(!out.contains("Note:"));
    assert!(!out.contains("Warn:"));
}

#[test]
fn multi_line_cause_is_aligned() {
    let rep = ErrorReporter::<RootCauseLast>::from_error(ErrorObj::new(
        "verify\nthis".to_string(),
    ));
    assert_eq!(rep.debug(false), "\n    0: verify\n       this\n\n");
}

#[test]
fn attaching_context_to_report_preserves_trace() {
    let trace = TraceCapture::new(Some("frame one".to_string()), "span one".to_string());
    let rep = ErrorReporter::<RootCauseLast>::from_parts(
        ErrorObj::new("boom".to_string()),
        trace,
    );
    let rep = rep.ext_context(ContextObject::Note("more".to_string()));
    assert_eq!(rep.trace.stack, Some("frame one".to_string()));
    assert_eq!(rep.trace.span, "span one".to_string());

    let rep = rep.ext_context(ContextObject::Warn("again".to_string()));
    assert_eq!(rep.trace.stack, Some("frame one".to_string()));
    assert_eq!(rep.trace.span, "span one".to_string());
}

#[test]
fn attaching_context_to_raw_error_captures_fresh_trace() {
    let raw = ErrorObj::new("raw".to_string());
    let rep: ErrorReporter<RootCauseLast> =
        raw.ext_context(ContextObject::Note("n".to_string()));
    assert!(rep.trace.stack.is_none());
    assert_eq!(rep.trace.span, String::new());
    assert_eq!(rep.context.entries.len(), 1);
}

#[test]
fn captured_stack_is_rendered_with_header() {
    let trace = TraceCapture::new(Some("frame one".to_string()), "span one".to_string());
    let rep = ErrorReporter::<RootCauseLast>::from_parts(
        ErrorObj::new("boom".to_string()),
        trace,
    );
    assert_eq!(
        rep.debug(false),
        "\n    0: boom\n\nspan one\n\nStack backtrace:\nframe one"
    );
}

#[test]
fn uncaptured_stack_is_omitted() {
    let trace = TraceCapture::new(None, "span one".to_string());
    let rep = ErrorReporter::<RootCauseLast>::from_parts(
        ErrorObj::new("boom".to_string()),
        trace,
    );
    assert_eq!(rep.debug(false), "\n    0: boom\n\nspan one");
}

#[test]
fn display_shows_root_message_only() {
    let rep = ErrorReporter::<RootCauseLast>::from_error(three_causes());
    assert_eq!(rep.display(false), "A");
}

#[test]
fn display_alternate_shows_summary_chain() {
    let rep = ErrorReporter::<RootCauseLast>::from_error(three_causes());
    assert_eq!(rep.display(true), "A: B: C");
}

#[test]
fn debug_alternate_shows_root_error_only() {
    let mut rep = ErrorReporter::<RootCauseFirst>::from_error(three_causes());
    rep.note("ignored in raw dumps".to_string());
    assert_eq!(rep.debug(true), "A");
}

#[test]
fn chain_accessor_walks_the_owned_error() {
    let rep = ErrorReporter::<RootCauseLast>::from_error(three_causes());
    let mut chain = rep.chain();
    assert_eq!(chain.len(), 3);
    assert_eq!(chain.next().unwrap().message, "A");
    let mut again = rep.chain();
    assert_eq!(again.len(), 3);
    assert_eq!(again.next().unwrap().message, "A");
    assert_eq!(rep.error().message, "A");
}

#[test]
fn result_note_wraps_the_error_path() {
    let bad: Result<i32, ErrorObj> = Err(ErrorObj::new("bad".to_string()));
    let wrapped: Result<i32, ErrorReporter<RootCauseLast>> = bad.note("context".to_string());
    match wrapped {
        Ok(_) => panic!("error path expected"),
        Err(rep) => {
            assert_eq!(rep.error.message, "bad");
            assert_eq!(rep.context.entries.len(), 1);
            match &rep.context.entries[0] {
                ContextObject::Note(s) => assert_eq!(s, "context"),
                ContextObject::Warn(_) => panic!("a note was attached"),
            }
        },
    }
}

#[test]
fn result_note_passes_ok_through() {
    let good: Result<i32, ErrorObj> = Ok(5);
    let wrapped: Result<i32, ErrorReporter<RootCauseLast>> = good.note("unused".to_string());
    match wrapped {
        Ok(v) => assert_eq!(v, 5),
        Err(_) => panic!("success path expected"),
    }
}

#[test]
fn result_with_note_is_lazy_and_accumulates() {
    let bad: Result<i32, ErrorObj> = Err(ErrorObj::new("bad".to_string()));
    let once: Result<i32, ErrorReporter<RootCauseLast>> =
        bad.with_note(|| "first".to_string());
    let twice = once.with_note(|| "second".to_string());
    match twice {
        Ok(_) => panic!("error path expected"),
        Err(rep) => {
            assert_eq!(rep.context.entries.len(), 2);
            match &rep.context.entries[1] {
                ContextObject::Note(s) => assert_eq!(s, "second"),
                ContextObject::Warn(_) => panic!("a note was attached"),
            }
        },
    }
}
