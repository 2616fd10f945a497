//! An error-reporting core: a report value wraps an underlying error,
//! accumulates ordered human-authored context (notes and warnings) as the
//! failure propagates upward, records a trace captured at the point of
//! origin, and renders the causal chain on demand through a pluggable
//! traversal strategy.

mod chain;
mod context;
mod error;
mod indent;
mod report;
mod strategy;
mod text;
mod trace;

pub use chain::Chain;
pub use chain::ChainState;
pub use chain::lemma_forward_reverse_consistency;
pub use chain::pending_nodes;
pub use context::ContextExt;
pub use context::ContextList;
pub use context::ContextObject;
pub use context::ErrorContext;
pub use context::Sealed;
pub use context::StdError;
pub use context::context_text;
pub use context::entry_block;
pub use context::entry_tag;
pub use context::entry_text;
pub use error::ErrorObj;
pub use error::chain_msgs;
pub use error::chain_nodes;
pub use error::lemma_chain_nodes_head;
pub use error::lemma_chain_nodes_tail;
pub use indent::Indented;
pub use indent::indented_block;
pub use indent::split_lines;
pub use indent::trim;
pub use indent::written;
pub use report::ErrorReporter;
pub use report::display_text;
pub use report::summary_tail;
pub use strategy::ErrorFormatter;
pub use strategy::ErrorInfo;
pub use strategy::RootCauseFirst;
pub use strategy::RootCauseLast;
pub use strategy::numbered_from;
pub use strategy::rendered;
pub use trace::TraceCapture;
pub use trace::span_text;
pub use trace::stack_text;
pub use trace::trace_text;
