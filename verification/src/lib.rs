//! Sans-IO pipelines: chains of handlers that turn a raw transport stream into
//! application messages and back, with no I/O of their own.
//!
//! Three variants share one verified chain: [`Pipeline`] for a pipeline owned
//! by one task, [`RcPipeline`] for one shared within a thread and
//! [`ArcPipeline`] for one shared across threads; a shared one is held behind
//! a `RefCell` or a lock, since every operation takes it by `&mut`.  [`Protocol`] is a simpler
//! interface for a protocol that needs no chain.

pub mod arc_pipeline;
pub mod bootstrap;
pub mod handler;
pub mod laws;
pub mod notify;
pub mod pipeline;
pub mod pipeline_internal;
pub mod protocol;
pub mod rc_pipeline;

pub use arc_pipeline::{ArcInboundPipeline, ArcOutboundPipeline, ArcPipeline};
pub use handler::{Context, Handler};
pub use notify::NotifyCallback;
pub use pipeline::{InboundPipeline, OutboundPipeline, Pipeline};
pub use pipeline_internal::{RemoveError, RemoveErrorKind};
pub use protocol::Protocol;
pub use rc_pipeline::{RcInboundPipeline, RcOutboundPipeline, RcPipeline};
