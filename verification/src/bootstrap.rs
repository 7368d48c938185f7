//! The decisions of the I/O loop that drives a pipeline over a transport.
//!
//! The loop itself (sockets, timers, the close signal) belongs to the I/O
//! layer.  Each time it wakes up it hands what woke it to
//! [`handle_transport_event`], which feeds the pipeline and says whether the
//! loop goes on.  Before it waits again the loop writes out what
//! `poll_write` yields and asks `poll_timeout` for its next deadline; when it
//! leaves, it calls `transport_inactive`.

use vstd::prelude::*;

use crate::handler::{Delivery, Handler, InboundEvent};
use crate::rc_pipeline::{RcInboundPipeline, RcPipeline};

verus! {

/// The kind of transport a loop reads from.
pub enum TransportKind {
    /// A byte stream (TCP): a read of no bytes means the peer closed its side.
    Stream,
    /// Datagrams (UDP): an empty datagram carries nothing.
    Datagram,
}

/// What woke the I/O loop of a transport.
pub enum TransportEvent<M> {
    /// The bootstrap was asked to stop.
    Closed,
    /// A message was written to the pipeline and waits to be sent.
    WriteReady,
    /// The pipeline's deadline passed; the time is now the given one.
    Timer(std::time::Instant),
    /// A read from the transport returned `len` bytes, which `msg` carries.
    Received { len: usize, msg: M },
    /// A receive yielded nothing at all: no datagram in a batch, or the end of
    /// a stream.
    Ended,
    /// Reading from the transport failed.
    ReceiveFailed,
}

/// What the pipeline is fed when `ev` wakes the loop of a `kind` transport, if
/// anything: a timer becomes a timeout; bytes that arrived become a read; a
/// stream read of no bytes becomes the end of the stream, and an empty
/// datagram is dropped; a receive that yields nothing ends the stream.
pub open spec fn pipeline_input<M, E>(kind: TransportKind, ev: TransportEvent<M>) -> Option<
    Delivery<M, E>,
> {
    match ev {
        TransportEvent::Timer(now) => Some(Delivery::Inbound(InboundEvent::Timeout(now))),
        TransportEvent::Ended => Some(Delivery::Inbound(InboundEvent::Eof)),
        TransportEvent::Received { len, msg } => {
            if len > 0 {
                Some(Delivery::Inbound(InboundEvent::Read(msg)))
            } else if kind is Stream {
                Some(Delivery::Inbound(InboundEvent::Eof))
            } else {
                None
            }
        },
        _ => None,
    }
}

/// Whether the loop goes on after `ev`: it stops when asked to, when reading
/// fails, at the end of a stream and when a receive yields nothing.
pub open spec fn keeps_running<M>(kind: TransportKind, ev: TransportEvent<M>) -> bool {
    match ev {
        TransportEvent::Closed => false,
        TransportEvent::ReceiveFailed => false,
        TransportEvent::Ended => false,
        TransportEvent::Received { len, .. } => len > 0 || kind is Datagram,
        _ => true,
    }
}

/// Feeds what woke the I/O loop of a `kind` transport to the pipeline, as
/// [`pipeline_input`] says, and says whether the loop goes on.  The other
/// events leave the pipeline as it is (a write is sent by the loop's next
/// round of `poll_write`).
pub fn handle_transport_event<M, E, H: Handler<M, E>>(
    pipeline: &mut RcPipeline<M, E, H>,
    kind: TransportKind,
    ev: TransportEvent<M>,
) -> (keep_running: bool)
    ensures
        keep_running == keeps_running(kind, ev),
        !keep_running <==> ({
            ||| ev is Closed
            ||| ev is ReceiveFailed
            ||| ev is Ended
            ||| ev matches TransportEvent::Received { len, .. } && len == 0 && kind is Stream
        }),
        ev is WriteReady ==> *final(pipeline) == *old(pipeline),
        ev matches TransportEvent::Timer(now) ==> final(pipeline).entered(
            *old(pipeline),
            Delivery::Inbound(InboundEvent::Timeout(now)),
        ),
        match pipeline_input::<M, E>(kind, ev) {
            Some(d) => {
                &&& final(pipeline).entered(*old(pipeline), d)
                &&& old(pipeline).entries().len() == 0 ==> final(pipeline).only_delivered(
                    *old(pipeline),
                    d,
                )
                &&& !old(pipeline).is_finalized() ==> final(pipeline).reached_first_only(
                    *old(pipeline),
                    d,
                )
            },
            None => *final(pipeline) == *old(pipeline),
        },
{
    match ev {
        TransportEvent::Closed => false,
        TransportEvent::WriteReady => true,
        TransportEvent::Timer(now) => {
            pipeline.handle_timeout(now);
            true
        },
        TransportEvent::Received { len, msg } => {
            if len > 0 {
                pipeline.handle_read(msg);
                true
            } else {
                match kind {
                    TransportKind::Stream => {
                        pipeline.handle_eof();
                        false
                    },
                    TransportKind::Datagram => true,
                }
            }
        },
        TransportEvent::Ended => {
            pipeline.handle_eof();
            false
        },
        TransportEvent::ReceiveFailed => false,
    }
}

} // verus!
