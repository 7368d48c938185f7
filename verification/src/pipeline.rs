//! `Pipeline`: a chain of handlers owned by one task, the usual choice for a
//! connection-oriented transport where each connection has its own pipeline.
//!
//! Handlers are kept in insertion order.  An inbound event enters at the first
//! handler and moves on each time a handler fires it; an outbound message is
//! pulled from the last handler back to the first.  Messages written to the
//! pipeline wait, oldest first, in the last handler until a poll reaches it.

use vstd::prelude::*;

use crate::handler::{
    after_pop, first_then_past, front, is_name_of, is_suffix, names_of, reserved_name, Context,
    Delivery, DeliveryLog, Handler, InboundEvent,
};
use crate::pipeline_internal::{
    remove_error_message, remove_named_outcome, PipelineInternal, RemoveError, RemoveErrorKind,
};

verus! {

/// Inbound operations of a pipeline: what the transport pushes into it.
pub trait InboundPipeline<M, E> {
    /// The transport is active (connected).
    fn transport_active(&mut self);

    /// The transport is inactive (disconnected).
    fn transport_inactive(&mut self);

    /// An inbound message arrived.
    fn handle_read(&mut self, msg: M);

    /// The next outbound message to send, if any.
    fn poll_write(&mut self) -> Option<M>;

    /// Time moved on to `now`.
    fn handle_timeout(&mut self, now: std::time::Instant);

    /// Lowers `eto` to the earliest time at which a handler needs a timeout.
    fn poll_timeout(&mut self, eto: &mut std::time::Instant);

    /// The inbound stream ended.
    fn handle_eof(&mut self);

    /// An error occurred in the transport.
    fn handle_error(&mut self, err: E);
}

/// Outbound operations of a pipeline: what the application pushes into it.
pub trait OutboundPipeline<M> {
    /// Writes an outbound message.
    fn write(&mut self, msg: M);

    /// Closes the pipeline.
    fn close(&mut self);
}

/// A pipeline of handlers with exclusive ownership.
///
/// Build it with [`Pipeline::new`], [`Pipeline::add_back`] and
/// [`Pipeline::add_front`], then call [`Pipeline::finalize`]: until it is
/// finalized, and again after any change, the first handler's context leads
/// nowhere.
pub struct Pipeline<M, E, H> {
    internal: PipelineInternal<M, E, H>,
}

impl<M, E, H> Pipeline<M, E, H> {
    /// The user handlers with their names, first to last.
    pub closed spec fn entries(&self) -> Seq<(Seq<char>, H)> {
        self.internal.entries()
    }

    /// Names of the user handlers, first to last.
    pub open spec fn names(&self) -> Seq<Seq<char>> {
        names_of(self.entries())
    }

    /// The outbound messages waiting in the last handler, oldest first.
    pub closed spec fn transmits(&self) -> Seq<M> {
        self.internal.transmits()
    }

    /// Whether the pipeline was finalized since its last change.
    pub closed spec fn is_finalized(&self) -> bool {
        self.internal.is_finalized()
    }

    /// The record, kept for the proofs, of each event and poll the chain handed
    /// on, in order, each with the position of the handler it went to: the
    /// user handlers are at `0..n`, the last handler at `n`.  An entry is made
    /// as the handler is called; the contracts that speak of a user handler
    /// tie the entry to that call with `call_ensures`.
    pub closed spec fn deliveries(&self) -> DeliveryLog<M, E> {
        self.internal.deliveries()
    }

    /// `self` is what `before` became while an event went through: the same
    /// handlers in the same order, and only messages from the front of the
    /// queue taken.
    pub open spec fn settled_from(&self, before: Self) -> bool {
        &&& self.names() == before.names()
        &&& self.entries().len() == before.entries().len()
        &&& self.is_finalized() == before.is_finalized()
        &&& is_suffix(self.transmits(), before.transmits())
    }

    /// `d` entered the pipeline: it reached the first handler, or the last one
    /// when there is no user handler, before anything else, what it set off
    /// reached only handlers after that one, and the pipeline settled.
    pub open spec fn entered(&self, before: Self, d: Delivery<M, E>) -> bool {
        &&& self.settled_from(before)
        &&& first_then_past(self.deliveries(), before.deliveries(), (0nat, d))
    }

    /// `d` reached the last handler, which keeps it: nothing changed but the
    /// log of deliveries.
    pub open spec fn only_delivered(&self, before: Self, d: Delivery<M, E>) -> bool {
        &&& self.entries() == before.entries()
        &&& self.transmits() == before.transmits()
        &&& self.is_finalized() == before.is_finalized()
        &&& self.deliveries() == before.deliveries().push((0nat, d))
    }

    /// `d` reached the first handler, which could pass nothing on since the
    /// pipeline is not finalized: the queue is as it was and nothing else
    /// reached a handler.
    pub open spec fn reached_first_only(&self, before: Self, d: Delivery<M, E>) -> bool {
        &&& self.transmits() == before.transmits()
        &&& self.deliveries() == before.deliveries().push((0nat, d))
    }

    /// No user handler has the reserved name; this holds in every state a
    /// pipeline can reach.
    pub open spec fn no_reserved_name(&self) -> bool {
        !self.names().contains(reserved_name())
    }

    /// Creates an empty pipeline.
    pub fn new() -> (p: Self)
        ensures
            p.no_reserved_name(),
            p.entries() == Seq::<(Seq<char>, H)>::empty(),
            p.transmits() == Seq::<M>::empty(),
            !p.is_finalized(),
            p.deliveries() == Seq::<(nat, Delivery<M, E>)>::empty(),
    {
        Pipeline { internal: PipelineInternal::new() }
    }

    /// Removes the last user handler.
    pub fn remove_back(&mut self) -> (r: Result<&mut Self, RemoveError>)
        ensures
            r is Ok <==> old(self).entries().len() > 0,
            match r {
                Ok(p) => {
                    &&& p.entries() == old(self).entries().drop_last()
                    &&& p.transmits() == old(self).transmits()
                    &&& !p.is_finalized()
                    &&& p.deliveries() == old(self).deliveries()
                    &&& p.no_reserved_name()
                    &&& *final(self) == *final(p)
                },
                Err(e) => {
                    &&& e is NoHandlers
                    &&& *final(self) == *old(self)
                    &&& final(self).no_reserved_name()
                },
            },
    {
        match self.internal.remove_back() {
            Ok(()) => Ok(self),
            Err(e) => Err(e),
        }
    }

    /// Removes the first user handler.
    pub fn remove_front(&mut self) -> (r: Result<&mut Self, RemoveError>)
        ensures
            r is Ok <==> old(self).entries().len() > 0,
            match r {
                Ok(p) => {
                    &&& p.entries() == old(self).entries().drop_first()
                    &&& p.transmits() == old(self).transmits()
                    &&& !p.is_finalized()
                    &&& p.deliveries() == old(self).deliveries()
                    &&& p.no_reserved_name()
                    &&& *final(self) == *final(p)
                },
                Err(e) => {
                    &&& e is NoHandlers
                    &&& *final(self) == *old(self)
                    &&& final(self).no_reserved_name()
                },
            },
    {
        match self.internal.remove_front() {
            Ok(()) => Ok(self),
            Err(e) => Err(e),
        }
    }

    /// Removes every user handler named `handler_name`.  The reserved name is
    /// refused, and so is a name that no handler has.
    pub fn remove(&mut self, handler_name: &str) -> (r: Result<&mut Self, RemoveError>)
        ensures
            r is Ok <==> remove_named_outcome(old(self).entries(), handler_name@) is Ok,
            match r {
                Ok(p) => {
                    &&& p.entries() == remove_named_outcome(old(self).entries(), handler_name@)->Ok_0
                    &&& p.transmits() == old(self).transmits()
                    &&& !p.is_finalized()
                    &&& p.deliveries() == old(self).deliveries()
                    &&& p.no_reserved_name()
                    &&& *final(self) == *final(p)
                },
                Err(e) => {
                    &&& *final(self) == *old(self)
                    &&& final(self).no_reserved_name()
                    &&& remove_named_outcome(old(self).entries(), handler_name@) == Err::<
                        Seq<(Seq<char>, H)>,
                        RemoveErrorKind,
                    >(e.error_kind())
                    &&& e.message() == remove_error_message(handler_name@, e.error_kind())
                },
            },
    {
        match self.internal.remove(handler_name) {
            Ok(()) => Ok(self),
            Err(e) => Err(e),
        }
    }

    /// Number of user handlers.
    pub fn len(&self) -> (n: usize)
        ensures
            n == self.entries().len(),
    {
        self.internal.len()
    }

    /// Links every handler to the next one.
    pub fn update(&mut self)
        ensures
            final(self).no_reserved_name(),
            final(self).entries() == old(self).entries(),
            final(self).transmits() == old(self).transmits(),
            final(self).is_finalized(),
            final(self).deliveries() == old(self).deliveries(),
    {
        self.internal.finalize();
    }

    /// Finalizes the pipeline: links every handler to the next one.  Call it
    /// after building the pipeline and after any later change.
    pub fn finalize(&mut self)
        ensures
            final(self).no_reserved_name(),
            final(self).entries() == old(self).entries(),
            final(self).transmits() == old(self).transmits(),
            final(self).is_finalized(),
            final(self).deliveries() == old(self).deliveries(),
    {
        self.update();
    }
}

impl<M, E, H> Default for Pipeline<M, E, H> {
    /// An empty pipeline, as [`Pipeline::new`] makes it.
    fn default() -> (p: Self)
        ensures
            p.no_reserved_name(),
            p.entries() == Seq::<(Seq<char>, H)>::empty(),
            p.transmits() == Seq::<M>::empty(),
            !p.is_finalized(),
            p.deliveries() == Seq::<(nat, Delivery<M, E>)>::empty(),
    {
        Self::new()
    }
}

impl<M, E, H: Handler<M, E>> Pipeline<M, E, H> {
    /// Appends `handler` after the other user handlers.
    pub fn add_back(&mut self, handler: H) -> (r: &mut Self)
        ensures
            r.no_reserved_name(),
            r.entries() == old(self).entries().push((r.names().last(), handler)),
            is_name_of(handler, r.names().last()),
            r.names().last() != reserved_name(),
            r.transmits() == old(self).transmits(),
            !r.is_finalized(),
            r.deliveries() == old(self).deliveries(),
            *final(self) == *final(r),
    {
        self.internal.add_back(handler);
        self
    }

    /// Puts `handler` before the other user handlers.
    pub fn add_front(&mut self, handler: H) -> (r: &mut Self)
        ensures
            r.no_reserved_name(),
            r.entries() == seq![(r.names()[0], handler)] + old(self).entries(),
            is_name_of(handler, r.names()[0]),
            r.names()[0] != reserved_name(),
            r.transmits() == old(self).transmits(),
            !r.is_finalized(),
            r.deliveries() == old(self).deliveries(),
            *final(self) == *final(r),
    {
        self.internal.add_front(handler);
        self
    }
}

impl<M, E, H: Handler<M, E>> InboundPipeline<M, E> for Pipeline<M, E, H> {
    /// Hands the transport-active event to the first handler.
    fn transport_active(&mut self)
        ensures
            final(self).no_reserved_name(),
            final(self).entered(*old(self), Delivery::Inbound(InboundEvent::TransportActive)),
            old(self).entries().len() == 0 ==> final(self).only_delivered(
                *old(self),
                Delivery::Inbound(InboundEvent::TransportActive),
            ),
            !old(self).is_finalized() ==> final(self).reached_first_only(
                *old(self),
                Delivery::Inbound(InboundEvent::TransportActive),
            ),
            old(self).entries().len() > 0 ==> exists|hm: &mut H, cm: &mut Context<M, E, H>|
                {
                    &&& mut_ref_current(hm) == old(self).entries()[0].1
                    &&& final(self).entries()[0].1 == mut_ref_future(hm)
                    &&& mut_ref_current(cm).is_handed(
                        old(self).names(),
                        old(self).is_finalized(),
                        old(self).transmits(),
                        old(self).deliveries().push(
                            (0nat, Delivery::Inbound(InboundEvent::TransportActive)),
                        ),
                        0nat,
                    )
                    &&& final(self).transmits() == mut_ref_future(cm).transmits()
                    &&& final(self).deliveries() == mut_ref_future(cm).deliveries()
                    &&& #[trigger] call_ensures(H::transport_active, (hm, cm), ())
                },
    {
        self.internal.inbound(InboundEvent::TransportActive);
    }

    /// Hands the transport-inactive event to the first handler.
    fn transport_inactive(&mut self)
        ensures
            final(self).no_reserved_name(),
            final(self).entered(*old(self), Delivery::Inbound(InboundEvent::TransportInactive)),
            old(self).entries().len() == 0 ==> final(self).only_delivered(
                *old(self),
                Delivery::Inbound(InboundEvent::TransportInactive),
            ),
            !old(self).is_finalized() ==> final(self).reached_first_only(
                *old(self),
                Delivery::Inbound(InboundEvent::TransportInactive),
            ),
            old(self).entries().len() > 0 ==> exists|hm: &mut H, cm: &mut Context<M, E, H>|
                {
                    &&& mut_ref_current(hm) == old(self).entries()[0].1
                    &&& final(self).entries()[0].1 == mut_ref_future(hm)
                    &&& mut_ref_current(cm).is_handed(
                        old(self).names(),
                        old(self).is_finalized(),
                        old(self).transmits(),
                        old(self).deliveries().push(
                            (0nat, Delivery::Inbound(InboundEvent::TransportInactive)),
                        ),
                        0nat,
                    )
                    &&& final(self).transmits() == mut_ref_future(cm).transmits()
                    &&& final(self).deliveries() == mut_ref_future(cm).deliveries()
                    &&& #[trigger] call_ensures(H::transport_inactive, (hm, cm), ())
                },
    {
        self.internal.inbound(InboundEvent::TransportInactive);
    }

    /// Hands an inbound message to the first handler; with no user handler it
    /// reaches the last handler and goes no further.
    fn handle_read(&mut self, msg: M)
        ensures
            final(self).no_reserved_name(),
            final(self).entered(*old(self), Delivery::Inbound(InboundEvent::Read(msg))),
            old(self).entries().len() == 0 ==> final(self).only_delivered(
                *old(self),
                Delivery::Inbound(InboundEvent::Read(msg)),
            ),
            !old(self).is_finalized() ==> final(self).reached_first_only(
                *old(self),
                Delivery::Inbound(InboundEvent::Read(msg)),
            ),
            old(self).entries().len() > 0 ==> exists|hm: &mut H, cm: &mut Context<M, E, H>|
                {
                    &&& mut_ref_current(hm) == old(self).entries()[0].1
                    &&& final(self).entries()[0].1 == mut_ref_future(hm)
                    &&& mut_ref_current(cm).is_handed(
                        old(self).names(),
                        old(self).is_finalized(),
                        old(self).transmits(),
                        old(self).deliveries().push(
                            (0nat, Delivery::Inbound(InboundEvent::Read(msg))),
                        ),
                        0nat,
                    )
                    &&& final(self).transmits() == mut_ref_future(cm).transmits()
                    &&& final(self).deliveries() == mut_ref_future(cm).deliveries()
                    &&& #[trigger] call_ensures(H::handle_read, (hm, cm, msg), ())
                },
    {
        self.internal.inbound(InboundEvent::Read(msg));
    }

    /// Polls the first handler for an outbound message; with no user handler
    /// the oldest written message comes out.
    fn poll_write(&mut self) -> (r: Option<M>)
        ensures
            final(self).no_reserved_name(),
            final(self).entered(*old(self), Delivery::PollWrite),
            old(self).entries().len() == 0 ==> {
                &&& r == front(old(self).transmits())
                &&& final(self).transmits() == after_pop(old(self).transmits())
                &&& final(self).deliveries() == old(self).deliveries().push(
                    (0nat, Delivery::PollWrite),
                )
            },
            !old(self).is_finalized() && old(self).entries().len() > 0 ==> final(self)
                .reached_first_only(*old(self), Delivery::PollWrite),
            old(self).entries().len() > 0 ==> exists|
                hm: &mut H,
                cm: &mut Context<M, E, H>,
            |
                {
                    &&& mut_ref_current(hm) == old(self).entries()[0].1
                    &&& final(self).entries()[0].1 == mut_ref_future(hm)
                    &&& mut_ref_current(cm).is_handed(
                        old(self).names(),
                        old(self).is_finalized(),
                        old(self).transmits(),
                        old(self).deliveries().push((0nat, Delivery::PollWrite)),
                        0nat,
                    )
                    &&& final(self).transmits() == mut_ref_future(cm).transmits()
                    &&& final(self).deliveries() == mut_ref_future(cm).deliveries()
                    &&& #[trigger] call_ensures(H::poll_write, (hm, cm), r)
                },
    {
        self.internal.poll_write()
    }

    /// Hands a timeout event to the first handler.
    fn handle_timeout(&mut self, now: std::time::Instant)
        ensures
            final(self).no_reserved_name(),
            final(self).entered(*old(self), Delivery::Inbound(InboundEvent::Timeout(now))),
            old(self).entries().len() == 0 ==> final(self).only_delivered(
                *old(self),
                Delivery::Inbound(InboundEvent::Timeout(now)),
            ),
            !old(self).is_finalized() ==> final(self).reached_first_only(
                *old(self),
                Delivery::Inbound(InboundEvent::Timeout(now)),
            ),
            old(self).entries().len() > 0 ==> exists|hm: &mut H, cm: &mut Context<M, E, H>|
                {
                    &&& mut_ref_current(hm) == old(self).entries()[0].1
                    &&& final(self).entries()[0].1 == mut_ref_future(hm)
                    &&& mut_ref_current(cm).is_handed(
                        old(self).names(),
                        old(self).is_finalized(),
                        old(self).transmits(),
                        old(self).deliveries().push(
                            (0nat, Delivery::Inbound(InboundEvent::Timeout(now))),
                        ),
                        0nat,
                    )
                    &&& final(self).transmits() == mut_ref_future(cm).transmits()
                    &&& final(self).deliveries() == mut_ref_future(cm).deliveries()
                    &&& #[trigger] call_ensures(H::handle_timeout, (hm, cm, now), ())
                },
    {
        self.internal.inbound(InboundEvent::Timeout(now));
    }

    /// Polls the first handler for the earliest timeout it needs.
    fn poll_timeout(&mut self, eto: &mut std::time::Instant)
        ensures
            final(self).no_reserved_name(),
            final(self).entered(*old(self), Delivery::PollTimeout),
            old(self).entries().len() == 0 ==> {
                &&& final(self).only_delivered(*old(self), Delivery::PollTimeout)
                &&& *final(eto) == *old(eto)
            },
            !old(self).is_finalized() ==> final(self).reached_first_only(
                *old(self),
                Delivery::PollTimeout,
            ),
            old(self).entries().len() > 0 ==> exists|
                hm: &mut H,
                cm: &mut Context<M, E, H>,
                em: &mut std::time::Instant,
            |
                {
                    &&& mut_ref_current(hm) == old(self).entries()[0].1
                    &&& final(self).entries()[0].1 == mut_ref_future(hm)
                    &&& mut_ref_current(cm).is_handed(
                        old(self).names(),
                        old(self).is_finalized(),
                        old(self).transmits(),
                        old(self).deliveries().push((0nat, Delivery::PollTimeout)),
                        0nat,
                    )
                    &&& final(self).transmits() == mut_ref_future(cm).transmits()
                    &&& final(self).deliveries() == mut_ref_future(cm).deliveries()
                    &&& mut_ref_current(em) == *old(eto)
                    &&& mut_ref_future(em) == *final(eto)
                    &&& #[trigger] call_ensures(H::poll_timeout, (hm, cm, em), ())
                },
    {
        self.internal.poll_timeout(eto);
    }

    /// Hands the end-of-stream event to the first handler.
    fn handle_eof(&mut self)
        ensures
            final(self).no_reserved_name(),
            final(self).entered(*old(self), Delivery::Inbound(InboundEvent::Eof)),
            old(self).entries().len() == 0 ==> final(self).only_delivered(
                *old(self),
                Delivery::Inbound(InboundEvent::Eof),
            ),
            !old(self).is_finalized() ==> final(self).reached_first_only(
                *old(self),
                Delivery::Inbound(InboundEvent::Eof),
            ),
            old(self).entries().len() > 0 ==> exists|hm: &mut H, cm: &mut Context<M, E, H>|
                {
                    &&& mut_ref_current(hm) == old(self).entries()[0].1
                    &&& final(self).entries()[0].1 == mut_ref_future(hm)
                    &&& mut_ref_current(cm).is_handed(
                        old(self).names(),
                        old(self).is_finalized(),
                        old(self).transmits(),
                        old(self).deliveries().push((0nat, Delivery::Inbound(InboundEvent::Eof))),
                        0nat,
                    )
                    &&& final(self).transmits() == mut_ref_future(cm).transmits()
                    &&& final(self).deliveries() == mut_ref_future(cm).deliveries()
                    &&& #[trigger] call_ensures(H::handle_eof, (hm, cm), ())
                },
    {
        self.internal.inbound(InboundEvent::Eof);
    }

    /// Hands an error to the first handler.
    fn handle_error(&mut self, err: E)
        ensures
            final(self).no_reserved_name(),
            final(self).entered(*old(self), Delivery::Inbound(InboundEvent::Error(err))),
            old(self).entries().len() == 0 ==> final(self).only_delivered(
                *old(self),
                Delivery::Inbound(InboundEvent::Error(err)),
            ),
            !old(self).is_finalized() ==> final(self).reached_first_only(
                *old(self),
                Delivery::Inbound(InboundEvent::Error(err)),
            ),
            old(self).entries().len() > 0 ==> exists|hm: &mut H, cm: &mut Context<M, E, H>|
                {
                    &&& mut_ref_current(hm) == old(self).entries()[0].1
                    &&& final(self).entries()[0].1 == mut_ref_future(hm)
                    &&& mut_ref_current(cm).is_handed(
                        old(self).names(),
                        old(self).is_finalized(),
                        old(self).transmits(),
                        old(self).deliveries().push(
                            (0nat, Delivery::Inbound(InboundEvent::Error(err))),
                        ),
                        0nat,
                    )
                    &&& final(self).transmits() == mut_ref_future(cm).transmits()
                    &&& final(self).deliveries() == mut_ref_future(cm).deliveries()
                    &&& #[trigger] call_ensures(H::handle_error, (hm, cm, err), ())
                },
    {
        self.internal.inbound(InboundEvent::Error(err));
    }
}

impl<M, E, H: Handler<M, E>> OutboundPipeline<M> for Pipeline<M, E, H> {
    /// Queues `msg` in the last handler, behind the messages written before it.
    fn write(&mut self, msg: M)
        ensures
            final(self).no_reserved_name(),
            final(self).transmits() == old(self).transmits().push(msg),
            final(self).entries() == old(self).entries(),
            final(self).is_finalized() == old(self).is_finalized(),
            final(self).deliveries() == old(self).deliveries(),
    {
        self.internal.write(msg);
    }

    /// Hands the close event to the first handler.
    fn close(&mut self)
        ensures
            final(self).no_reserved_name(),
            final(self).entered(*old(self), Delivery::Inbound(InboundEvent::Close)),
            old(self).entries().len() == 0 ==> final(self).only_delivered(
                *old(self),
                Delivery::Inbound(InboundEvent::Close),
            ),
            !old(self).is_finalized() ==> final(self).reached_first_only(
                *old(self),
                Delivery::Inbound(InboundEvent::Close),
            ),
            old(self).entries().len() > 0 ==> exists|hm: &mut H, cm: &mut Context<M, E, H>|
                {
                    &&& mut_ref_current(hm) == old(self).entries()[0].1
                    &&& final(self).entries()[0].1 == mut_ref_future(hm)
                    &&& mut_ref_current(cm).is_handed(
                        old(self).names(),
                        old(self).is_finalized(),
                        old(self).transmits(),
                        old(self).deliveries().push((0nat, Delivery::Inbound(InboundEvent::Close))),
                        0nat,
                    )
                    &&& final(self).transmits() == mut_ref_future(cm).transmits()
                    &&& final(self).deliveries() == mut_ref_future(cm).deliveries()
                    &&& #[trigger] call_ensures(H::handle_close, (hm, cm), ())
                },
    {
        self.internal.inbound(InboundEvent::Close);
    }
}

} // verus!
