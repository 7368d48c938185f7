//! The chain of handlers behind every pipeline variant: how handlers are added,
//! removed and linked, and how events and messages enter it.

use vstd::prelude::*;
use vstd::string::StringExecFns;

use crate::handler::{
    Context, Delivery, DeliveryLog, Handler, InboundEvent, after_pop, first_then_past, front,
    is_name_of, names_of, not_named, reserved_name, RESERVED_PIPELINE_HANDLE_NAME,
};
use crate::notify::NotifyCallback;

verus! {

/// Why a handler could not be removed.
#[derive(Debug)]
pub enum RemoveError {
    /// There is no user handler to remove.
    NoHandlers,
    /// No user handler has the given name.
    NoSuchHandler(String),
    /// The given name is the reserved name of the last handler.
    ReservedName(String),
}

/// The message of the error that `remove(name)` returns with the kind `kind`.
pub open spec fn remove_error_message(name: Seq<char>, kind: RemoveErrorKind) -> Seq<char> {
    match kind {
        RemoveErrorKind::PermissionDenied => "handle name "@ + name + " is reserved"@,
        RemoveErrorKind::NotFound => "No such handler \""@ + name + "\" in pipeline"@,
    }
}

/// What `remove(name)` does to a chain: the reserved name is refused, a name
/// that no handler has is not found, otherwise every handler of that name goes.
pub open spec fn remove_named_outcome<H>(
    entries: Seq<(Seq<char>, H)>,
    name: Seq<char>,
) -> Result<Seq<(Seq<char>, H)>, RemoveErrorKind> {
    if name == reserved_name() {
        Err(RemoveErrorKind::PermissionDenied)
    } else if !names_of(entries).contains(name) {
        Err(RemoveErrorKind::NotFound)
    } else {
        Ok(entries.filter(not_named(name)))
    }
}

/// No user handler of the chain `entries` has the reserved name.
pub open spec fn reserved_name_free<H>(entries: Seq<(Seq<char>, H)>) -> bool {
    !names_of(entries).contains(reserved_name())
}

/// Adding an entry whose name is not the reserved one, at either end, keeps
/// the reserved name out.
pub proof fn lemma_adding_keeps_reserved_name_free<H>(
    before: Seq<(Seq<char>, H)>,
    after: Seq<(Seq<char>, H)>,
    e: (Seq<char>, H),
)
    requires
        reserved_name_free(before),
        e.0 != reserved_name(),
        after == before.push(e) || after == seq![e] + before,
    ensures
        reserved_name_free(after),
{
    if names_of(after).contains(reserved_name()) {
        let i = choose|i: int| 0 <= i < names_of(after).len() && names_of(after)[i] == reserved_name();
        if after == before.push(e) {
            assert(i != before.len());
            assert(names_of(before)[i] == before[i].0);
        } else {
            assert(i != 0);
            assert(names_of(before)[i - 1] == before[i - 1].0);
        }
    }
}

/// Removing entries, from either end or by a name, keeps the reserved name out.
pub proof fn lemma_removing_keeps_reserved_name_free<H>(
    before: Seq<(Seq<char>, H)>,
    after: Seq<(Seq<char>, H)>,
    name: Seq<char>,
)
    requires
        reserved_name_free(before),
        ({
            ||| before.len() > 0 && after == before.drop_last()
            ||| before.len() > 0 && after == before.drop_first()
            ||| after == before.filter(not_named(name))
        }),
    ensures
        reserved_name_free(after),
{
    if names_of(after).contains(reserved_name()) {
        let i = choose|i: int| 0 <= i < names_of(after).len() && names_of(after)[i] == reserved_name();
        assert(names_of(after)[i] == after[i].0);
        if before.len() > 0 && after == before.drop_last() {
            assert(names_of(before)[i] == before[i].0);
        } else if before.len() > 0 && after == before.drop_first() {
            assert(names_of(before)[i + 1] == before[i + 1].0);
        } else {
            broadcast use vstd::seq_lib::group_filter_ensures;

            let e = after[i];
            assert(after.contains(e));
            before.lemma_filter_contains_rev(not_named(name), e);
            let j = choose|j: int| 0 <= j < before.len() && before[j] == e;
            assert(names_of(before)[j] == reserved_name());
        }
    }
}

/// The kind of a [`RemoveError`], named as the `std::io::ErrorKind` that the
/// I/O layer reports it as.
#[derive(Debug, Clone, Copy, PartialEq, Eq, Structural)]
pub enum RemoveErrorKind {
    NotFound,
    PermissionDenied,
}

impl RemoveError {
    /// The message that explains this error.
    pub open spec fn message(&self) -> Seq<char> {
        match self {
            RemoveError::NoHandlers => "No handlers in pipeline"@,
            RemoveError::NoSuchHandler(name) => "No such handler \""@ + name@ + "\" in pipeline"@,
            RemoveError::ReservedName(name) => "handle name "@ + name@ + " is reserved"@,
        }
    }

    /// The message that explains this error.
    pub fn to_message(&self) -> (m: String)
        ensures
            m@ == self.message(),
    {
        match self {
            RemoveError::NoHandlers => String::from_str("No handlers in pipeline"),
            RemoveError::NoSuchHandler(name) => {
                let mut m = String::from_str("No such handler \"");
                m.append(name.as_str());
                m.append("\" in pipeline");
                m
            },
            RemoveError::ReservedName(name) => {
                let mut m = String::from_str("handle name ");
                m.append(name.as_str());
                m.append(" is reserved");
                m
            },
        }
    }

    /// The kind of this error: only the reserved name is refused as
    /// `PermissionDenied`; the others are `NotFound`.
    pub open spec fn error_kind(&self) -> RemoveErrorKind {
        match self {
            RemoveError::ReservedName(_) => RemoveErrorKind::PermissionDenied,
            _ => RemoveErrorKind::NotFound,
        }
    }

    /// The kind of this error.
    pub fn kind(&self) -> (k: RemoveErrorKind)
        ensures
            k == self.error_kind(),
    {
        match self {
            RemoveError::ReservedName(_) => RemoveErrorKind::PermissionDenied,
            _ => RemoveErrorKind::NotFound,
        }
    }
}

/// The state shared by [`crate::Pipeline`], [`crate::RcPipeline`] and
/// [`crate::ArcPipeline`]: the chain with its last handler, and the callback
/// to call when an outbound message is written.
pub struct PipelineInternal<M, E, H> {
    ctx: Context<M, E, H>,
    write_notify: Option<NotifyCallback>,
    notified: Ghost<Seq<NotifyCallback>>,
}

impl<M, E, H> PipelineInternal<M, E, H> {
    /// Outside of a call, the chain is at rest, and no user handler has the
    /// reserved name.
    #[verifier::type_invariant]
    spec fn at_rest(self) -> bool {
        &&& self.ctx.idle()
        &&& reserved_name_free(self.ctx.entries())
    }

    /// The user handlers with their names, first to last.
    pub closed spec fn entries(&self) -> Seq<(Seq<char>, H)> {
        self.ctx.entries()
    }

    /// The outbound messages waiting in the last handler, oldest first.
    pub closed spec fn transmits(&self) -> Seq<M> {
        self.ctx.transmits()
    }

    /// Whether the chain was finalized since its last change.
    pub closed spec fn is_finalized(&self) -> bool {
        self.ctx.is_linked()
    }

    /// The record, kept for the proofs, of each event and poll the chain handed
    /// on, in order, each with the position of the handler it went to: the
    /// user handlers are at `0..n`, the last handler at `n`.  An entry is made
    /// as the handler is called; the contracts that speak of a user handler
    /// tie the entry to that call with `call_ensures`.
    pub closed spec fn deliveries(&self) -> DeliveryLog<M, E> {
        self.ctx.deliveries()
    }

    /// Whether a write callback is set.
    pub open spec fn has_write_notify(&self) -> bool {
        self.write_notify() is Some
    }

    /// The callback that each write calls, if one is set.
    pub closed spec fn write_notify(&self) -> Option<NotifyCallback> {
        self.write_notify
    }

    /// The record, kept for the proofs, of the callback of each write that
    /// called one, in order; the contract of `write` ties the entry to the call
    /// with `call_ensures`.
    pub closed spec fn notifications(&self) -> Seq<NotifyCallback> {
        self.notified@
    }

    /// The same callback is set as in `before`, and no write called it since.
    pub open spec fn same_callback(&self, before: Self) -> bool {
        &&& self.write_notify() == before.write_notify()
        &&& self.notifications() == before.notifications()
    }

    /// What a write does to the log of callback calls: the set callback, if
    /// any, is called once.
    pub open spec fn notified_after_write(&self, before: Self) -> bool {
        &&& self.write_notify() == before.write_notify()
        &&& self.notifications() == match before.write_notify() {
            Some(cb) => before.notifications().push(cb),
            None => before.notifications(),
        }
    }

    /// The pipeline did not change shape, and its queue only lost messages from
    /// its front.
    pub open spec fn settled_from(&self, before: Self) -> bool {
        &&& names_of(self.entries()) == names_of(before.entries())
        &&& self.is_finalized() == before.is_finalized()
        &&& self.same_callback(before)
        &&& crate::handler::is_suffix(self.transmits(), before.transmits())
    }

    /// An empty pipeline: no user handler, an empty queue, no callback.
    pub fn new() -> (p: Self)
        ensures
            p.entries() == Seq::<(Seq<char>, H)>::empty(),
            reserved_name_free(p.entries()),
            p.transmits() == Seq::<M>::empty(),
            !p.is_finalized(),
            !p.has_write_notify(),
            p.notifications() == Seq::<NotifyCallback>::empty(),
            p.deliveries() == Seq::<(nat, Delivery<M, E>)>::empty(),
    {
        PipelineInternal {
            ctx: Context::empty_chain(),
            write_notify: None,
            notified: Ghost(Seq::empty()),
        }
    }

    /// Removes the last user handler.
    pub fn remove_back(&mut self) -> (r: Result<(), RemoveError>)
        ensures
            reserved_name_free(final(self).entries()),
            r is Ok <==> old(self).entries().len() > 0,
            r matches Err(e) ==> e is NoHandlers,
            r is Ok ==> {
                &&& final(self).entries() == old(self).entries().drop_last()
                &&& !final(self).is_finalized()
                &&& final(self).transmits() == old(self).transmits()
                &&& final(self).same_callback(*old(self))
                &&& final(self).deliveries() == old(self).deliveries()
            },
            r is Err ==> *final(self) == *old(self),
    {
        proof {
            use_type_invariant(&*self);
        }
        let mut ctx = Context::empty_chain();
        std::mem::swap(&mut ctx, &mut self.ctx);
        let removed = ctx.remove_last_handler();
        proof {
            if removed {
                lemma_removing_keeps_reserved_name_free(
                    old(self).ctx.entries(),
                    ctx.entries(),
                    reserved_name(),
                );
            }
        }
        self.ctx = ctx;
        if removed {
            Ok(())
        } else {
            Err(RemoveError::NoHandlers)
        }
    }

    /// Removes the first user handler.
    pub fn remove_front(&mut self) -> (r: Result<(), RemoveError>)
        ensures
            reserved_name_free(final(self).entries()),
            r is Ok <==> old(self).entries().len() > 0,
            r matches Err(e) ==> e is NoHandlers,
            r is Ok ==> {
                &&& final(self).entries() == old(self).entries().drop_first()
                &&& !final(self).is_finalized()
                &&& final(self).transmits() == old(self).transmits()
                &&& final(self).same_callback(*old(self))
                &&& final(self).deliveries() == old(self).deliveries()
            },
            r is Err ==> *final(self) == *old(self),
    {
        proof {
            use_type_invariant(&*self);
        }
        let mut ctx = Context::empty_chain();
        std::mem::swap(&mut ctx, &mut self.ctx);
        let removed = ctx.remove_first_handler();
        proof {
            if removed {
                lemma_removing_keeps_reserved_name_free(
                    old(self).ctx.entries(),
                    ctx.entries(),
                    reserved_name(),
                );
            }
        }
        self.ctx = ctx;
        if removed {
            Ok(())
        } else {
            Err(RemoveError::NoHandlers)
        }
    }

    /// Removes every user handler named `handler_name`.
    pub fn remove(&mut self, handler_name: &str) -> (r: Result<(), RemoveError>)
        ensures
            reserved_name_free(final(self).entries()),
            match remove_named_outcome(old(self).entries(), handler_name@) {
                Ok(entries) => {
                    &&& r is Ok
                    &&& final(self).entries() == entries
                    &&& !final(self).is_finalized()
                    &&& final(self).transmits() == old(self).transmits()
                    &&& final(self).same_callback(*old(self))
                    &&& final(self).deliveries() == old(self).deliveries()
                },
                Err(kind) => {
                    &&& r matches Err(e) && e.error_kind() == kind && e.message()
                        == remove_error_message(handler_name@, kind)
                    &&& *final(self) == *old(self)
                },
            },
    {
        proof {
            use_type_invariant(&*self);
            reveal_strlit("ReservedPipelineHandlerName");
        }
        let name = handler_name.to_owned();
        let reserved = RESERVED_PIPELINE_HANDLE_NAME.to_owned();
        if name == reserved {
            return Err(RemoveError::ReservedName(name));
        }
        let ghost names = names_of(old(self).entries());
        proof {
            assert(names =~= old(self).ctx.names());
        }
        let mut ctx = Context::empty_chain();
        std::mem::swap(&mut ctx, &mut self.ctx);
        let found = ctx.remove_named(handler_name);
        proof {
            if found {
                lemma_removing_keeps_reserved_name_free(
                    old(self).ctx.entries(),
                    ctx.entries(),
                    handler_name@,
                );
            }
        }
        self.ctx = ctx;
        if found {
            Ok(())
        } else {
            Err(RemoveError::NoSuchHandler(name))
        }
    }

    /// Number of user handlers.
    pub fn len(&self) -> (n: usize)
        ensures
            n == self.entries().len(),
    {
        proof {
            use_type_invariant(self);
        }
        self.ctx.chain_length()
    }

    /// Links every handler to the next one.
    pub fn finalize(&mut self)
        ensures
            reserved_name_free(final(self).entries()),
            final(self).entries() == old(self).entries(),
            final(self).is_finalized(),
            final(self).transmits() == old(self).transmits(),
            final(self).same_callback(*old(self)),
            final(self).deliveries() == old(self).deliveries(),
    {
        proof {
            use_type_invariant(&*self);
        }
        let mut ctx = Context::empty_chain();
        std::mem::swap(&mut ctx, &mut self.ctx);
        ctx.link();
        self.ctx = ctx;
    }

    /// Queues `msg` behind the other outbound messages, then calls the write
    /// callback if one is set.
    pub fn write(&mut self, msg: M)
        ensures
            reserved_name_free(final(self).entries()),
            final(self).transmits() == old(self).transmits().push(msg),
            final(self).entries() == old(self).entries(),
            final(self).is_finalized() == old(self).is_finalized(),
            final(self).notified_after_write(*old(self)),
            final(self).deliveries() == old(self).deliveries(),
            old(self).write_notify() matches Some(cb) ==> call_ensures(
                NotifyCallback::notify,
                (&cb,),
                (),
            ),
    {
        proof {
            use_type_invariant(&*self);
        }
        let mut ctx = Context::empty_chain();
        std::mem::swap(&mut ctx, &mut self.ctx);
        ctx.push_transmit(msg);
        self.ctx = ctx;
        if let Some(notify) = &self.write_notify {
            notify.notify();
            self.notified = Ghost(self.notified@.push(*notify));
        }
    }

    /// Sets the callback that each write calls.
    pub fn set_write_notify(&mut self, notify: NotifyCallback)
        ensures
            reserved_name_free(final(self).entries()),
            final(self).write_notify() == Some(notify),
            final(self).notifications() == old(self).notifications(),
            final(self).entries() == old(self).entries(),
            final(self).transmits() == old(self).transmits(),
            final(self).is_finalized() == old(self).is_finalized(),
            final(self).deliveries() == old(self).deliveries(),
    {
        proof {
            use_type_invariant(&*self);
        }
        self.write_notify = Some(notify);
    }
}

impl<M, E, H: Handler<M, E>> PipelineInternal<M, E, H> {
    /// Appends `handler` after the other user handlers.
    pub fn add_back(&mut self, handler: H)
        ensures
            reserved_name_free(final(self).entries()),
            final(self).entries() == old(self).entries().push(
                (final(self).entries().last().0, handler),
            ),
            is_name_of(handler, final(self).entries().last().0),
            final(self).entries().last().0 != reserved_name(),
            !final(self).is_finalized(),
            final(self).transmits() == old(self).transmits(),
            final(self).same_callback(*old(self)),
            final(self).deliveries() == old(self).deliveries(),
    {
        proof {
            use_type_invariant(&*self);
        }
        let mut ctx = Context::empty_chain();
        std::mem::swap(&mut ctx, &mut self.ctx);
        ctx.add_handler_back(handler);
        proof {
            lemma_adding_keeps_reserved_name_free(
                old(self).ctx.entries(),
                ctx.entries(),
                (ctx.names().last(), handler),
            );
        }
        self.ctx = ctx;
    }

    /// Puts `handler` before the other user handlers.
    pub fn add_front(&mut self, handler: H)
        ensures
            reserved_name_free(final(self).entries()),
            final(self).entries() == seq![(final(self).entries()[0].0, handler)] + old(
                self,
            ).entries(),
            is_name_of(handler, final(self).entries()[0].0),
            final(self).entries()[0].0 != reserved_name(),
            !final(self).is_finalized(),
            final(self).transmits() == old(self).transmits(),
            final(self).same_callback(*old(self)),
            final(self).deliveries() == old(self).deliveries(),
    {
        proof {
            use_type_invariant(&*self);
        }
        let mut ctx = Context::empty_chain();
        std::mem::swap(&mut ctx, &mut self.ctx);
        ctx.add_handler_front(handler);
        proof {
            lemma_adding_keeps_reserved_name_free(
                old(self).ctx.entries(),
                ctx.entries(),
                (ctx.names()[0], handler),
            );
        }
        self.ctx = ctx;
    }

    /// Hands an inbound event to the first handler; with no user handler it
    /// reaches the last handler and ends there.
    pub fn inbound(&mut self, ev: InboundEvent<M, E>)
        ensures
            reserved_name_free(final(self).entries()),
            final(self).settled_from(*old(self)),
            final(self).entries().len() == old(self).entries().len(),
            first_then_past(
                final(self).deliveries(),
                old(self).deliveries(),
                (0nat, Delivery::Inbound(ev)),
            ),
            old(self).entries().len() == 0 ==> {
                &&& final(self).entries() == old(self).entries()
                &&& final(self).transmits() == old(self).transmits()
                &&& final(self).deliveries() == old(self).deliveries().push(
                    (0nat, Delivery::Inbound(ev)),
                )
            },
            !old(self).is_finalized() ==> {
                &&& final(self).transmits() == old(self).transmits()
                &&& final(self).deliveries() == old(self).deliveries().push(
                    (0nat, Delivery::Inbound(ev)),
                )
            },
            old(self).entries().len() > 0 ==> match ev {
                InboundEvent::TransportActive => exists|hm: &mut H, cm: &mut Context<M, E, H>|
                    {
                        &&& mut_ref_current(hm) == old(self).entries()[0].1
                        &&& final(self).entries()[0].1 == mut_ref_future(hm)
                        &&& mut_ref_current(cm).is_handed(
                            names_of(old(self).entries()),
                            old(self).is_finalized(),
                            old(self).transmits(),
                            old(self).deliveries().push((0nat, Delivery::Inbound(ev))),
                            0nat,
                        )
                        &&& final(self).transmits() == mut_ref_future(cm).transmits()
                        &&& final(self).deliveries() == mut_ref_future(cm).deliveries()
                        &&& #[trigger] call_ensures(H::transport_active, (hm, cm), ())
                    },
                InboundEvent::TransportInactive => exists|hm: &mut H, cm: &mut Context<M, E, H>|
                    {
                        &&& mut_ref_current(hm) == old(self).entries()[0].1
                        &&& final(self).entries()[0].1 == mut_ref_future(hm)
                        &&& mut_ref_current(cm).is_handed(
                            names_of(old(self).entries()),
                            old(self).is_finalized(),
                            old(self).transmits(),
                            old(self).deliveries().push((0nat, Delivery::Inbound(ev))),
                            0nat,
                        )
                        &&& final(self).transmits() == mut_ref_future(cm).transmits()
                        &&& final(self).deliveries() == mut_ref_future(cm).deliveries()
                        &&& #[trigger] call_ensures(H::transport_inactive, (hm, cm), ())
                    },
                InboundEvent::Read(msg) => exists|hm: &mut H, cm: &mut Context<M, E, H>|
                    {
                        &&& mut_ref_current(hm) == old(self).entries()[0].1
                        &&& final(self).entries()[0].1 == mut_ref_future(hm)
                        &&& mut_ref_current(cm).is_handed(
                            names_of(old(self).entries()),
                            old(self).is_finalized(),
                            old(self).transmits(),
                            old(self).deliveries().push((0nat, Delivery::Inbound(ev))),
                            0nat,
                        )
                        &&& final(self).transmits() == mut_ref_future(cm).transmits()
                        &&& final(self).deliveries() == mut_ref_future(cm).deliveries()
                        &&& #[trigger] call_ensures(H::handle_read, (hm, cm, msg), ())
                    },
                InboundEvent::Timeout(now) => exists|hm: &mut H, cm: &mut Context<M, E, H>|
                    {
                        &&& mut_ref_current(hm) == old(self).entries()[0].1
                        &&& final(self).entries()[0].1 == mut_ref_future(hm)
                        &&& mut_ref_current(cm).is_handed(
                            names_of(old(self).entries()),
                            old(self).is_finalized(),
                            old(self).transmits(),
                            old(self).deliveries().push((0nat, Delivery::Inbound(ev))),
                            0nat,
                        )
                        &&& final(self).transmits() == mut_ref_future(cm).transmits()
                        &&& final(self).deliveries() == mut_ref_future(cm).deliveries()
                        &&& #[trigger] call_ensures(H::handle_timeout, (hm, cm, now), ())
                    },
                InboundEvent::Eof => exists|hm: &mut H, cm: &mut Context<M, E, H>|
                    {
                        &&& mut_ref_current(hm) == old(self).entries()[0].1
                        &&& final(self).entries()[0].1 == mut_ref_future(hm)
                        &&& mut_ref_current(cm).is_handed(
                            names_of(old(self).entries()),
                            old(self).is_finalized(),
                            old(self).transmits(),
                            old(self).deliveries().push((0nat, Delivery::Inbound(ev))),
                            0nat,
                        )
                        &&& final(self).transmits() == mut_ref_future(cm).transmits()
                        &&& final(self).deliveries() == mut_ref_future(cm).deliveries()
                        &&& #[trigger] call_ensures(H::handle_eof, (hm, cm), ())
                    },
                InboundEvent::Error(err) => exists|hm: &mut H, cm: &mut Context<M, E, H>|
                    {
                        &&& mut_ref_current(hm) == old(self).entries()[0].1
                        &&& final(self).entries()[0].1 == mut_ref_future(hm)
                        &&& mut_ref_current(cm).is_handed(
                            names_of(old(self).entries()),
                            old(self).is_finalized(),
                            old(self).transmits(),
                            old(self).deliveries().push((0nat, Delivery::Inbound(ev))),
                            0nat,
                        )
                        &&& final(self).transmits() == mut_ref_future(cm).transmits()
                        &&& final(self).deliveries() == mut_ref_future(cm).deliveries()
                        &&& #[trigger] call_ensures(H::handle_error, (hm, cm, err), ())
                    },
                InboundEvent::Close => exists|hm: &mut H, cm: &mut Context<M, E, H>|
                    {
                        &&& mut_ref_current(hm) == old(self).entries()[0].1
                        &&& final(self).entries()[0].1 == mut_ref_future(hm)
                        &&& mut_ref_current(cm).is_handed(
                            names_of(old(self).entries()),
                            old(self).is_finalized(),
                            old(self).transmits(),
                            old(self).deliveries().push((0nat, Delivery::Inbound(ev))),
                            0nat,
                        )
                        &&& final(self).transmits() == mut_ref_future(cm).transmits()
                        &&& final(self).deliveries() == mut_ref_future(cm).deliveries()
                        &&& #[trigger] call_ensures(H::handle_close, (hm, cm), ())
                    },
            },
    {
        proof {
            use_type_invariant(&*self);
        }
        let mut ctx = Context::empty_chain();
        std::mem::swap(&mut ctx, &mut self.ctx);
        ctx.run_inbound(ev);
        assert(names_of(ctx.entries()) =~= names_of(old(self).ctx.entries()));
        self.ctx = ctx;
        assert(names_of(old(self).entries()) =~= old(self).ctx.names());
        assert(names_of(self.entries()) =~= names_of(old(self).entries()));
        assert(old(self).entries().len() == 0 ==> self.entries() =~= old(self).entries());
    }

    /// Polls the first handler for an outbound message.
    pub fn poll_write(&mut self) -> (r: Option<M>)
        ensures
            reserved_name_free(final(self).entries()),
            final(self).settled_from(*old(self)),
            final(self).entries().len() == old(self).entries().len(),
            first_then_past(
                final(self).deliveries(),
                old(self).deliveries(),
                (0nat, Delivery::PollWrite),
            ),
            old(self).entries().len() == 0 ==> {
                &&& r == front(old(self).transmits())
                &&& final(self).transmits() == after_pop(old(self).transmits())
                &&& final(self).deliveries() == old(self).deliveries().push(
                    (0nat, Delivery::PollWrite),
                )
            },
            !old(self).is_finalized() && old(self).entries().len() > 0 ==> {
                &&& final(self).transmits() == old(self).transmits()
                &&& final(self).deliveries() == old(self).deliveries().push(
                    (0nat, Delivery::PollWrite),
                )
            },
            old(self).entries().len() > 0 ==> exists|
                hm: &mut H,
                cm: &mut Context<M, E, H>,
            |
                {
                    &&& mut_ref_current(hm) == old(self).entries()[0].1
                    &&& final(self).entries()[0].1 == mut_ref_future(hm)
                    &&& mut_ref_current(cm).is_handed(
                        names_of(old(self).entries()),
                        old(self).is_finalized(),
                        old(self).transmits(),
                        old(self).deliveries().push((0nat, Delivery::PollWrite)),
                        0nat,
                    )
                    &&& final(self).transmits() == mut_ref_future(cm).transmits()
                    &&& final(self).deliveries() == mut_ref_future(cm).deliveries()
                    &&& #[trigger] call_ensures(H::poll_write, (hm, cm), r)
                },
    {
        proof {
            use_type_invariant(&*self);
        }
        let mut ctx = Context::empty_chain();
        std::mem::swap(&mut ctx, &mut self.ctx);
        let r = ctx.run_poll_write();
        assert(names_of(ctx.entries()) =~= names_of(old(self).ctx.entries()));
        self.ctx = ctx;
        assert(names_of(old(self).entries()) =~= old(self).ctx.names());
        assert(names_of(self.entries()) =~= names_of(old(self).entries()));
        assert(old(self).entries().len() == 0 ==> self.entries() =~= old(self).entries());
        r
    }

    /// Polls the first handler for the earliest timeout it needs.
    pub fn poll_timeout(&mut self, eto: &mut std::time::Instant)
        ensures
            reserved_name_free(final(self).entries()),
            final(self).settled_from(*old(self)),
            final(self).entries().len() == old(self).entries().len(),
            first_then_past(
                final(self).deliveries(),
                old(self).deliveries(),
                (0nat, Delivery::PollTimeout),
            ),
            old(self).entries().len() == 0 ==> {
                &&& final(self).entries() == old(self).entries()
                &&& final(self).transmits() == old(self).transmits()
                &&& final(self).deliveries() == old(self).deliveries().push(
                    (0nat, Delivery::PollTimeout),
                )
                &&& *final(eto) == *old(eto)
            },
            !old(self).is_finalized() ==> {
                &&& final(self).transmits() == old(self).transmits()
                &&& final(self).deliveries() == old(self).deliveries().push(
                    (0nat, Delivery::PollTimeout),
                )
            },
            old(self).entries().len() > 0 ==> exists|
                hm: &mut H,
                cm: &mut Context<M, E, H>,
                em: &mut std::time::Instant,
            |
                {
                    &&& mut_ref_current(hm) == old(self).entries()[0].1
                    &&& final(self).entries()[0].1 == mut_ref_future(hm)
                    &&& mut_ref_current(cm).is_handed(
                        names_of(old(self).entries()),
                        old(self).is_finalized(),
                        old(self).transmits(),
                        old(self).deliveries().push((0nat, Delivery::PollTimeout)),
                        0nat,
                    )
                    &&& final(self).transmits() == mut_ref_future(cm).transmits()
                    &&& final(self).deliveries() == mut_ref_future(cm).deliveries()
                    &&& mut_ref_current(em) == *old(eto)
                    &&& mut_ref_future(em) == *final(eto)
                    &&& #[trigger] call_ensures(H::poll_timeout, (hm, cm, em), ())
                },
    {
        proof {
            use_type_invariant(&*self);
        }
        let mut ctx = Context::empty_chain();
        std::mem::swap(&mut ctx, &mut self.ctx);
        ctx.run_poll_timeout(eto);
        assert(names_of(ctx.entries()) =~= names_of(old(self).ctx.entries()));
        self.ctx = ctx;
        assert(names_of(old(self).entries()) =~= old(self).ctx.names());
        assert(names_of(self.entries()) =~= names_of(old(self).entries()));
        assert(old(self).entries().len() == 0 ==> self.entries() =~= old(self).entries());
    }
}

} // verus!
