//! Handlers, the context through which a handler reaches the rest of its
//! pipeline, and the handler that closes every pipeline.
//!
//! A pipeline is a chain of user handlers followed by one last handler that
//! owns the queue of outbound messages.  Inbound events enter at the first
//! handler and move towards the last one each time a handler calls one of the
//! `fire_*` methods of its [`Context`]; outbound messages are pulled from the
//! last handler back towards the first one through [`Context::fire_poll_write`].
//!
//! While a handler runs, the context owns the whole chain: the handler that runs
//! and every handler before it (those still waiting for it to return) are taken
//! out of their slots, every handler after it is in its slot.  This is what lets
//! the handler reach the next one without any shared mutable state.

use vstd::prelude::*;

verus! {

#[verifier::external_type_specification]
#[verifier::external_body]
pub struct ExInstant(std::time::Instant);

/// Name of the handler that closes every pipeline; no user handler may take it.
pub const RESERVED_PIPELINE_HANDLE_NAME: &'static str = "ReservedPipelineHandlerName";

/// The reserved name as a sequence of characters.
pub open spec fn reserved_name() -> Seq<char> {
    RESERVED_PIPELINE_HANDLE_NAME@
}

/// Whether `s` is what remains of `t` after some elements were taken from its front.
pub open spec fn is_suffix<T>(s: Seq<T>, t: Seq<T>) -> bool {
    &&& s.len() <= t.len()
    &&& forall|i: int| 0 <= i < s.len() ==> #[trigger] s[i] == t[t.len() - s.len() + i]
}

/// The names of a chain's entries, first to last.
pub open spec fn names_of<H>(entries: Seq<(Seq<char>, H)>) -> Seq<Seq<char>> {
    entries.map_values(|e: (Seq<char>, H)| e.0)
}

/// Holds of the entries whose name is not `name`.
pub open spec fn not_named<H>(name: Seq<char>) -> spec_fn((Seq<char>, H)) -> bool {
    |e: (Seq<char>, H)| e.0 != name
}

/// What a pop from the front of `t` returns.
pub open spec fn front<T>(t: Seq<T>) -> Option<T> {
    if t.len() == 0 {
        None
    } else {
        Some(t[0])
    }
}

/// What remains of `t` after a pop from its front.
pub open spec fn after_pop<T>(t: Seq<T>) -> Seq<T> {
    if t.len() == 0 {
        t
    } else {
        t.drop_first()
    }
}

/// Being a suffix is transitive.
pub proof fn lemma_suffix_trans<T>(a: Seq<T>, b: Seq<T>, c: Seq<T>)
    requires
        is_suffix(a, b),
        is_suffix(b, c),
    ensures
        is_suffix(a, c),
{
    assert forall|i: int| 0 <= i < a.len() implies #[trigger] a[i] == c[c.len() - a.len() + i] by {
        assert(a[i] == b[b.len() - a.len() + i]);
        assert(b[b.len() - a.len() + i] == c[c.len() - b.len() + (b.len() - a.len() + i)]);
    }
}

/// A sequence is a suffix of itself.
pub proof fn lemma_suffix_refl<T>(a: Seq<T>)
    ensures
        is_suffix(a, a),
{
}

/// What a pop from the front leaves is a suffix.
pub proof fn lemma_after_pop_suffix<T>(t: Seq<T>)
    ensures
        is_suffix(after_pop(t), t),
{
    if t.len() == 0 {
        lemma_suffix_refl(t);
    }
}

/// A handler processes the messages and events that flow through a pipeline.
///
/// Every message of a pipeline, inbound and outbound, has the type `M`; a
/// pipeline whose layers speak different types uses an enum for `M`.  Errors
/// that travel through the pipeline have the type `E`.
///
/// A handler keeps an event moving by calling the matching `fire_*` method of
/// its context (`transport_active` calls `ctx.fire_transport_active()`, and so
/// on); an event it does not fire stops at it.  Through its context a handler
/// reaches only the rest of the chain, never the chain's shape: each method
/// leaves the names, the position and the links of the context as it found
/// them, can only have taken messages from the front of the outbound queue,
/// and can only have reached handlers after its own.
pub trait Handler<M, E>: Sized {
    /// The handler's name, used to find it again; it is never the reserved name.
    fn name(&self) -> (r: &str)
        ensures
            r@ != reserved_name(),
    ;

    /// The transport became active (connected).
    fn transport_active(&mut self, ctx: &mut Context<M, E, Self>)
        requires
            old(ctx).serving(),
        ensures
            final(ctx).serving(),
            final(ctx).follows(*old(ctx)),
    ;

    /// The transport became inactive (disconnected).
    fn transport_inactive(&mut self, ctx: &mut Context<M, E, Self>)
        requires
            old(ctx).serving(),
        ensures
            final(ctx).serving(),
            final(ctx).follows(*old(ctx)),
    ;

    /// An inbound message arrived.
    fn handle_read(&mut self, ctx: &mut Context<M, E, Self>, msg: M)
        requires
            old(ctx).serving(),
        ensures
            final(ctx).serving(),
            final(ctx).follows(*old(ctx)),
    ;

    /// Asks for the next outbound message.
    fn poll_write(&mut self, ctx: &mut Context<M, E, Self>) -> (r: Option<M>)
        requires
            old(ctx).serving(),
        ensures
            final(ctx).serving(),
            final(ctx).follows(*old(ctx)),
    ;

    /// Time moved on to `now`.
    fn handle_timeout(&mut self, ctx: &mut Context<M, E, Self>, now: std::time::Instant)
        requires
            old(ctx).serving(),
        ensures
            final(ctx).serving(),
            final(ctx).follows(*old(ctx)),
    ;

    /// Asks for the earliest time at which `handle_timeout` is needed; the
    /// handler lowers `eto` when it needs an earlier one.
    fn poll_timeout(&mut self, ctx: &mut Context<M, E, Self>, eto: &mut std::time::Instant)
        requires
            old(ctx).serving(),
        ensures
            final(ctx).serving(),
            final(ctx).follows(*old(ctx)),
    ;

    /// The inbound stream ended.
    fn handle_eof(&mut self, ctx: &mut Context<M, E, Self>)
        requires
            old(ctx).serving(),
        ensures
            final(ctx).serving(),
            final(ctx).follows(*old(ctx)),
    ;

    /// An error occurred.
    fn handle_error(&mut self, ctx: &mut Context<M, E, Self>, err: E)
        requires
            old(ctx).serving(),
        ensures
            final(ctx).serving(),
            final(ctx).follows(*old(ctx)),
    ;

    /// The pipeline is being closed.
    fn handle_close(&mut self, ctx: &mut Context<M, E, Self>)
        requires
            old(ctx).serving(),
        ensures
            final(ctx).serving(),
            final(ctx).follows(*old(ctx)),
    ;
}

/// `n` is a name that `h.name()` returns.
pub open spec fn is_name_of<M, E, H: Handler<M, E>>(h: H, n: Seq<char>) -> bool {
    exists|r: &str| call_ensures(H::name, (&h,), r) && r@ == n
}

/// The handler that closes every pipeline.  Inbound messages and events that
/// reach it end there; outbound messages written to the pipeline wait in its
/// queue until a poll reaches it.
pub struct LastHandler<M> {
    transmits: std::collections::VecDeque<M>,
}

impl<M> LastHandler<M> {
    /// The queued outbound messages, oldest first.
    pub closed spec fn queue(&self) -> Seq<M> {
        self.transmits@
    }

    /// A last handler with the given queue.
    pub fn new(transmits: std::collections::VecDeque<M>) -> (r: Self)
        ensures
            r.queue() == transmits@,
    {
        LastHandler { transmits }
    }

    /// Its name: the reserved name.
    pub fn name(&self) -> (r: &str)
        ensures
            r@ == reserved_name(),
    {
        RESERVED_PIPELINE_HANDLE_NAME
    }

    /// An inbound message that reaches the end of the pipeline goes no further.
    pub fn handle_read(&mut self, msg: M)
        ensures
            *final(self) == *old(self),
    {
    }

    /// The oldest queued outbound message, taken from the queue.
    pub fn poll_write(&mut self) -> (r: Option<M>)
        ensures
            r == front(old(self).queue()),
            final(self).queue() == after_pop(old(self).queue()),
    {
        self.transmits.pop_front()
    }

    /// Queues an outbound message behind the others.
    pub fn push(&mut self, msg: M)
        ensures
            final(self).queue() == old(self).queue().push(msg),
    {
        self.transmits.push_back(msg);
    }
}

/// An inbound event on its way through the chain.
pub enum InboundEvent<M, E> {
    TransportActive,
    TransportInactive,
    Read(M),
    Timeout(std::time::Instant),
    Eof,
    Error(E),
    Close,
}

/// What reached a handler: an inbound event, a poll for an outbound message or
/// a poll for the next timeout.
pub enum Delivery<M, E> {
    Inbound(InboundEvent<M, E>),
    PollWrite,
    PollTimeout,
}

/// A log of deliveries: each one with the position of the handler it reached,
/// where the user handlers are at `0..n` and the last handler is at `n`.
pub type DeliveryLog<M, E> = Seq<(nat, Delivery<M, E>)>;

/// `after` begins with `before`.
pub open spec fn extends<T>(after: Seq<T>, before: Seq<T>) -> bool {
    &&& before.len() <= after.len()
    &&& forall|i: int| 0 <= i < before.len() ==> #[trigger] after[i] == before[i]
}

/// Every delivery of `log` from index `from` on reached a handler after `pos`.
pub open spec fn all_past<M, E>(log: DeliveryLog<M, E>, from: int, pos: nat) -> bool {
    forall|i: int| from <= i < log.len() ==> #[trigger] log[i].0 > pos
}

/// `after` is `before` with `d` and then only deliveries past `d`'s handler.
pub open spec fn first_then_past<M, E>(
    after: DeliveryLog<M, E>,
    before: DeliveryLog<M, E>,
    d: (nat, Delivery<M, E>),
) -> bool {
    &&& extends(after, before.push(d))
    &&& all_past(after, before.len() + 1int, d.0)
}

/// A delivery `d` made ahead of what a handler past `pos` then did keeps the log
/// moving down the chain from `pos`.
pub proof fn lemma_first_then_past<M, E>(
    after: DeliveryLog<M, E>,
    before: DeliveryLog<M, E>,
    d: (nat, Delivery<M, E>),
    pos: nat,
)
    requires
        first_then_past(after, before, d),
        d.0 > pos,
    ensures
        extends(after, before),
        all_past(after, before.len() as int, pos),
{
    assert forall|i: int| 0 <= i < before.len() implies #[trigger] after[i] == before[i] by {
        assert(before.push(d)[i] == before[i]);
    }
    assert forall|i: int| before.len() <= i < after.len() implies #[trigger] after[i].0 > pos by {
        if i == before.len() {
            assert(before.push(d)[i] == d);
        }
    }
}

/// Lets a handler reach the rest of its pipeline.
///
/// The context of a handler at position `p` of a chain of `n` handlers leads,
/// once the pipeline is finalized, to the handler at `p + 1`, or to the last
/// handler when `p + 1 == n`.  A context made by [`Context::new`], or one of a
/// pipeline that was changed and not finalized again, leads nowhere: what it
/// fires ends there and its polls find nothing.
///
/// Each event or poll handed to a handler is recorded, with the handler's
/// position, in a log that exists only for the proofs ([`Context::deliveries`]).
/// Where a user handler is reached, the contracts also state the call itself
/// (`call_ensures` of the handler's method) and what it left.
pub struct Context<M, E, H> {
    name: String,
    names: Vec<String>,
    handlers: Vec<Option<H>>,
    last: LastHandler<M>,
    pos: usize,
    linked: bool,
    log: Ghost<DeliveryLog<M, E>>,
}

impl<M, E, H> Context<M, E, H> {
    /// Name of the handler this context belongs to.
    pub closed spec fn name_view(&self) -> Seq<char> {
        self.name@
    }

    /// Names of the handlers of the chain, first to last.
    pub closed spec fn names(&self) -> Seq<Seq<char>> {
        self.names@.map_values(|s: String| s@)
    }

    /// The slots of the chain; a slot is empty while its handler runs.
    pub closed spec fn slots(&self) -> Seq<Option<H>> {
        self.handlers@
    }

    /// Number of user handlers in the chain.
    pub closed spec fn chain_len(&self) -> nat {
        self.handlers@.len()
    }

    /// Position of the handler this context belongs to.
    pub closed spec fn position(&self) -> nat {
        self.pos as nat
    }

    /// Whether the chain was finalized since its last change.
    pub closed spec fn is_linked(&self) -> bool {
        self.linked
    }

    /// The outbound messages that wait in the last handler, oldest first.
    pub closed spec fn transmits(&self) -> Seq<M> {
        self.last.queue()
    }

    /// The record, kept for the proofs, of each event and poll handed on through
    /// this context, in order, with the position of the handler it went to; an
    /// entry is made as the handler is called, and the contracts that speak of
    /// a user handler tie it to that call with `call_ensures`.
    pub closed spec fn deliveries(&self) -> DeliveryLog<M, E> {
        self.log@
    }


    /// The user handlers of the chain, first to last (meaningful while the
    /// chain is at rest, when every slot is full).
    pub closed spec fn handlers(&self) -> Seq<H> {
        Seq::new(
            self.handlers@.len(),
            |i: int|
                match self.handlers@[i] {
                    Some(h) => h,
                    None => arbitrary(),
                },
        )
    }

    /// The chain as pairs of a handler's name and the handler, first to last.
    pub open spec fn entries(&self) -> Seq<(Seq<char>, H)> {
        Seq::new(self.chain_len(), |i: int| (self.names()[i], self.handlers()[i]))
    }

    /// The chain is consistent: one name per slot, the handler at the context's
    /// position and the ones before it are out of their slots, the others in.
    pub open spec fn wf(&self) -> bool {
        &&& self.names().len() == self.chain_len()
        &&& self.position() <= self.chain_len()
        &&& forall|j: int|
            0 <= j < self.chain_len() ==> (#[trigger] self.slots()[j] is None <==> j
                <= self.position())
    }

    /// The context belongs to a user handler of its chain, which is running,
    /// and bears that handler's name.
    pub open spec fn serving(&self) -> bool {
        &&& self.wf()
        &&& self.position() < self.chain_len()
        &&& self.name_view() == self.names()[self.position() as int]
    }

    /// The chain is at rest: no handler runs and every slot holds its handler.
    pub open spec fn idle(&self) -> bool {
        &&& self.names().len() == self.chain_len()
        &&& self.position() == 0
        &&& forall|j: int| 0 <= j < self.chain_len() ==> #[trigger] self.slots()[j] is Some
    }

    /// The next handler is a user handler.
    pub open spec fn next_is_user(&self) -> bool {
        self.is_linked() && self.position() + 1 < self.chain_len()
    }

    /// The next handler is the last handler.
    pub open spec fn next_is_last(&self) -> bool {
        self.is_linked() && self.position() + 1 == self.chain_len()
    }

    /// `self` is `before` after `d` was delivered to the last handler, which
    /// keeps what it is given: nothing else changed.
    pub open spec fn only_delivered(&self, before: Self, d: (nat, Delivery<M, E>)) -> bool {
        &&& self.names() == before.names()
        &&& self.slots() == before.slots()
        &&& self.chain_len() == before.chain_len()
        &&& self.position() == before.position()
        &&& self.is_linked() == before.is_linked()
        &&& self.name_view() == before.name_view()
        &&& self.transmits() == before.transmits()
        &&& self.deliveries() == before.deliveries().push(d)
    }

    /// `self` is the context handed to the handler at position `at` of a chain
    /// named `names`, linked as `linked`, with the queue `transmits` and the log
    /// `log` at the moment of the call.
    pub open spec fn is_handed(
        &self,
        names: Seq<Seq<char>>,
        linked: bool,
        transmits: Seq<M>,
        log: DeliveryLog<M, E>,
        at: nat,
    ) -> bool {
        &&& self.serving()
        &&& self.names() == names
        &&& self.position() == at
        &&& self.is_linked() == linked
        &&& self.transmits() == transmits
        &&& self.deliveries() == log
    }

    /// The handler in the slot after the context's own.
    pub open spec fn next_slot(&self) -> Option<H> {
        self.slots()[self.position() + 1int]
    }

    /// `self` is the context handed to the next handler when `d` is fired
    /// from `before`.
    pub open spec fn handed_on_from(&self, before: Self, d: Delivery<M, E>) -> bool {
        self.is_handed(
            before.names(),
            before.is_linked(),
            before.transmits(),
            before.deliveries().push(((before.position() + 1) as nat, d)),
            (before.position() + 1) as nat,
        )
    }

    /// What firing `d` from the context `before` did: when the next handler is
    /// a user handler, `d` reached it before anything else and what it set off
    /// reached only handlers after it; when the next handler is the last one,
    /// `d` reached it and nothing else changed; where the context leads
    /// nowhere, nothing happened.
    pub open spec fn passed_on(&self, before: Self, d: Delivery<M, E>) -> bool {
        &&& before.next_is_user() ==> first_then_past(
            self.deliveries(),
            before.deliveries(),
            ((before.position() + 1) as nat, d),
        )
        &&& before.next_is_last() ==> self.only_delivered(before, (before.chain_len(), d))
        &&& !before.next_is_user() && !before.next_is_last() ==> *self == before
    }

    /// The chain kept its shape and owner, and its queue only lost messages
    /// from the front.
    pub open spec fn keeps_shape(&self, before: Self) -> bool {
        &&& self.names() == before.names()
        &&& self.chain_len() == before.chain_len()
        &&& self.position() == before.position()
        &&& self.is_linked() == before.is_linked()
        &&& self.name_view() == before.name_view()
        &&& is_suffix(self.transmits(), before.transmits())
    }

    /// `self` is what `before` became while events went down the chain: same
    /// shape, same owner, only messages from the front of the queue taken, and
    /// only handlers after the context's own reached.  Where the context leads
    /// nowhere, nothing reached any handler and the queue is as it was.
    pub open spec fn follows(&self, before: Self) -> bool {
        &&& self.keeps_shape(before)
        &&& extends(self.deliveries(), before.deliveries())
        &&& all_past(self.deliveries(), before.deliveries().len() as int, before.position())
        &&& !before.is_linked() ==> {
            &&& self.deliveries() == before.deliveries()
            &&& self.transmits() == before.transmits()
        }
    }

    /// A context that leads nowhere, for the handler named `name`.
    pub fn new(name: &str) -> (ctx: Self)
        ensures
            ctx.wf(),
            ctx.name_view() == name@,
            ctx.chain_len() == 0,
            ctx.names() == Seq::<Seq<char>>::empty(),
            ctx.position() == 0,
            !ctx.is_linked(),
            ctx.transmits() == Seq::<M>::empty(),
            ctx.deliveries() == Seq::<(nat, Delivery<M, E>)>::empty(),
    {
        let ctx = Context {
            name: name.to_owned(),
            names: Vec::new(),
            handlers: Vec::new(),
            last: LastHandler::new(std::collections::VecDeque::new()),
            pos: 0,
            linked: false,
            log: Ghost(Seq::empty()),
        };
        assert(ctx.names() =~= Seq::<Seq<char>>::empty());
        ctx
    }

    /// Name of the handler this context belongs to.
    pub fn name(&self) -> (r: &str)
        ensures
            r@ == self.name_view(),
    {
        self.name.as_str()
    }

    /// An empty chain at rest, not finalized, with an empty queue.
    pub(crate) fn empty_chain() -> (ctx: Self)
        ensures
            ctx.idle(),
            ctx.entries() == Seq::<(Seq<char>, H)>::empty(),
            !ctx.is_linked(),
            ctx.transmits() == Seq::<M>::empty(),
            ctx.deliveries() == Seq::<(nat, Delivery<M, E>)>::empty(),
    {
        let ctx = Context::new(RESERVED_PIPELINE_HANDLE_NAME);
        assert(ctx.entries() =~= Seq::<(Seq<char>, H)>::empty());
        ctx
    }

    /// Number of user handlers in the chain.
    pub(crate) fn chain_length(&self) -> (n: usize)
        ensures
            n == self.chain_len(),
    {
        self.handlers.len()
    }

    /// Whether a handler of the chain has the name `target`.
    fn has_name(&self, target: &String) -> (r: bool)
        ensures
            r == self.names().contains(target@),
    {
        let mut i: usize = 0;
        while i < self.names.len()
            invariant
                i <= self.names@.len(),
                forall|k: int| 0 <= k < i ==> self.names()[k] != target@,
            decreases self.names@.len() - i,
        {
            if self.names[i] == *target {
                assert(self.names()[i as int] == target@);
                return true;
            }
            i = i + 1;
        }
        false
    }

    /// Removes the last user handler, if there is one.
    pub(crate) fn remove_last_handler(&mut self) -> (removed: bool)
        requires
            old(self).idle(),
        ensures
            final(self).idle(),
            removed == (old(self).chain_len() > 0),
            removed ==> {
                &&& final(self).entries() == old(self).entries().drop_last()
                &&& !final(self).is_linked()
            },
            !removed ==> *final(self) == *old(self),
            final(self).transmits() == old(self).transmits(),
            final(self).name_view() == old(self).name_view(),
            final(self).deliveries() == old(self).deliveries(),
    {
        if self.handlers.len() == 0 {
            false
        } else {
            self.names.pop();
            self.handlers.pop();
            self.linked = false;
            assert(self.entries() =~= old(self).entries().drop_last());
            true
        }
    }

    /// Removes the first user handler, if there is one.
    pub(crate) fn remove_first_handler(&mut self) -> (removed: bool)
        requires
            old(self).idle(),
        ensures
            final(self).idle(),
            removed == (old(self).chain_len() > 0),
            removed ==> {
                &&& final(self).entries() == old(self).entries().drop_first()
                &&& !final(self).is_linked()
            },
            !removed ==> *final(self) == *old(self),
            final(self).transmits() == old(self).transmits(),
            final(self).name_view() == old(self).name_view(),
            final(self).deliveries() == old(self).deliveries(),
    {
        if self.handlers.len() == 0 {
            false
        } else {
            self.names.remove(0);
            self.handlers.remove(0);
            self.linked = false;
            assert(self.entries() =~= old(self).entries().drop_first());
            true
        }
    }

    /// Removes every user handler named `name`; reports whether there was one.
    pub(crate) fn remove_named(&mut self, name: &str) -> (found: bool)
        requires
            old(self).idle(),
        ensures
            final(self).idle(),
            found == old(self).names().contains(name@),
            found ==> {
                &&& final(self).entries() == old(self).entries().filter(not_named(name@))
                &&& !final(self).is_linked()
            },
            !found ==> *final(self) == *old(self),
            final(self).transmits() == old(self).transmits(),
            final(self).name_view() == old(self).name_view(),
            final(self).deliveries() == old(self).deliveries(),
    {
        let target = name.to_owned();
        if !self.has_name(&target) {
            return false;
        }
        let ghost pred = not_named::<H>(name@);
        let ghost all = old(self).entries();
        let mut j = self.names.len();
        proof {
            assert(all.skip(j as int) =~= Seq::<(Seq<char>, H)>::empty());
            reveal_with_fuel(Seq::filter, 1);
            assert(all.take(j as int) =~= all);
            assert(self.entries() =~= all.take(j as int) + all.skip(j as int).filter(pred));
        }
        while j > 0
            invariant
                self.idle(),
                j <= self.chain_len(),
                j <= all.len(),
                self.entries() == all.take(j as int) + all.skip(j as int).filter(pred),
                self.transmits() == old(self).transmits(),
                self.name_view() == old(self).name_view(),
                self.deliveries() == old(self).deliveries(),
                self.is_linked() == old(self).is_linked(),
                pred == not_named::<H>(name@),
                target@ == name@,
            decreases j,
        {
            j = j - 1;
            let ghost before = self.entries();
            proof {
                assert(before[j as int] == all[j as int]);
                assert(self.names()[j as int] == all[j as int].0);
                assert(all.skip(j as int) =~= seq![all[j as int]] + all.skip(j + 1));
                Seq::filter_distributes_over_add(seq![all[j as int]], all.skip(j + 1), pred);
                reveal_with_fuel(Seq::filter, 2);
            }
            if self.names[j] == target {
                self.names.remove(j);
                self.handlers.remove(j);
                assert(self.entries() =~= before.remove(j as int));
                assert(self.entries() =~= all.take(j as int) + all.skip(j as int).filter(pred));
            } else {
                assert(self.entries() =~= all.take(j as int) + all.skip(j as int).filter(pred));
            }
        }
        self.linked = false;
        assert(all.take(0) + all.skip(0).filter(pred) =~= all.filter(pred));
        true
    }

    /// Marks the chain as finalized: each context now leads to the next handler.
    pub(crate) fn link(&mut self)
        requires
            old(self).idle(),
        ensures
            final(self).idle(),
            final(self).is_linked(),
            final(self).entries() == old(self).entries(),
            final(self).transmits() == old(self).transmits(),
            final(self).name_view() == old(self).name_view(),
            final(self).deliveries() == old(self).deliveries(),
    {
        self.linked = true;
    }

    /// Queues an outbound message in the last handler.
    pub(crate) fn push_transmit(&mut self, msg: M)
        requires
            old(self).idle(),
        ensures
            final(self).idle(),
            final(self).transmits() == old(self).transmits().push(msg),
            final(self).entries() == old(self).entries(),
            final(self).is_linked() == old(self).is_linked(),
            final(self).name_view() == old(self).name_view(),
            final(self).deliveries() == old(self).deliveries(),
    {
        self.last.push(msg);
    }

    /// Takes the handler at `i` out of its slot.
    fn take_slot(&mut self, i: usize) -> (h: H)
        requires
            i < old(self).handlers@.len(),
            old(self).handlers@[i as int] is Some,
        ensures
            h == old(self).handlers@[i as int]->Some_0,
            final(self).handlers@ == old(self).handlers@.update(i as int, None),
            final(self).names == old(self).names,
            final(self).name == old(self).name,
            final(self).last == old(self).last,
            final(self).pos == old(self).pos,
            final(self).linked == old(self).linked,
            final(self).log == old(self).log,
    {
        let slot = self.handlers.remove(i);
        self.handlers.insert(i, None);
        assert(self.handlers@ =~= old(self).handlers@.update(i as int, None));
        slot.unwrap()
    }
}

impl<M, E, H: Handler<M, E>> Context<M, E, H> {
    /// Appends a user handler after the others.
    pub(crate) fn add_handler_back(&mut self, h: H)
        requires
            old(self).idle(),
        ensures
            final(self).idle(),
            final(self).entries() == old(self).entries().push((final(self).names().last(), h)),
            is_name_of(h, final(self).names().last()),
            final(self).names().last() != reserved_name(),
            !final(self).is_linked(),
            final(self).transmits() == old(self).transmits(),
            final(self).name_view() == old(self).name_view(),
            final(self).deliveries() == old(self).deliveries(),
    {
        let r = h.name();
        assert(call_ensures(H::name, (&h,), r));
        let name = r.to_owned();
        self.names.push(name);
        self.handlers.push(Some(h));
        self.linked = false;
        assert(self.entries() =~= old(self).entries().push((self.names().last(), h)));
    }

    /// Puts a user handler before the others.
    pub(crate) fn add_handler_front(&mut self, h: H)
        requires
            old(self).idle(),
        ensures
            final(self).idle(),
            final(self).entries() == seq![(final(self).names()[0], h)] + old(self).entries(),
            is_name_of(h, final(self).names()[0]),
            final(self).names()[0] != reserved_name(),
            !final(self).is_linked(),
            final(self).transmits() == old(self).transmits(),
            final(self).name_view() == old(self).name_view(),
            final(self).deliveries() == old(self).deliveries(),
    {
        let r = h.name();
        assert(call_ensures(H::name, (&h,), r));
        let name = r.to_owned();
        self.names.insert(0, name);
        self.handlers.insert(0, Some(h));
        self.linked = false;
        assert(self.entries() =~= seq![(self.names()[0], h)] + old(self).entries());
    }

    /// Hands an inbound event to the first handler of a chain at rest; with no
    /// user handler it reaches the last handler and ends there.
    pub(crate) fn run_inbound(&mut self, ev: InboundEvent<M, E>)
        requires
            old(self).idle(),
        ensures
            final(self).idle(),
            final(self).keeps_shape(*old(self)),
            first_then_past(
                final(self).deliveries(),
                old(self).deliveries(),
                (0nat, Delivery::Inbound(ev)),
            ),
            old(self).chain_len() == 0 ==> final(self).only_delivered(
                *old(self),
                (0nat, Delivery::Inbound(ev)),
            ),
            !old(self).is_linked() ==> {
                &&& final(self).transmits() == old(self).transmits()
                &&& final(self).deliveries() == old(self).deliveries().push(
                    (0nat, Delivery::Inbound(ev)),
                )
            },
            old(self).chain_len() > 0 ==> match ev {
                InboundEvent::TransportActive => exists|hm: &mut H, cm: &mut Context<M, E, H>|
                    {
                        &&& mut_ref_current(hm) == old(self).entries()[0].1
                        &&& final(self).entries()[0].1 == mut_ref_future(hm)
                        &&& mut_ref_current(cm).is_handed(
                            old(self).names(),
                            old(self).is_linked(),
                            old(self).transmits(),
                            old(self).deliveries().push((0nat, Delivery::Inbound(ev))),
                            0nat,
                        )
                        &&& final(self).transmits() == mut_ref_future(cm).transmits()
                        &&& final(self).deliveries() == mut_ref_future(cm).deliveries()
                        &&& #[trigger] call_ensures(H::transport_active, (hm, cm), ())
                    },
                InboundEvent::TransportInactive => exists|hm: &mut H, cm: &mut Context<M, E, H>|
                    {
                        &&& mut_ref_current(hm) == old(self).entries()[0].1
                        &&& final(self).entries()[0].1 == mut_ref_future(hm)
                        &&& mut_ref_current(cm).is_handed(
                            old(self).names(),
                            old(self).is_linked(),
                            old(self).transmits(),
                            old(self).deliveries().push((0nat, Delivery::Inbound(ev))),
                            0nat,
                        )
                        &&& final(self).transmits() == mut_ref_future(cm).transmits()
                        &&& final(self).deliveries() == mut_ref_future(cm).deliveries()
                        &&& #[trigger] call_ensures(H::transport_inactive, (hm, cm), ())
                    },
                InboundEvent::Read(msg) => exists|hm: &mut H, cm: &mut Context<M, E, H>|
                    {
                        &&& mut_ref_current(hm) == old(self).entries()[0].1
                        &&& final(self).entries()[0].1 == mut_ref_future(hm)
                        &&& mut_ref_current(cm).is_handed(
                            old(self).names(),
                            old(self).is_linked(),
                            old(self).transmits(),
                            old(self).deliveries().push((0nat, Delivery::Inbound(ev))),
                            0nat,
                        )
                        &&& final(self).transmits() == mut_ref_future(cm).transmits()
                        &&& final(self).deliveries() == mut_ref_future(cm).deliveries()
                        &&& #[trigger] call_ensures(H::handle_read, (hm, cm, msg), ())
                    },
                InboundEvent::Timeout(now) => exists|hm: &mut H, cm: &mut Context<M, E, H>|
                    {
                        &&& mut_ref_current(hm) == old(self).entries()[0].1
                        &&& final(self).entries()[0].1 == mut_ref_future(hm)
                        &&& mut_ref_current(cm).is_handed(
                            old(self).names(),
                            old(self).is_linked(),
                            old(self).transmits(),
                            old(self).deliveries().push((0nat, Delivery::Inbound(ev))),
                            0nat,
                        )
                        &&& final(self).transmits() == mut_ref_future(cm).transmits()
                        &&& final(self).deliveries() == mut_ref_future(cm).deliveries()
                        &&& #[trigger] call_ensures(H::handle_timeout, (hm, cm, now), ())
                    },
                InboundEvent::Eof => exists|hm: &mut H, cm: &mut Context<M, E, H>|
                    {
                        &&& mut_ref_current(hm) == old(self).entries()[0].1
                        &&& final(self).entries()[0].1 == mut_ref_future(hm)
                        &&& mut_ref_current(cm).is_handed(
                            old(self).names(),
                            old(self).is_linked(),
                            old(self).transmits(),
                            old(self).deliveries().push((0nat, Delivery::Inbound(ev))),
                            0nat,
                        )
                        &&& final(self).transmits() == mut_ref_future(cm).transmits()
                        &&& final(self).deliveries() == mut_ref_future(cm).deliveries()
                        &&& #[trigger] call_ensures(H::handle_eof, (hm, cm), ())
                    },
                InboundEvent::Error(err) => exists|hm: &mut H, cm: &mut Context<M, E, H>|
                    {
                        &&& mut_ref_current(hm) == old(self).entries()[0].1
                        &&& final(self).entries()[0].1 == mut_ref_future(hm)
                        &&& mut_ref_current(cm).is_handed(
                            old(self).names(),
                            old(self).is_linked(),
                            old(self).transmits(),
                            old(self).deliveries().push((0nat, Delivery::Inbound(ev))),
                            0nat,
                        )
                        &&& final(self).transmits() == mut_ref_future(cm).transmits()
                        &&& final(self).deliveries() == mut_ref_future(cm).deliveries()
                        &&& #[trigger] call_ensures(H::handle_error, (hm, cm, err), ())
                    },
                InboundEvent::Close => exists|hm: &mut H, cm: &mut Context<M, E, H>|
                    {
                        &&& mut_ref_current(hm) == old(self).entries()[0].1
                        &&& final(self).entries()[0].1 == mut_ref_future(hm)
                        &&& mut_ref_current(cm).is_handed(
                            old(self).names(),
                            old(self).is_linked(),
                            old(self).transmits(),
                            old(self).deliveries().push((0nat, Delivery::Inbound(ev))),
                            0nat,
                        )
                        &&& final(self).transmits() == mut_ref_future(cm).transmits()
                        &&& final(self).deliveries() == mut_ref_future(cm).deliveries()
                        &&& #[trigger] call_ensures(H::handle_close, (hm, cm), ())
                    },
            },
    {
        let ghost d = (0nat, Delivery::Inbound(ev));
        self.log = Ghost(self.log@.push(d));
        if self.handlers.len() > 0 {
            let mut h = self.take_slot(0);
            let mut own_name = self.names[0].clone();
            std::mem::swap(&mut self.name, &mut own_name);
            deliver(&mut h, self, ev);
            std::mem::swap(&mut self.name, &mut own_name);
            self.handlers.set(0, Some(h));
            assert(self.names() == old(self).names());
        } else {
            proof {
                lemma_suffix_refl(self.transmits());
                assert(self.deliveries() =~= old(self).deliveries().push(d));
            }
        }
    }

    /// Asks the first handler of a chain at rest for an outbound message; with
    /// no user handler the last handler answers with its oldest message.
    pub(crate) fn run_poll_write(&mut self) -> (r: Option<M>)
        requires
            old(self).idle(),
        ensures
            final(self).idle(),
            final(self).keeps_shape(*old(self)),
            first_then_past(
                final(self).deliveries(),
                old(self).deliveries(),
                (0nat, Delivery::PollWrite),
            ),
            old(self).chain_len() == 0 ==> {
                &&& r == front(old(self).transmits())
                &&& final(self).transmits() == after_pop(old(self).transmits())
                &&& final(self).deliveries() == old(self).deliveries().push(
                    (0nat, Delivery::PollWrite),
                )
            },
            !old(self).is_linked() && old(self).chain_len() > 0 ==> {
                &&& final(self).transmits() == old(self).transmits()
                &&& final(self).deliveries() == old(self).deliveries().push(
                    (0nat, Delivery::PollWrite),
                )
            },
            old(self).chain_len() > 0 ==> exists|
                hm: &mut H,
                cm: &mut Context<M, E, H>,
            |
                {
                    &&& mut_ref_current(hm) == old(self).entries()[0].1
                    &&& final(self).entries()[0].1 == mut_ref_future(hm)
                    &&& mut_ref_current(cm).is_handed(
                        old(self).names(),
                        old(self).is_linked(),
                        old(self).transmits(),
                        old(self).deliveries().push((0nat, Delivery::PollWrite)),
                        0nat,
                    )
                    &&& final(self).transmits() == mut_ref_future(cm).transmits()
                    &&& final(self).deliveries() == mut_ref_future(cm).deliveries()
                    &&& #[trigger] call_ensures(H::poll_write, (hm, cm), r)
                },
    {
        let ghost d = (0nat, Delivery::<M, E>::PollWrite);
        self.log = Ghost(self.log@.push(d));
        if self.handlers.len() > 0 {
            let mut h = self.take_slot(0);
            let mut own_name = self.names[0].clone();
            std::mem::swap(&mut self.name, &mut own_name);
            let hm: &mut H = &mut h;
            let cm: &mut Self = &mut *self;
            let r = H::poll_write(hm, cm);
            assert(exists|x: &mut H, y: &mut Self| call_ensures(H::poll_write, (x, y), r));
            std::mem::swap(&mut self.name, &mut own_name);
            self.handlers.set(0, Some(h));
            assert(self.names() == old(self).names());
            r
        } else {
            let r = self.last.poll_write();
            proof {
                lemma_after_pop_suffix(old(self).transmits());
            }
            r
        }
    }

    /// Asks the first handler of a chain at rest for the earliest timeout it
    /// needs; with no user handler `eto` stays as it is.
    pub(crate) fn run_poll_timeout(&mut self, eto: &mut std::time::Instant)
        requires
            old(self).idle(),
        ensures
            final(self).idle(),
            final(self).keeps_shape(*old(self)),
            first_then_past(
                final(self).deliveries(),
                old(self).deliveries(),
                (0nat, Delivery::PollTimeout),
            ),
            old(self).chain_len() == 0 ==> {
                &&& final(self).only_delivered(*old(self), (0nat, Delivery::PollTimeout))
                &&& *final(eto) == *old(eto)
            },
            !old(self).is_linked() ==> {
                &&& final(self).transmits() == old(self).transmits()
                &&& final(self).deliveries() == old(self).deliveries().push(
                    (0nat, Delivery::PollTimeout),
                )
            },
            old(self).chain_len() > 0 ==> exists|
                hm: &mut H,
                cm: &mut Context<M, E, H>,
                em: &mut std::time::Instant,
            |
                {
                    &&& mut_ref_current(hm) == old(self).entries()[0].1
                    &&& final(self).entries()[0].1 == mut_ref_future(hm)
                    &&& mut_ref_current(cm).is_handed(
                        old(self).names(),
                        old(self).is_linked(),
                        old(self).transmits(),
                        old(self).deliveries().push((0nat, Delivery::PollTimeout)),
                        0nat,
                    )
                    &&& final(self).transmits() == mut_ref_future(cm).transmits()
                    &&& final(self).deliveries() == mut_ref_future(cm).deliveries()
                    &&& mut_ref_current(em) == *old(eto)
                    &&& mut_ref_future(em) == *final(eto)
                    &&& #[trigger] call_ensures(H::poll_timeout, (hm, cm, em), ())
                },
    {
        let ghost d = (0nat, Delivery::<M, E>::PollTimeout);
        self.log = Ghost(self.log@.push(d));
        if self.handlers.len() > 0 {
            let mut h = self.take_slot(0);
            let mut own_name = self.names[0].clone();
            std::mem::swap(&mut self.name, &mut own_name);
            let hm: &mut H = &mut h;
            let cm: &mut Self = &mut *self;
            let em: &mut std::time::Instant = &mut *eto;
            H::poll_timeout(hm, cm, em);
            assert(exists|x: &mut H, y: &mut Self, z: &mut std::time::Instant|
                call_ensures(H::poll_timeout, (x, y, z), ()));
            std::mem::swap(&mut self.name, &mut own_name);
            self.handlers.set(0, Some(h));
            assert(self.names() == old(self).names());
        } else {
            proof {
                lemma_suffix_refl(self.transmits());
            }
        }
    }

    /// Passes an inbound event to the next user handler, if there is one; at
    /// the last handler, or where the context leads nowhere, the event ends.
    fn fire_inbound(&mut self, ev: InboundEvent<M, E>)
        requires
            old(self).wf(),
        ensures
            final(self).wf(),
            final(self).follows(*old(self)),
            final(self).passed_on(*old(self), Delivery::Inbound(ev)),
            old(self).next_is_user() ==> match ev {
                InboundEvent::TransportActive => exists|hm: &mut H, cm: &mut Context<M, E, H>|
                    {
                        &&& old(self).next_slot() == Some(mut_ref_current(hm))
                        &&& final(self).next_slot() == Some(mut_ref_future(hm))
                        &&& mut_ref_current(cm).handed_on_from(*old(self), Delivery::Inbound(ev))
                        &&& final(self).transmits() == mut_ref_future(cm).transmits()
                        &&& final(self).deliveries() == mut_ref_future(cm).deliveries()
                        &&& #[trigger] call_ensures(H::transport_active, (hm, cm), ())
                    },
                InboundEvent::TransportInactive => exists|hm: &mut H, cm: &mut Context<M, E, H>|
                    {
                        &&& old(self).next_slot() == Some(mut_ref_current(hm))
                        &&& final(self).next_slot() == Some(mut_ref_future(hm))
                        &&& mut_ref_current(cm).handed_on_from(*old(self), Delivery::Inbound(ev))
                        &&& final(self).transmits() == mut_ref_future(cm).transmits()
                        &&& final(self).deliveries() == mut_ref_future(cm).deliveries()
                        &&& #[trigger] call_ensures(H::transport_inactive, (hm, cm), ())
                    },
                InboundEvent::Read(msg) => exists|hm: &mut H, cm: &mut Context<M, E, H>|
                    {
                        &&& old(self).next_slot() == Some(mut_ref_current(hm))
                        &&& final(self).next_slot() == Some(mut_ref_future(hm))
                        &&& mut_ref_current(cm).handed_on_from(*old(self), Delivery::Inbound(ev))
                        &&& final(self).transmits() == mut_ref_future(cm).transmits()
                        &&& final(self).deliveries() == mut_ref_future(cm).deliveries()
                        &&& #[trigger] call_ensures(H::handle_read, (hm, cm, msg), ())
                    },
                InboundEvent::Timeout(now) => exists|hm: &mut H, cm: &mut Context<M, E, H>|
                    {
                        &&& old(self).next_slot() == Some(mut_ref_current(hm))
                        &&& final(self).next_slot() == Some(mut_ref_future(hm))
                        &&& mut_ref_current(cm).handed_on_from(*old(self), Delivery::Inbound(ev))
                        &&& final(self).transmits() == mut_ref_future(cm).transmits()
                        &&& final(self).deliveries() == mut_ref_future(cm).deliveries()
                        &&& #[trigger] call_ensures(H::handle_timeout, (hm, cm, now), ())
                    },
                InboundEvent::Eof => exists|hm: &mut H, cm: &mut Context<M, E, H>|
                    {
                        &&& old(self).next_slot() == Some(mut_ref_current(hm))
                        &&& final(self).next_slot() == Some(mut_ref_future(hm))
                        &&& mut_ref_current(cm).handed_on_from(*old(self), Delivery::Inbound(ev))
                        &&& final(self).transmits() == mut_ref_future(cm).transmits()
                        &&& final(self).deliveries() == mut_ref_future(cm).deliveries()
                        &&& #[trigger] call_ensures(H::handle_eof, (hm, cm), ())
                    },
                InboundEvent::Error(err) => exists|hm: &mut H, cm: &mut Context<M, E, H>|
                    {
                        &&& old(self).next_slot() == Some(mut_ref_current(hm))
                        &&& final(self).next_slot() == Some(mut_ref_future(hm))
                        &&& mut_ref_current(cm).handed_on_from(*old(self), Delivery::Inbound(ev))
                        &&& final(self).transmits() == mut_ref_future(cm).transmits()
                        &&& final(self).deliveries() == mut_ref_future(cm).deliveries()
                        &&& #[trigger] call_ensures(H::handle_error, (hm, cm, err), ())
                    },
                InboundEvent::Close => exists|hm: &mut H, cm: &mut Context<M, E, H>|
                    {
                        &&& old(self).next_slot() == Some(mut_ref_current(hm))
                        &&& final(self).next_slot() == Some(mut_ref_future(hm))
                        &&& mut_ref_current(cm).handed_on_from(*old(self), Delivery::Inbound(ev))
                        &&& final(self).transmits() == mut_ref_future(cm).transmits()
                        &&& final(self).deliveries() == mut_ref_future(cm).deliveries()
                        &&& #[trigger] call_ensures(H::handle_close, (hm, cm), ())
                    },
            },
    {
        if self.linked && self.handlers.len() - self.pos > 1 {
            let p = self.pos;
            let ghost d = ((p + 1) as nat, Delivery::Inbound(ev));
            let mut h = self.take_slot(p + 1);
            let mut own_name = self.names[p + 1].clone();
            std::mem::swap(&mut self.name, &mut own_name);
            self.pos = p + 1;
            self.log = Ghost(self.log@.push(d));
            let ghost before = *self;
            deliver(&mut h, self, ev);
            proof {
                lemma_suffix_refl(before.transmits());
                lemma_first_then_past(self.deliveries(), old(self).deliveries(), d, p as nat);
            }
            self.pos = p;
            std::mem::swap(&mut self.name, &mut own_name);
            self.handlers.set(p + 1, Some(h));
            assert(self.names() == old(self).names());
        } else if self.linked && self.handlers.len() - self.pos == 1 {
            let ghost d = (self.handlers@.len() as nat, Delivery::Inbound(ev));
            self.log = Ghost(self.log@.push(d));
            proof {
                lemma_suffix_refl(self.transmits());
                lemma_first_then_past(self.deliveries(), old(self).deliveries(), d, self.pos as nat);
            }
        } else {
            proof {
                lemma_suffix_refl(self.transmits());
            }
        }
    }

    /// Passes the transport-active event to the next handler.
    pub fn fire_transport_active(&mut self)
        requires
            old(self).wf(),
        ensures
            final(self).wf(),
            final(self).follows(*old(self)),
            final(self).passed_on(*old(self), Delivery::Inbound(InboundEvent::TransportActive)),
            old(self).next_is_user() ==> exists|hm: &mut H, cm: &mut Context<M, E, H>|
                {
                    &&& old(self).next_slot() == Some(mut_ref_current(hm))
                    &&& final(self).next_slot() == Some(mut_ref_future(hm))
                    &&& mut_ref_current(cm).handed_on_from(
                        *old(self),
                        Delivery::Inbound(InboundEvent::TransportActive),
                    )
                    &&& final(self).transmits() == mut_ref_future(cm).transmits()
                    &&& final(self).deliveries() == mut_ref_future(cm).deliveries()
                    &&& #[trigger] call_ensures(H::transport_active, (hm, cm), ())
                },
    {
        self.fire_inbound(InboundEvent::TransportActive);
    }

    /// Passes the transport-inactive event to the next handler.
    pub fn fire_transport_inactive(&mut self)
        requires
            old(self).wf(),
        ensures
            final(self).wf(),
            final(self).follows(*old(self)),
            final(self).passed_on(*old(self), Delivery::Inbound(InboundEvent::TransportInactive)),
            old(self).next_is_user() ==> exists|hm: &mut H, cm: &mut Context<M, E, H>|
                {
                    &&& old(self).next_slot() == Some(mut_ref_current(hm))
                    &&& final(self).next_slot() == Some(mut_ref_future(hm))
                    &&& mut_ref_current(cm).handed_on_from(
                        *old(self),
                        Delivery::Inbound(InboundEvent::TransportInactive),
                    )
                    &&& final(self).transmits() == mut_ref_future(cm).transmits()
                    &&& final(self).deliveries() == mut_ref_future(cm).deliveries()
                    &&& #[trigger] call_ensures(H::transport_inactive, (hm, cm), ())
                },
    {
        self.fire_inbound(InboundEvent::TransportInactive);
    }

    /// Passes an inbound message to the next handler; at the last handler it ends.
    pub fn fire_handle_read(&mut self, msg: M)
        requires
            old(self).wf(),
        ensures
            final(self).wf(),
            final(self).follows(*old(self)),
            final(self).passed_on(*old(self), Delivery::Inbound(InboundEvent::Read(msg))),
            old(self).next_is_user() ==> exists|hm: &mut H, cm: &mut Context<M, E, H>|
                {
                    &&& old(self).next_slot() == Some(mut_ref_current(hm))
                    &&& final(self).next_slot() == Some(mut_ref_future(hm))
                    &&& mut_ref_current(cm).handed_on_from(
                        *old(self),
                        Delivery::Inbound(InboundEvent::Read(msg)),
                    )
                    &&& final(self).transmits() == mut_ref_future(cm).transmits()
                    &&& final(self).deliveries() == mut_ref_future(cm).deliveries()
                    &&& #[trigger] call_ensures(H::handle_read, (hm, cm, msg), ())
                },
    {
        self.fire_inbound(InboundEvent::Read(msg));
    }

    /// Passes a timeout event to the next handler.
    pub fn fire_handle_timeout(&mut self, now: std::time::Instant)
        requires
            old(self).wf(),
        ensures
            final(self).wf(),
            final(self).follows(*old(self)),
            final(self).passed_on(*old(self), Delivery::Inbound(InboundEvent::Timeout(now))),
            old(self).next_is_user() ==> exists|hm: &mut H, cm: &mut Context<M, E, H>|
                {
                    &&& old(self).next_slot() == Some(mut_ref_current(hm))
                    &&& final(self).next_slot() == Some(mut_ref_future(hm))
                    &&& mut_ref_current(cm).handed_on_from(
                        *old(self),
                        Delivery::Inbound(InboundEvent::Timeout(now)),
                    )
                    &&& final(self).transmits() == mut_ref_future(cm).transmits()
                    &&& final(self).deliveries() == mut_ref_future(cm).deliveries()
                    &&& #[trigger] call_ensures(H::handle_timeout, (hm, cm, now), ())
                },
    {
        self.fire_inbound(InboundEvent::Timeout(now));
    }

    /// Passes the end-of-stream event to the next handler.
    pub fn fire_handle_eof(&mut self)
        requires
            old(self).wf(),
        ensures
            final(self).wf(),
            final(self).follows(*old(self)),
            final(self).passed_on(*old(self), Delivery::Inbound(InboundEvent::Eof)),
            old(self).next_is_user() ==> exists|hm: &mut H, cm: &mut Context<M, E, H>|
                {
                    &&& old(self).next_slot() == Some(mut_ref_current(hm))
                    &&& final(self).next_slot() == Some(mut_ref_future(hm))
                    &&& mut_ref_current(cm).handed_on_from(
                        *old(self),
                        Delivery::Inbound(InboundEvent::Eof),
                    )
                    &&& final(self).transmits() == mut_ref_future(cm).transmits()
                    &&& final(self).deliveries() == mut_ref_future(cm).deliveries()
                    &&& #[trigger] call_ensures(H::handle_eof, (hm, cm), ())
                },
    {
        self.fire_inbound(InboundEvent::Eof);
    }

    /// Passes an error to the next handler; at the last handler it ends.
    pub fn fire_handle_error(&mut self, err: E)
        requires
            old(self).wf(),
        ensures
            final(self).wf(),
            final(self).follows(*old(self)),
            final(self).passed_on(*old(self), Delivery::Inbound(InboundEvent::Error(err))),
            old(self).next_is_user() ==> exists|hm: &mut H, cm: &mut Context<M, E, H>|
                {
                    &&& old(self).next_slot() == Some(mut_ref_current(hm))
                    &&& final(self).next_slot() == Some(mut_ref_future(hm))
                    &&& mut_ref_current(cm).handed_on_from(
                        *old(self),
                        Delivery::Inbound(InboundEvent::Error(err)),
                    )
                    &&& final(self).transmits() == mut_ref_future(cm).transmits()
                    &&& final(self).deliveries() == mut_ref_future(cm).deliveries()
                    &&& #[trigger] call_ensures(H::handle_error, (hm, cm, err), ())
                },
    {
        self.fire_inbound(InboundEvent::Error(err));
    }

    /// Passes the close event to the next handler.
    pub fn fire_handle_close(&mut self)
        requires
            old(self).wf(),
        ensures
            final(self).wf(),
            final(self).follows(*old(self)),
            final(self).passed_on(*old(self), Delivery::Inbound(InboundEvent::Close)),
            old(self).next_is_user() ==> exists|hm: &mut H, cm: &mut Context<M, E, H>|
                {
                    &&& old(self).next_slot() == Some(mut_ref_current(hm))
                    &&& final(self).next_slot() == Some(mut_ref_future(hm))
                    &&& mut_ref_current(cm).handed_on_from(
                        *old(self),
                        Delivery::Inbound(InboundEvent::Close),
                    )
                    &&& final(self).transmits() == mut_ref_future(cm).transmits()
                    &&& final(self).deliveries() == mut_ref_future(cm).deliveries()
                    &&& #[trigger] call_ensures(H::handle_close, (hm, cm), ())
                },
    {
        self.fire_inbound(InboundEvent::Close);
    }

    /// Asks the next handler for an outbound message.  The last handler answers
    /// with the oldest queued message; where the context leads nowhere there is
    /// no message.
    pub fn fire_poll_write(&mut self) -> (r: Option<M>)
        requires
            old(self).wf(),
        ensures
            final(self).wf(),
            final(self).follows(*old(self)),
            old(self).next_is_user() ==> first_then_past(
                final(self).deliveries(),
                old(self).deliveries(),
                ((old(self).position() + 1) as nat, Delivery::PollWrite),
            ),
            old(self).next_is_user() ==> exists|hm: &mut H, cm: &mut Context<M, E, H>|
                {
                    &&& old(self).next_slot() == Some(mut_ref_current(hm))
                    &&& final(self).next_slot() == Some(mut_ref_future(hm))
                    &&& mut_ref_current(cm).handed_on_from(*old(self), Delivery::PollWrite)
                    &&& final(self).transmits() == mut_ref_future(cm).transmits()
                    &&& final(self).deliveries() == mut_ref_future(cm).deliveries()
                    &&& #[trigger] call_ensures(H::poll_write, (hm, cm), r)
                },
            old(self).next_is_last() ==> {
                &&& r == front(old(self).transmits())
                &&& final(self).transmits() == after_pop(old(self).transmits())
                &&& final(self).slots() == old(self).slots()
                &&& final(self).deliveries() == old(self).deliveries().push(
                    (old(self).chain_len(), Delivery::PollWrite),
                )
            },
            !old(self).next_is_user() && !old(self).next_is_last() ==> {
                &&& r is None
                &&& *final(self) == *old(self)
            },
    {
        if self.linked && self.handlers.len() - self.pos > 1 {
            let p = self.pos;
            let ghost d = ((p + 1) as nat, Delivery::<M, E>::PollWrite);
            let mut h = self.take_slot(p + 1);
            let mut own_name = self.names[p + 1].clone();
            std::mem::swap(&mut self.name, &mut own_name);
            self.pos = p + 1;
            self.log = Ghost(self.log@.push(d));
            let hm: &mut H = &mut h;
            let cm: &mut Self = &mut *self;
            let r = H::poll_write(hm, cm);
            assert(exists|x: &mut H, y: &mut Self| call_ensures(H::poll_write, (x, y), r));
            proof {
                lemma_first_then_past(self.deliveries(), old(self).deliveries(), d, p as nat);
            }
            self.pos = p;
            std::mem::swap(&mut self.name, &mut own_name);
            self.handlers.set(p + 1, Some(h));
            assert(self.names() == old(self).names());
            r
        } else if self.linked && self.handlers.len() - self.pos == 1 {
            let ghost d = (self.handlers@.len() as nat, Delivery::<M, E>::PollWrite);
            self.log = Ghost(self.log@.push(d));
            let r = self.last.poll_write();
            proof {
                lemma_after_pop_suffix(old(self).transmits());
                lemma_first_then_past(self.deliveries(), old(self).deliveries(), d, self.pos as nat);
            }
            r
        } else {
            proof {
                lemma_suffix_refl(self.transmits());
            }
            None
        }
    }

    /// Asks the next handler for the earliest time it needs a timeout; the
    /// last handler needs none, and where the context leads nowhere `eto` stays.
    pub fn fire_poll_timeout(&mut self, eto: &mut std::time::Instant)
        requires
            old(self).wf(),
        ensures
            final(self).wf(),
            final(self).follows(*old(self)),
            old(self).next_is_user() ==> first_then_past(
                final(self).deliveries(),
                old(self).deliveries(),
                ((old(self).position() + 1) as nat, Delivery::PollTimeout),
            ),
            old(self).next_is_user() ==> exists|
                hm: &mut H,
                cm: &mut Context<M, E, H>,
                em: &mut std::time::Instant,
            |
                {
                    &&& old(self).next_slot() == Some(mut_ref_current(hm))
                    &&& final(self).next_slot() == Some(mut_ref_future(hm))
                    &&& mut_ref_current(cm).handed_on_from(*old(self), Delivery::PollTimeout)
                    &&& final(self).transmits() == mut_ref_future(cm).transmits()
                    &&& final(self).deliveries() == mut_ref_future(cm).deliveries()
                    &&& mut_ref_current(em) == *old(eto)
                    &&& mut_ref_future(em) == *final(eto)
                    &&& #[trigger] call_ensures(H::poll_timeout, (hm, cm, em), ())
                },
            old(self).next_is_last() ==> {
                &&& final(self).only_delivered(*old(self), (old(self).chain_len(), Delivery::PollTimeout))
                &&& *final(eto) == *old(eto)
            },
            !old(self).next_is_user() && !old(self).next_is_last() ==> {
                &&& *final(self) == *old(self)
                &&& *final(eto) == *old(eto)
            },
    {
        if self.linked && self.handlers.len() - self.pos > 1 {
            let p = self.pos;
            let ghost d = ((p + 1) as nat, Delivery::<M, E>::PollTimeout);
            let mut h = self.take_slot(p + 1);
            let mut own_name = self.names[p + 1].clone();
            std::mem::swap(&mut self.name, &mut own_name);
            self.pos = p + 1;
            self.log = Ghost(self.log@.push(d));
            let hm: &mut H = &mut h;
            let cm: &mut Self = &mut *self;
            let em: &mut std::time::Instant = &mut *eto;
            H::poll_timeout(hm, cm, em);
            assert(exists|x: &mut H, y: &mut Self, z: &mut std::time::Instant|
                call_ensures(H::poll_timeout, (x, y, z), ()));
            proof {
                lemma_first_then_past(self.deliveries(), old(self).deliveries(), d, p as nat);
            }
            self.pos = p;
            std::mem::swap(&mut self.name, &mut own_name);
            self.handlers.set(p + 1, Some(h));
            assert(self.names() == old(self).names());
        } else if self.linked && self.handlers.len() - self.pos == 1 {
            let ghost d = (self.handlers@.len() as nat, Delivery::<M, E>::PollTimeout);
            self.log = Ghost(self.log@.push(d));
            proof {
                lemma_suffix_refl(self.transmits());
                lemma_first_then_past(self.deliveries(), old(self).deliveries(), d, self.pos as nat);
            }
        } else {
            proof {
                lemma_suffix_refl(self.transmits());
            }
        }
    }
}


/// Hands an inbound event to the handler method that takes it: the call's
/// handler and context go from their values before to their values after.
fn deliver<M, E, H: Handler<M, E>>(h: &mut H, ctx: &mut Context<M, E, H>, ev: InboundEvent<M, E>)
    requires
        old(ctx).serving(),
    ensures
        final(ctx).serving(),
        final(ctx).follows(*old(ctx)),
        match ev {
            InboundEvent::TransportActive => exists|hm: &mut H, cm: &mut Context<M, E, H>|
                mut_ref_current(hm) == *old(h) && mut_ref_future(hm) == *final(h)
                    && mut_ref_current(cm) == *old(ctx) && mut_ref_future(cm) == *final(ctx)
                    && #[trigger] call_ensures(H::transport_active, (hm, cm), ()),
            InboundEvent::TransportInactive => exists|hm: &mut H, cm: &mut Context<M, E, H>|
                mut_ref_current(hm) == *old(h) && mut_ref_future(hm) == *final(h)
                    && mut_ref_current(cm) == *old(ctx) && mut_ref_future(cm) == *final(ctx)
                    && #[trigger] call_ensures(H::transport_inactive, (hm, cm), ()),
            InboundEvent::Read(msg) => exists|hm: &mut H, cm: &mut Context<M, E, H>|
                mut_ref_current(hm) == *old(h) && mut_ref_future(hm) == *final(h)
                    && mut_ref_current(cm) == *old(ctx) && mut_ref_future(cm) == *final(ctx)
                    && #[trigger] call_ensures(H::handle_read, (hm, cm, msg), ()),
            InboundEvent::Timeout(now) => exists|hm: &mut H, cm: &mut Context<M, E, H>|
                mut_ref_current(hm) == *old(h) && mut_ref_future(hm) == *final(h)
                    && mut_ref_current(cm) == *old(ctx) && mut_ref_future(cm) == *final(ctx)
                    && #[trigger] call_ensures(H::handle_timeout, (hm, cm, now), ()),
            InboundEvent::Eof => exists|hm: &mut H, cm: &mut Context<M, E, H>|
                mut_ref_current(hm) == *old(h) && mut_ref_future(hm) == *final(h)
                    && mut_ref_current(cm) == *old(ctx) && mut_ref_future(cm) == *final(ctx)
                    && #[trigger] call_ensures(H::handle_eof, (hm, cm), ()),
            InboundEvent::Error(err) => exists|hm: &mut H, cm: &mut Context<M, E, H>|
                mut_ref_current(hm) == *old(h) && mut_ref_future(hm) == *final(h)
                    && mut_ref_current(cm) == *old(ctx) && mut_ref_future(cm) == *final(ctx)
                    && #[trigger] call_ensures(H::handle_error, (hm, cm, err), ()),
            InboundEvent::Close => exists|hm: &mut H, cm: &mut Context<M, E, H>|
                mut_ref_current(hm) == *old(h) && mut_ref_future(hm) == *final(h)
                    && mut_ref_current(cm) == *old(ctx) && mut_ref_future(cm) == *final(ctx)
                    && #[trigger] call_ensures(H::handle_close, (hm, cm), ()),
        },
{
    let hm: &mut H = &mut *h;
    let cm: &mut Context<M, E, H> = &mut *ctx;
    match ev {
        InboundEvent::TransportActive => {
            H::transport_active(hm, cm);
            assert(exists|x: &mut H, y: &mut Context<M, E, H>|
                call_ensures(H::transport_active, (x, y), ()));
        },
        InboundEvent::TransportInactive => {
            H::transport_inactive(hm, cm);
            assert(exists|x: &mut H, y: &mut Context<M, E, H>|
                call_ensures(H::transport_inactive, (x, y), ()));
        },
        InboundEvent::Read(msg) => {
            H::handle_read(hm, cm, msg);
            assert(exists|x: &mut H, y: &mut Context<M, E, H>|
                call_ensures(H::handle_read, (x, y, msg), ()));
        },
        InboundEvent::Timeout(now) => {
            H::handle_timeout(hm, cm, now);
            assert(exists|x: &mut H, y: &mut Context<M, E, H>|
                call_ensures(H::handle_timeout, (x, y, now), ()));
        },
        InboundEvent::Eof => {
            H::handle_eof(hm, cm);
            assert(exists|x: &mut H, y: &mut Context<M, E, H>|
                call_ensures(H::handle_eof, (x, y), ()));
        },
        InboundEvent::Error(err) => {
            H::handle_error(hm, cm, err);
            assert(exists|x: &mut H, y: &mut Context<M, E, H>|
                call_ensures(H::handle_error, (x, y, err), ()));
        },
        InboundEvent::Close => {
            H::handle_close(hm, cm);
            assert(exists|x: &mut H, y: &mut Context<M, E, H>|
                call_ensures(H::handle_close, (x, y), ()));
        },
    }
}

} // verus!
