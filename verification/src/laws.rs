//! Properties of pipelines that relate several operations.  Each is stated over
//! the spec functions that the operations' own contracts use, so it holds of
//! any states that the operations connect.

use vstd::prelude::*;

use crate::handler::{
    after_pop, extends, front, lemma_suffix_trans, names_of, not_named, reserved_name, Context,
    Delivery, Handler, InboundEvent,
};
use crate::bootstrap::{keeps_running, pipeline_input, TransportEvent, TransportKind};
use crate::pipeline::Pipeline;
use crate::pipeline_internal::{
    lemma_adding_keeps_reserved_name_free, lemma_removing_keeps_reserved_name_free,
    remove_named_outcome, RemoveErrorKind,
};

verus! {

/// `add_back(h)` followed by `remove_back()` gives back the handlers the
/// pipeline had, and leaves its queue as it was.
pub proof fn law_remove_back_undoes_add_back<M, E, H>(
    before: Pipeline<M, E, H>,
    added: Pipeline<M, E, H>,
    after: Pipeline<M, E, H>,
    h: H,
)
    requires
        added.entries() == before.entries().push((added.names().last(), h)),
        added.transmits() == before.transmits(),
        after.entries() == added.entries().drop_last(),
        after.transmits() == added.transmits(),
    ensures
        after.entries() == before.entries(),
        after.transmits() == before.transmits(),
{
    assert(after.entries() =~= before.entries());
}

/// `add_front(h)` followed by `remove_front()` gives back the handlers the
/// pipeline had, and leaves its queue as it was.
pub proof fn law_remove_front_undoes_add_front<M, E, H>(
    before: Pipeline<M, E, H>,
    added: Pipeline<M, E, H>,
    after: Pipeline<M, E, H>,
    h: H,
)
    requires
        added.entries() == seq![(added.names()[0], h)] + before.entries(),
        added.transmits() == before.transmits(),
        after.entries() == added.entries().drop_first(),
        after.transmits() == added.transmits(),
    ensures
        after.entries() == before.entries(),
        after.transmits() == before.transmits(),
{
    assert(after.entries() =~= before.entries());
}

/// After a successful `remove(name)` no handler has that name, every other
/// handler is still there in the same order, and a second `remove(name)` finds
/// nothing to remove.
pub proof fn law_remove_takes_every_handler_of_the_name<M, E, H>(
    before: Pipeline<M, E, H>,
    after: Pipeline<M, E, H>,
    name: Seq<char>,
)
    requires
        remove_named_outcome(before.entries(), name) is Ok,
        after.entries() == remove_named_outcome(before.entries(), name)->Ok_0,
    ensures
        !after.names().contains(name),
        after.names() == before.names().filter(|n: Seq<char>| n != name),
        remove_named_outcome(after.entries(), name) == Err::<Seq<(Seq<char>, H)>, RemoveErrorKind>(
            RemoveErrorKind::NotFound,
        ),
{
    let npred = |n: Seq<char>| n != name;
    lemma_filter_map_commute(before.entries(), name);
    assert(after.names() == before.names().filter(npred));
    if after.names().contains(name) {
        broadcast use vstd::seq_lib::group_filter_ensures;

        let i = choose|i: int| 0 <= i < after.names().len() && after.names()[i] == name;
        assert(npred(before.names().filter(npred)[i]));
    }
}

/// Filtering the entries by name and then taking their names is the same as
/// filtering their names.
proof fn lemma_filter_map_commute<H>(entries: Seq<(Seq<char>, H)>, name: Seq<char>)
    ensures
        names_of(entries.filter(not_named(name))) == names_of(entries).filter(
            |n: Seq<char>| n != name,
        ),
    decreases entries.len(),
{
    reveal_with_fuel(Seq::filter, 1);
    if entries.len() == 0 {
        assert(names_of(entries.filter(not_named(name))) =~= Seq::<Seq<char>>::empty());
        assert(names_of(entries).filter(|n: Seq<char>| n != name) =~= Seq::<Seq<char>>::empty());
    } else {
        lemma_filter_map_commute(entries.drop_last(), name);
        assert(names_of(entries).drop_last() =~= names_of(entries.drop_last()));
        let f = entries.drop_last().filter(not_named(name));
        assert(names_of(f.push(entries.last())) =~= names_of(f).push(entries.last().0));
    }
}

/// `add_back` of a handler named `name` followed by `remove(name)` gives back
/// the handlers the pipeline had, when none of them had that name.
pub proof fn law_remove_by_name_undoes_add_back<H>(
    entries: Seq<(Seq<char>, H)>,
    name: Seq<char>,
    h: H,
)
    requires
        name != reserved_name(),
        !names_of(entries).contains(name),
    ensures
        remove_named_outcome(entries.push((name, h)), name) == Ok::<
            Seq<(Seq<char>, H)>,
            RemoveErrorKind,
        >(entries),
{
    let added = entries.push((name, h));
    assert(names_of(added)[entries.len() as int] == name);
    reveal_with_fuel(Seq::filter, 1);
    assert(added.drop_last() =~= entries);
    lemma_filter_keeps_all(entries, name);
}

/// Filtering out a name that no entry has keeps every entry.
proof fn lemma_filter_keeps_all<H>(entries: Seq<(Seq<char>, H)>, name: Seq<char>)
    requires
        !names_of(entries).contains(name),
    ensures
        entries.filter(not_named(name)) == entries,
    decreases entries.len(),
{
    reveal_with_fuel(Seq::filter, 1);
    if entries.len() > 0 {
        let rest = entries.drop_last();
        assert(names_of(entries)[entries.len() - 1] == entries.last().0);
        assert forall|k: int| 0 <= k < rest.len() implies #[trigger] names_of(rest)[k] != name by {
            assert(names_of(entries)[k] == names_of(rest)[k]);
        }
        lemma_filter_keeps_all(rest, name);
        assert(rest.push(entries.last()) =~= entries);
    }
}

/// `remove` never takes the last handler: the reserved name is always refused.
pub proof fn law_reserved_name_is_never_removed<H>(entries: Seq<(Seq<char>, H)>)
    ensures
        remove_named_outcome(entries, reserved_name()) == Err::<
            Seq<(Seq<char>, H)>,
            RemoveErrorKind,
        >(RemoveErrorKind::PermissionDenied),
{
}

/// Adding a handler at either end keeps the reserved name out of the user
/// handlers, since a handler's name is never the reserved one.
pub proof fn law_adding_keeps_reserved_name_out<M, E, H>(
    before: Pipeline<M, E, H>,
    after: Pipeline<M, E, H>,
    h: H,
)
    requires
        !before.names().contains(reserved_name()),
        ({
            ||| after.entries() == before.entries().push((after.names().last(), h))
                && after.names().last() != reserved_name()
            ||| after.entries() == seq![(after.names()[0], h)] + before.entries()
                && after.names()[0] != reserved_name()
        }),
    ensures
        !after.names().contains(reserved_name()),
{
    if after.entries() == before.entries().push((after.names().last(), h))
        && after.names().last() != reserved_name() {
        lemma_adding_keeps_reserved_name_free(
            before.entries(),
            after.entries(),
            (after.names().last(), h),
        );
    } else {
        lemma_adding_keeps_reserved_name_free(
            before.entries(),
            after.entries(),
            (after.names()[0], h),
        );
    }
}

/// Removing handlers, from either end or by the name `name`, keeps the reserved name out
/// of the user handlers: removal only takes names away.
pub proof fn law_removing_keeps_reserved_name_out<M, E, H>(
    before: Pipeline<M, E, H>,
    after: Pipeline<M, E, H>,
    name: Seq<char>,
)
    requires
        !before.names().contains(reserved_name()),
        ({
            ||| before.entries().len() > 0 && after.entries() == before.entries().drop_last()
            ||| before.entries().len() > 0 && after.entries() == before.entries().drop_first()
            ||| after.entries() == before.entries().filter(not_named(name))
        }),
    ensures
        !after.names().contains(reserved_name()),
{
    lemma_removing_keeps_reserved_name_free(before.entries(), after.entries(), name);
}

/// Messages written to a pipeline with no user handler come out in the order
/// they were written: writing `m` behind a queue changes neither what the next
/// poll returns, unless the queue was empty, nor the order of what follows.
pub proof fn law_queue_is_first_in_first_out<M>(queue: Seq<M>, m: M)
    ensures
        queue.len() == 0 ==> front(queue.push(m)) == Some(m) && after_pop(queue.push(m))
            == Seq::<M>::empty(),
        queue.len() > 0 ==> front(queue.push(m)) == front(queue) && after_pop(queue.push(m))
            == after_pop(queue).push(m),
{
    if queue.len() == 0 {
        assert(after_pop(queue.push(m)) =~= Seq::<M>::empty());
    } else {
        assert(after_pop(queue.push(m)) =~= after_pop(queue).push(m));
    }
}

/// Events never put messages into the queue and only take them from its
/// front: after any run of events the queue is what remains of the messages
/// that were there, oldest ones taken first.
pub proof fn law_events_only_drain_the_queue<M, E, H>(
    first: Pipeline<M, E, H>,
    second: Pipeline<M, E, H>,
    third: Pipeline<M, E, H>,
)
    requires
        second.settled_from(first),
        third.settled_from(second),
    ensures
        third.settled_from(first),
{
    lemma_suffix_trans(third.transmits(), second.transmits(), first.transmits());
}

/// Events are handled one at a time: everything an event sets off is done
/// before the next event reaches the first handler, so the log holds the first
/// event, what it set off, then the second event.
pub proof fn law_events_are_handled_one_after_another<M, E, H>(
    first: Pipeline<M, E, H>,
    second: Pipeline<M, E, H>,
    third: Pipeline<M, E, H>,
    d1: Delivery<M, E>,
    d2: Delivery<M, E>,
)
    requires
        second.entered(first, d1),
        third.entered(second, d2),
    ensures
        extends(third.deliveries(), first.deliveries().push((0nat, d1))),
        first.deliveries().len() < second.deliveries().len() < third.deliveries().len(),
        third.deliveries()[second.deliveries().len() as int] == (0nat, d2),
{
    let l1 = first.deliveries().push((0nat, d1));
    let l2 = second.deliveries().push((0nat, d2));
    assert forall|i: int| 0 <= i < l1.len() implies #[trigger] third.deliveries()[i] == l1[i] by {
        assert(second.deliveries()[i] == l1[i]);
        assert(l2[i] == second.deliveries()[i]);
    }
    assert(l2[second.deliveries().len() as int] == (0nat, d2));
}

/// A handler that fires several events in a row still reaches only handlers
/// after its own, and still leaves the chain's shape as it found it.
pub proof fn law_successive_fires_move_down_the_chain<M, E, H>(
    a: Context<M, E, H>,
    b: Context<M, E, H>,
    c: Context<M, E, H>,
)
    requires
        b.follows(a),
        c.follows(b),
    ensures
        c.follows(a),
{
    lemma_suffix_trans(c.transmits(), b.transmits(), a.transmits());
    assert forall|i: int| 0 <= i < a.deliveries().len() implies #[trigger] c.deliveries()[i]
        == a.deliveries()[i] by {
        assert(b.deliveries()[i] == a.deliveries()[i]);
    }
    assert forall|i: int| a.deliveries().len() <= i < c.deliveries().len() implies #[trigger] c.deliveries()[i].0
        > a.position() by {
        if i < b.deliveries().len() {
            assert(b.deliveries()[i].0 > a.position());
        }
    }
}

/// `H` passes polls for outbound messages through: what its `poll_write`
/// returns is what `fire_poll_write` on its context returns.
pub open spec fn passes_poll_write_through<M, E, H: Handler<M, E>>() -> bool {
    forall|hm: &mut H, cm: &mut Context<M, E, H>, r: Option<M>|
        #[trigger] call_ensures(H::poll_write, (hm, cm), r) ==> call_ensures(
            Context::<M, E, H>::fire_poll_write,
            (cm,),
            r,
        )
}

/// A poll that reaches a pass-through handler of a finalized chain comes back
/// with the oldest queued message, and takes it from the queue.
proof fn lemma_pass_through_poll<M, E, H: Handler<M, E>>(
    before: Context<M, E, H>,
    after: Context<M, E, H>,
    r: Option<M>,
)
    requires
        passes_poll_write_through::<M, E, H>(),
        before.serving(),
        before.is_linked(),
        exists|hm: &mut H, cm: &mut Context<M, E, H>|
            mut_ref_current(cm) == before && mut_ref_future(cm) == after
                && #[trigger] call_ensures(H::poll_write, (hm, cm), r),
    ensures
        r == front(before.transmits()),
        after.transmits() == after_pop(before.transmits()),
    decreases before.chain_len() - before.position(),
{
    let (hm, cm) = choose|hm: &mut H, cm: &mut Context<M, E, H>|
        mut_ref_current(cm) == before && mut_ref_future(cm) == after
            && #[trigger] call_ensures(H::poll_write, (hm, cm), r);
    assert(call_ensures(Context::<M, E, H>::fire_poll_write, (cm,), r));
    if before.next_is_user() {
        let (hm2, cm2) = choose|hm2: &mut H, cm2: &mut Context<M, E, H>|
            {
                &&& mut_ref_current(cm2).is_handed(
                    before.names(),
                    before.is_linked(),
                    before.transmits(),
                    before.deliveries().push(((before.position() + 1) as nat, Delivery::PollWrite)),
                    (before.position() + 1) as nat,
                )
                &&& after.transmits() == mut_ref_future(cm2).transmits()
                &&& #[trigger] call_ensures(H::poll_write, (hm2, cm2), r)
            };
        lemma_pass_through_poll(mut_ref_current(cm2), mut_ref_future(cm2), r);
    }
}

/// Written messages come out in the order they were written through a
/// finalized pipeline whose handlers pass polls through: what `poll_write`
/// gives, as its contract describes it, is the oldest queued message, and it
/// leaves the rest of the queue in order.
pub proof fn law_pass_through_handlers_keep_writes_in_order<M, E, H: Handler<M, E>>(
    before: Pipeline<M, E, H>,
    after: Pipeline<M, E, H>,
    r: Option<M>,
)
    requires
        passes_poll_write_through::<M, E, H>(),
        before.is_finalized(),
        exists|hm: &mut H, cm: &mut Context<M, E, H>|
            {
                &&& mut_ref_current(cm).is_handed(
                    before.names(),
                    before.is_finalized(),
                    before.transmits(),
                    before.deliveries().push((0nat, Delivery::PollWrite)),
                    0nat,
                )
                &&& after.transmits() == mut_ref_future(cm).transmits()
                &&& #[trigger] call_ensures(H::poll_write, (hm, cm), r)
            },
    ensures
        r == front(before.transmits()),
        after.transmits() == after_pop(before.transmits()),
{
    let (hm, cm) = choose|hm: &mut H, cm: &mut Context<M, E, H>|
        {
            &&& mut_ref_current(cm).is_handed(
                before.names(),
                before.is_finalized(),
                before.transmits(),
                before.deliveries().push((0nat, Delivery::PollWrite)),
                0nat,
            )
            &&& after.transmits() == mut_ref_future(cm).transmits()
            &&& #[trigger] call_ensures(H::poll_write, (hm, cm), r)
        };
    lemma_pass_through_poll(mut_ref_current(cm), mut_ref_future(cm), r);
}

/// `H` passes polls for the next deadline through: what its `poll_timeout`
/// does is what `fire_poll_timeout` on its context does.
pub open spec fn passes_poll_timeout_through<M, E, H: Handler<M, E>>() -> bool {
    forall|hm: &mut H, cm: &mut Context<M, E, H>, em: &mut std::time::Instant|
        #[trigger] call_ensures(H::poll_timeout, (hm, cm, em), ()) ==> call_ensures(
            Context::<M, E, H>::fire_poll_timeout,
            (cm, em),
            (),
        )
}

/// A poll for the next deadline that reaches a pass-through handler of a
/// finalized chain leaves the deadline as it was.
proof fn lemma_pass_through_timeout<M, E, H: Handler<M, E>>(
    before: Context<M, E, H>,
    e0: std::time::Instant,
    e1: std::time::Instant,
)
    requires
        passes_poll_timeout_through::<M, E, H>(),
        before.serving(),
        before.is_linked(),
        exists|hm: &mut H, cm: &mut Context<M, E, H>, em: &mut std::time::Instant|
            mut_ref_current(cm) == before && mut_ref_current(em) == e0 && mut_ref_future(em) == e1
                && #[trigger] call_ensures(H::poll_timeout, (hm, cm, em), ()),
    ensures
        e1 == e0,
    decreases before.chain_len() - before.position(),
{
    let (hm, cm, em) = choose|hm: &mut H, cm: &mut Context<M, E, H>, em: &mut std::time::Instant|
        mut_ref_current(cm) == before && mut_ref_current(em) == e0 && mut_ref_future(em) == e1
            && #[trigger] call_ensures(H::poll_timeout, (hm, cm, em), ());
    assert(call_ensures(Context::<M, E, H>::fire_poll_timeout, (cm, em), ()));
    if before.next_is_user() {
        let (hm2, cm2, em2) = choose|
            hm2: &mut H,
            cm2: &mut Context<M, E, H>,
            em2: &mut std::time::Instant,
        |
            {
                &&& mut_ref_current(cm2).is_handed(
                    before.names(),
                    before.is_linked(),
                    before.transmits(),
                    before.deliveries().push(
                        ((before.position() + 1) as nat, Delivery::PollTimeout),
                    ),
                    (before.position() + 1) as nat,
                )
                &&& mut_ref_current(em2) == e0
                &&& mut_ref_future(em2) == e1
                &&& #[trigger] call_ensures(H::poll_timeout, (hm2, cm2, em2), ())
            };
        lemma_pass_through_timeout(mut_ref_current(cm2), e0, e1);
    }
}

/// Through a finalized pipeline whose handlers pass polls for the next
/// deadline through, `poll_timeout` leaves `eto` as it was: no handler asks
/// for an earlier one.
pub proof fn law_pass_through_handlers_keep_the_deadline<M, E, H: Handler<M, E>>(
    before: Pipeline<M, E, H>,
    e0: std::time::Instant,
    e1: std::time::Instant,
)
    requires
        passes_poll_timeout_through::<M, E, H>(),
        before.is_finalized(),
        exists|hm: &mut H, cm: &mut Context<M, E, H>, em: &mut std::time::Instant|
            {
                &&& mut_ref_current(cm).is_handed(
                    before.names(),
                    before.is_finalized(),
                    before.transmits(),
                    before.deliveries().push((0nat, Delivery::PollTimeout)),
                    0nat,
                )
                &&& mut_ref_current(em) == e0
                &&& mut_ref_future(em) == e1
                &&& #[trigger] call_ensures(H::poll_timeout, (hm, cm, em), ())
            },
    ensures
        e1 == e0,
{
    let (hm, cm, em) = choose|hm: &mut H, cm: &mut Context<M, E, H>, em: &mut std::time::Instant|
        {
            &&& mut_ref_current(cm).is_handed(
                before.names(),
                before.is_finalized(),
                before.transmits(),
                before.deliveries().push((0nat, Delivery::PollTimeout)),
                0nat,
            )
            &&& mut_ref_current(em) == e0
            &&& mut_ref_future(em) == e1
            &&& #[trigger] call_ensures(H::poll_timeout, (hm, cm, em), ())
        };
    lemma_pass_through_timeout(mut_ref_current(cm), e0, e1);
}

/// `after` is `before` with one handler added at one end (`add_back`,
/// `add_front`).
pub open spec fn added_one<M, E, H>(before: Pipeline<M, E, H>, after: Pipeline<M, E, H>) -> bool {
    exists|e: (Seq<char>, H)|
        after.entries() == before.entries().push(e) || after.entries() == seq![e]
            + before.entries()
}

/// `after` is `before` with one handler taken from one end (`remove_back`,
/// `remove_front`).
pub open spec fn removed_one<M, E, H>(before: Pipeline<M, E, H>, after: Pipeline<M, E, H>) -> bool {
    &&& before.entries().len() > 0
    &&& (after.entries() == before.entries().drop_last() || after.entries()
        == before.entries().drop_first())
}

/// `after` has as many handlers as `before` (what every other operation
/// leaves: `finalize`, `write`, and the events).
pub open spec fn kept_all<M, E, H>(before: Pipeline<M, E, H>, after: Pipeline<M, E, H>) -> bool {
    after.entries().len() == before.entries().len()
}

/// How many steps of the run `states` added a handler.
pub open spec fn count_added<M, E, H>(states: Seq<Pipeline<M, E, H>>) -> nat
    decreases states.len(),
{
    if states.len() < 2 {
        0
    } else {
        count_added(states.drop_last()) + if added_one(
            states[states.len() - 2],
            states[states.len() - 1],
        ) {
            1nat
        } else {
            0nat
        }
    }
}

/// How many steps of the run `states` removed a handler.
pub open spec fn count_removed<M, E, H>(states: Seq<Pipeline<M, E, H>>) -> nat
    decreases states.len(),
{
    if states.len() < 2 {
        0
    } else {
        count_removed(states.drop_last()) + if removed_one(
            states[states.len() - 2],
            states[states.len() - 1],
        ) {
            1nat
        } else {
            0nat
        }
    }
}

/// After any run of operations from an empty pipeline, where each step adds
/// one handler at an end, removes one from an end, or keeps the number of
/// handlers, the pipeline has as many handlers as were added minus those
/// removed: what `len` returns.
pub proof fn law_len_counts_adds_and_removes<M, E, H>(states: Seq<Pipeline<M, E, H>>)
    requires
        states.len() >= 1,
        states[0].entries().len() == 0,
        forall|i: int|
            0 <= i < states.len() - 1 ==> {
                ||| added_one(#[trigger] states[i], states[i + 1])
                ||| removed_one(states[i], states[i + 1])
                ||| kept_all(states[i], states[i + 1])
            },
    ensures
        states.last().entries().len() + count_removed(states) == count_added(states),
    decreases states.len(),
{
    if states.len() >= 2 {
        let prev = states.drop_last();
        assert forall|i: int| 0 <= i < prev.len() - 1 implies {
            ||| added_one(#[trigger] prev[i], prev[i + 1])
            ||| removed_one(prev[i], prev[i + 1])
            ||| kept_all(prev[i], prev[i + 1])
        } by {
            assert(prev[i] == states[i] && prev[i + 1] == states[i + 1]);
        }
        law_len_counts_adds_and_removes(prev);
        let a = states[states.len() - 2];
        let b = states[states.len() - 1];
        assert(prev.last() == a);
        assert(added_one(states[states.len() - 2], states[states.len() - 2 + 1]) || removed_one(
            a,
            b,
        ) || kept_all(a, b));
        if added_one(a, b) {
            let e = choose|e: (Seq<char>, H)|
                b.entries() == a.entries().push(e) || b.entries() == seq![e] + a.entries();
            assert(b.entries().len() == a.entries().len() + 1);
            assert(!removed_one(a, b));
        } else if removed_one(a, b) {
            assert(b.entries().len() + 1 == a.entries().len());
        }
    }
}

/// `after` is `before` with the entry `e`, whose name is not the reserved
/// one, added at either end.
pub open spec fn adds_entry<M, E, H>(
    before: Pipeline<M, E, H>,
    after: Pipeline<M, E, H>,
    e: (Seq<char>, H),
) -> bool {
    &&& e.0 != reserved_name()
    &&& (after.entries() == before.entries().push(e) || after.entries() == seq![e]
        + before.entries())
}

/// `after` is `before` without the handlers named `n`.
pub open spec fn drops_name<M, E, H>(
    before: Pipeline<M, E, H>,
    after: Pipeline<M, E, H>,
    n: Seq<char>,
) -> bool {
    after.entries() == before.entries().filter(not_named(n))
}

/// One step of a run of operations on a pipeline: adding a handler whose name
/// is not the reserved one at either end (`add_back`, `add_front`), removing
/// one from either end (`remove_back`, `remove_front`) or every handler of a
/// name (`remove`), or an operation that keeps the names (`finalize`, `write`,
/// `set_write_notify`, the events and polls).
pub open spec fn is_step<M, E, H>(before: Pipeline<M, E, H>, after: Pipeline<M, E, H>) -> bool {
    ||| exists|e: (Seq<char>, H)| #[trigger] adds_entry(before, after, e)
    ||| before.entries().len() > 0 && (after.entries() == before.entries().drop_last()
        || after.entries() == before.entries().drop_first())
    ||| exists|n: Seq<char>| #[trigger] drops_name(before, after, n)
    ||| after.names() == before.names()
}

/// In every state that a run of operations reaches from an empty pipeline, no
/// user handler has the reserved name: the last handler's name stays its own.
pub proof fn law_no_reachable_pipeline_has_the_reserved_name<M, E, H>(
    states: Seq<Pipeline<M, E, H>>,
)
    requires
        states.len() >= 1,
        states[0].entries().len() == 0,
        forall|i: int| 0 <= i < states.len() - 1 ==> is_step(#[trigger] states[i], states[i + 1]),
    ensures
        forall|i: int| 0 <= i < states.len() ==> (#[trigger] states[i]).no_reserved_name(),
    decreases states.len(),
{
    if states.len() == 1 {
        assert(states[0].names() =~= Seq::<Seq<char>>::empty());
    } else {
        let prev = states.drop_last();
        assert forall|i: int| 0 <= i < prev.len() - 1 implies is_step(
            #[trigger] prev[i],
            prev[i + 1],
        ) by {
            assert(prev[i] == states[i] && prev[i + 1] == states[i + 1]);
        }
        law_no_reachable_pipeline_has_the_reserved_name(prev);
        let k = states.len() - 1;
        let a = states[k - 1];
        let b = states[k];
        assert(prev[k - 1] == a);
        assert(is_step(states[k - 1], states[k - 1 + 1]));
        assert(a.no_reserved_name());
        if exists|e: (Seq<char>, H)| #[trigger] adds_entry(a, b, e) {
            let e = choose|e: (Seq<char>, H)| #[trigger] adds_entry(a, b, e);
            lemma_adding_keeps_reserved_name_free(a.entries(), b.entries(), e);
        } else if a.entries().len() > 0 && (b.entries() == a.entries().drop_last()
            || b.entries() == a.entries().drop_first()) {
            lemma_removing_keeps_reserved_name_free(a.entries(), b.entries(), reserved_name());
        } else if exists|n: Seq<char>| #[trigger] drops_name(a, b, n) {
            let n = choose|n: Seq<char>| #[trigger] drops_name(a, b, n);
            lemma_removing_keeps_reserved_name_free(a.entries(), b.entries(), n);
        }
        assert forall|i: int| 0 <= i < states.len() implies (#[trigger] states[i]).no_reserved_name() by {
            if i < k {
                assert(prev[i] == states[i]);
            }
        }
    }
}

/// A run of polls, each of which gives the oldest queued message and takes it
/// from the queue (as `poll_write` does with no user handler, and with
/// pass-through handlers by `law_pass_through_handlers_keep_writes_in_order`),
/// gives back the messages of the first queue in the order they were written,
/// and `None` once the queue is empty.
pub proof fn law_polls_give_the_queue_back_in_order<M>(queues: Seq<Seq<M>>, outs: Seq<Option<M>>)
    requires
        queues.len() == outs.len() + 1,
        forall|i: int|
            0 <= i < outs.len() ==> #[trigger] outs[i] == front(queues[i]) && queues[i + 1]
                == after_pop(queues[i]),
    ensures
        forall|i: int|
            0 <= i < outs.len() ==> #[trigger] outs[i] == if i < queues[0].len() {
                Some(queues[0][i])
            } else {
                None
            },
{
    assert forall|i: int| 0 <= i < queues.len() implies #[trigger] queues[i] == if i
        <= queues[0].len() {
        queues[0].skip(i)
    } else {
        Seq::<M>::empty()
    } by {
        lemma_queue_after_polls(queues, outs, i);
    }
    assert forall|i: int| 0 <= i < outs.len() implies #[trigger] outs[i] == if i
        < queues[0].len() {
        Some(queues[0][i])
    } else {
        None
    } by {
        assert(outs[i] == front(queues[i]));
        if i < queues[0].len() {
            lemma_queue_after_polls(queues, outs, i);
            assert(queues[i][0] == queues[0][i]);
        } else {
            lemma_queue_after_polls(queues, outs, i);
        }
    }
}

/// After `k` such polls the queue is what remains of the first one once its
/// first `k` messages are gone.
proof fn lemma_queue_after_polls<M>(queues: Seq<Seq<M>>, outs: Seq<Option<M>>, k: int)
    requires
        queues.len() == outs.len() + 1,
        0 <= k < queues.len(),
        forall|i: int|
            0 <= i < outs.len() ==> #[trigger] outs[i] == front(queues[i]) && queues[i + 1]
                == after_pop(queues[i]),
    ensures
        queues[k] == if k <= queues[0].len() {
            queues[0].skip(k)
        } else {
            Seq::<M>::empty()
        },
    decreases k,
{
    if k > 0 {
        lemma_queue_after_polls(queues, outs, k - 1);
        assert(outs[k - 1] == front(queues[k - 1]));
        let q = queues[0];
        if k <= q.len() {
            assert(q.skip(k - 1).drop_first() =~= q.skip(k));
        } else {
            assert(queues[k - 1] =~= Seq::<M>::empty());
        }
    } else {
        assert(queues[0].skip(0) =~= queues[0]);
    }
}

/// The I/O loop of a transport stops only when asked to, when reading fails,
/// when a receive yields nothing, and at a stream read of no bytes; every
/// other wake-up (a write waiting, a timer, data) keeps it going, whatever the
/// transport.
pub proof fn law_the_loop_stops_only_on_close_failure_or_end<M>(
    kind: TransportKind,
    ev: TransportEvent<M>,
)
    ensures
        !keeps_running(kind, ev) <==> ({
            ||| ev is Closed
            ||| ev is ReceiveFailed
            ||| ev is Ended
            ||| ev matches TransportEvent::Received { len, .. } && len == 0 && kind is Stream
        }),
        ev is WriteReady ==> keeps_running(kind, ev),
        ev is Timer ==> keeps_running(kind, ev),
{
}

/// A write wake-up feeds nothing to the pipeline, and a timer wake-up feeds it
/// a timeout at the given time, whatever the transport.
pub proof fn law_write_and_timer_wake_ups_for_every_transport<M, E>(
    kind: TransportKind,
    now: std::time::Instant,
)
    ensures
        pipeline_input::<M, E>(kind, TransportEvent::WriteReady) is None,
        pipeline_input::<M, E>(kind, TransportEvent::Timer(now)) == Some(
            Delivery::<M, E>::Inbound(InboundEvent::Timeout(now)),
        ),
{
}

/// Streams and datagrams differ only in a read of no bytes: for every other
/// wake-up, the loop's decision and what the pipeline is fed are the same for
/// both kinds of transport.
pub proof fn law_stream_and_datagram_loops_agree<M, E>(ev: TransportEvent<M>)
    requires
        !(ev matches TransportEvent::Received { len, .. } && len == 0),
    ensures
        keeps_running(TransportKind::Stream, ev) == keeps_running(TransportKind::Datagram, ev),
        pipeline_input::<M, E>(TransportKind::Stream, ev) == pipeline_input::<M, E>(
            TransportKind::Datagram,
            ev,
        ),
{
}

} // verus!
