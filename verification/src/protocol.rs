//! `Protocol`: a simpler sans-IO interface for a protocol that needs no chain
//! of handlers.  The caller pushes transmits, events and the time in, and polls
//! transmits, events and the next deadline out.

use vstd::prelude::*;

verus! {

/// A sans-IO protocol, decoupled from the network and from timers.
///
/// Only the transmit half must be written; a protocol that ignores events,
/// time and closing keeps the defaults, which accept everything and offer
/// nothing.
pub trait Protocol {
    /// What travels on the transport.
    type Transmit;

    /// What the protocol reports to, or takes from, the application.
    type Event;

    /// Why an operation failed.
    type Error;

    /// Takes a transmit from the transport.
    fn handle_transmit(&mut self, transmit: Self::Transmit) -> Result<(), Self::Error>;

    /// The next transmit to send, if any.
    fn poll_transmit(&mut self) -> Option<Self::Transmit>;

    /// Takes an event from the application; by default it is accepted and
    /// dropped.
    fn handle_event(&mut self, evt: Self::Event) -> (r: Result<(), Self::Error>)
        default_ensures
            r is Ok,
    {
        Ok(())
    }

    /// The next event for the application; by default there is none.
    fn poll_event(&mut self) -> (r: Option<Self::Event>)
        default_ensures
            r is None,
    {
        None
    }

    /// Time moved on to `now`; by default nothing happens.
    fn handle_timeout(&mut self, now: std::time::Instant) -> (r: Result<(), Self::Error>)
        default_ensures
            r is Ok,
    {
        Ok(())
    }

    /// The next deadline at which `handle_timeout` is needed; by default none.
    fn poll_timeout(&mut self) -> (r: Option<std::time::Instant>)
        default_ensures
            r is None,
    {
        None
    }

    /// Closes the protocol; by default this succeeds and changes nothing.
    fn close(&mut self) -> (r: Result<(), Self::Error>)
        default_ensures
            r is Ok,
    {
        Ok(())
    }
}

/// A boxed protocol is the protocol in the box: each method returns what the
/// same method of the boxed protocol can return as it takes that protocol from
/// its state before the call to its state after.
impl<P: Protocol> Protocol for Box<P> {
    type Transmit = P::Transmit;

    type Event = P::Event;

    type Error = P::Error;

    fn handle_transmit(&mut self, transmit: P::Transmit) -> (r: Result<(), P::Error>)
        ensures
            exists|m: &mut P|
                mut_ref_current(m) == **old(self) && mut_ref_future(m) == **final(self)
                    && #[trigger] call_ensures(P::handle_transmit, (m, transmit), r),
    {
        let m: &mut P = &mut **self;
        let r = P::handle_transmit(m, transmit);
        assert(exists|n: &mut P| call_ensures(P::handle_transmit, (n, transmit), r));
        r
    }

    fn poll_transmit(&mut self) -> (r: Option<P::Transmit>)
        ensures
            exists|m: &mut P|
                mut_ref_current(m) == **old(self) && mut_ref_future(m) == **final(self)
                    && #[trigger] call_ensures(P::poll_transmit, (m,), r),
    {
        let m: &mut P = &mut **self;
        let r = P::poll_transmit(m);
        assert(exists|n: &mut P| call_ensures(P::poll_transmit, (n,), r));
        r
    }

    fn handle_event(&mut self, evt: P::Event) -> (r: Result<(), P::Error>)
        ensures
            exists|m: &mut P|
                mut_ref_current(m) == **old(self) && mut_ref_future(m) == **final(self)
                    && #[trigger] call_ensures(P::handle_event, (m, evt), r),
    {
        let m: &mut P = &mut **self;
        let r = P::handle_event(m, evt);
        assert(exists|n: &mut P| call_ensures(P::handle_event, (n, evt), r));
        r
    }

    fn poll_event(&mut self) -> (r: Option<P::Event>)
        ensures
            exists|m: &mut P|
                mut_ref_current(m) == **old(self) && mut_ref_future(m) == **final(self)
                    && #[trigger] call_ensures(P::poll_event, (m,), r),
    {
        let m: &mut P = &mut **self;
        let r = P::poll_event(m);
        assert(exists|n: &mut P| call_ensures(P::poll_event, (n,), r));
        r
    }

    fn handle_timeout(&mut self, now: std::time::Instant) -> (r: Result<(), P::Error>)
        ensures
            exists|m: &mut P|
                mut_ref_current(m) == **old(self) && mut_ref_future(m) == **final(self)
                    && #[trigger] call_ensures(P::handle_timeout, (m, now), r),
    {
        let m: &mut P = &mut **self;
        let r = P::handle_timeout(m, now);
        assert(exists|n: &mut P| call_ensures(P::handle_timeout, (n, now), r));
        r
    }

    fn poll_timeout(&mut self) -> (r: Option<std::time::Instant>)
        ensures
            exists|m: &mut P|
                mut_ref_current(m) == **old(self) && mut_ref_future(m) == **final(self)
                    && #[trigger] call_ensures(P::poll_timeout, (m,), r),
    {
        let m: &mut P = &mut **self;
        let r = P::poll_timeout(m);
        assert(exists|n: &mut P| call_ensures(P::poll_timeout, (n,), r));
        r
    }

    fn close(&mut self) -> (r: Result<(), P::Error>)
        ensures
            exists|m: &mut P|
                mut_ref_current(m) == **old(self) && mut_ref_future(m) == **final(self)
                    && #[trigger] call_ensures(P::close, (m,), r),
    {
        let m: &mut P = &mut **self;
        let r = P::close(m);
        assert(exists|n: &mut P| call_ensures(P::close, (n,), r));
        r
    }
}

/// A mutable reference to a protocol is the protocol it refers to: each method
/// returns what the same method of that protocol can return as it takes that
/// protocol from its state before the call to its state after.
impl<'a, P: Protocol> Protocol for &'a mut P {
    type Transmit = P::Transmit;

    type Event = P::Event;

    type Error = P::Error;

    fn handle_transmit(&mut self, transmit: P::Transmit) -> (r: Result<(), P::Error>)
        ensures
            exists|m: &mut P|
                mut_ref_current(m) == **old(self) && mut_ref_future(m) == **final(self)
                    && #[trigger] call_ensures(P::handle_transmit, (m, transmit), r),
    {
        let m: &mut P = &mut **self;
        let r = P::handle_transmit(m, transmit);
        assert(exists|n: &mut P| call_ensures(P::handle_transmit, (n, transmit), r));
        r
    }

    fn poll_transmit(&mut self) -> (r: Option<P::Transmit>)
        ensures
            exists|m: &mut P|
                mut_ref_current(m) == **old(self) && mut_ref_future(m) == **final(self)
                    && #[trigger] call_ensures(P::poll_transmit, (m,), r),
    {
        let m: &mut P = &mut **self;
        let r = P::poll_transmit(m);
        assert(exists|n: &mut P| call_ensures(P::poll_transmit, (n,), r));
        r
    }

    fn handle_event(&mut self, evt: P::Event) -> (r: Result<(), P::Error>)
        ensures
            exists|m: &mut P|
                mut_ref_current(m) == **old(self) && mut_ref_future(m) == **final(self)
                    && #[trigger] call_ensures(P::handle_event, (m, evt), r),
    {
        let m: &mut P = &mut **self;
        let r = P::handle_event(m, evt);
        assert(exists|n: &mut P| call_ensures(P::handle_event, (n, evt), r));
        r
    }

    fn poll_event(&mut self) -> (r: Option<P::Event>)
        ensures
            exists|m: &mut P|
                mut_ref_current(m) == **old(self) && mut_ref_future(m) == **final(self)
                    && #[trigger] call_ensures(P::poll_event, (m,), r),
    {
        let m: &mut P = &mut **self;
        let r = P::poll_event(m);
        assert(exists|n: &mut P| call_ensures(P::poll_event, (n,), r));
        r
    }

    fn handle_timeout(&mut self, now: std::time::Instant) -> (r: Result<(), P::Error>)
        ensures
            exists|m: &mut P|
                mut_ref_current(m) == **old(self) && mut_ref_future(m) == **final(self)
                    && #[trigger] call_ensures(P::handle_timeout, (m, now), r),
    {
        let m: &mut P = &mut **self;
        let r = P::handle_timeout(m, now);
        assert(exists|n: &mut P| call_ensures(P::handle_timeout, (n, now), r));
        r
    }

    fn poll_timeout(&mut self) -> (r: Option<std::time::Instant>)
        ensures
            exists|m: &mut P|
                mut_ref_current(m) == **old(self) && mut_ref_future(m) == **final(self)
                    && #[trigger] call_ensures(P::poll_timeout, (m,), r),
    {
        let m: &mut P = &mut **self;
        let r = P::poll_timeout(m);
        assert(exists|n: &mut P| call_ensures(P::poll_timeout, (n,), r));
        r
    }

    fn close(&mut self) -> (r: Result<(), P::Error>)
        ensures
            exists|m: &mut P|
                mut_ref_current(m) == **old(self) && mut_ref_future(m) == **final(self)
                    && #[trigger] call_ensures(P::close, (m,), r),
    {
        let m: &mut P = &mut **self;
        let r = P::close(m);
        assert(exists|n: &mut P| call_ensures(P::close, (n,), r));
        r
    }
}

} // verus!
