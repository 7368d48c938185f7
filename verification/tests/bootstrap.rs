use std::cell::RefCell;
use std::rc::Rc;
use std::time::Instant;

use sansio::bootstrap::{handle_transport_event, TransportEvent, TransportKind};
use sansio::{Context, Handler, RcOutboundPipeline, RcInboundPipeline, RcPipeline};

/// Records the events it sees as text, and hands back what it read when polled.
struct Probe {
    seen: Rc<RefCell<Vec<String>>>,
    replies: Vec<u32>,
}

impl Handler<u32, ()> for Probe {
    fn name(&self) -> &str {
        "Probe"
    }
    fn transport_active(&mut self, ctx: &mut Context<u32, (), Self>) {
        self.seen.borrow_mut().push("active".to_string());
        ctx.fire_transport_active();
    }
    fn transport_inactive(&mut self, ctx: &mut Context<u32, (), Self>) {
        self.seen.borrow_mut().push("inactive".to_string());
        ctx.fire_transport_inactive();
    }
    fn handle_read(&mut self, ctx: &mut Context<u32, (), Self>, msg: u32) {
        self.seen.borrow_mut().push(format!("read {}", msg));
        self.replies.push(msg);
        ctx.fire_handle_read(msg);
    }
    fn poll_write(&mut self, ctx: &mut Context<u32, (), Self>) -> Option<u32> {
        if let Some(m) = ctx.fire_poll_write() {
            return Some(m);
        }
        if self.replies.is_empty() {
            None
        } else {
            Some(self.replies.remove(0) + 1000)
        }
    }
    fn handle_timeout(&mut self, ctx: &mut Context<u32, (), Self>, now: Instant) {
        self.seen.borrow_mut().push("timeout".to_string());
        ctx.fire_handle_timeout(now);
    }
    fn poll_timeout(&mut self, ctx: &mut Context<u32, (), Self>, eto: &mut Instant) {
        ctx.fire_poll_timeout(eto);
    }
    fn handle_eof(&mut self, ctx: &mut Context<u32, (), Self>) {
        self.seen.borrow_mut().push("eof".to_string());
        ctx.fire_handle_eof();
    }
    fn handle_error(&mut self, ctx: &mut Context<u32, (), Self>, err: ()) {
        self.seen.borrow_mut().push("error".to_string());
        ctx.fire_handle_error(err);
    }
    fn handle_close(&mut self, ctx: &mut Context<u32, (), Self>) {
        self.seen.borrow_mut().push("close".to_string());
        ctx.fire_handle_close();
    }
}

fn probe_pipeline() -> (RcPipeline<u32, (), Probe>, Rc<RefCell<Vec<String>>>) {
    let seen = Rc::new(RefCell::new(Vec::new()));
    let mut p = RcPipeline::new();
    p.add_back(Probe { seen: Rc::clone(&seen), replies: Vec::new() });
    p.finalize();
    (p, seen)
}

fn received(len: usize, msg: u32) -> TransportEvent<u32> {
    TransportEvent::Received { len, msg }
}

#[test]
fn the_loop_stops_on_close_end_of_stream_and_read_failure() {
    let (mut p, _) = probe_pipeline();
    let stream = || TransportKind::Stream;
    assert!(!handle_transport_event(&mut p, stream(), TransportEvent::Closed));
    assert!(!handle_transport_event(&mut p, stream(), received(0, 0)));
    assert!(!handle_transport_event(&mut p, stream(), TransportEvent::ReceiveFailed));
    assert!(handle_transport_event(&mut p, stream(), TransportEvent::WriteReady));
    assert!(handle_transport_event(&mut p, stream(), TransportEvent::Timer(Instant::now())));
    assert!(handle_transport_event(&mut p, stream(), received(4, 1)));
}

#[test]
fn a_datagram_loop_goes_on_after_an_empty_datagram() {
    let (mut p, seen) = probe_pipeline();
    assert!(handle_transport_event(&mut p, TransportKind::Datagram, received(0, 9)));
    assert!(handle_transport_event(&mut p, TransportKind::Datagram, received(3, 8)));
    assert!(!handle_transport_event(&mut p, TransportKind::Datagram, TransportEvent::Closed));
    assert!(!handle_transport_event(&mut p, TransportKind::Datagram, TransportEvent::ReceiveFailed));
    // the empty datagram never reached the handler; the other one did
    assert_eq!(*seen.borrow(), vec!["read 8".to_string()]);
    assert_eq!(p.poll_write(), Some(1008));
    assert_eq!(p.poll_write(), None);
}

#[test]
fn each_wake_up_reaches_the_pipeline_as_its_event() {
    let (mut p, seen) = probe_pipeline();
    handle_transport_event(&mut p, TransportKind::Stream, received(2, 7));
    handle_transport_event(&mut p, TransportKind::Stream, TransportEvent::Timer(Instant::now()));
    handle_transport_event(&mut p, TransportKind::Stream, TransportEvent::WriteReady);
    handle_transport_event(&mut p, TransportKind::Stream, TransportEvent::Closed);
    handle_transport_event(&mut p, TransportKind::Stream, TransportEvent::ReceiveFailed);
    handle_transport_event(&mut p, TransportKind::Stream, received(0, 0));
    assert_eq!(*seen.borrow(), vec!["read 7", "timeout", "eof"]);
    // the reply to what was read is the only thing to send
    assert_eq!(p.poll_write(), Some(1007));
    assert_eq!(p.poll_write(), None);
    p.write(5);
    assert_eq!(p.poll_write(), Some(5));
    p.transport_inactive();
    assert_eq!(seen.borrow().last().map(|s| s.as_str()), Some("inactive"));
}

#[test]
fn events_without_handlers_leave_the_queue_alone() {
    let mut p: RcPipeline<u32, (), Probe> = RcPipeline::new();
    p.write(1);
    assert!(handle_transport_event(&mut p, TransportKind::Stream, received(1, 2)));
    assert!(!handle_transport_event(&mut p, TransportKind::Stream, received(0, 0)));
    assert_eq!(p.poll_write(), Some(1));
    assert_eq!(p.poll_write(), None);
}

#[test]
fn a_receive_that_yields_nothing_ends_either_loop() {
    let (mut p, seen) = probe_pipeline();
    assert!(!handle_transport_event(&mut p, TransportKind::Datagram, TransportEvent::Ended));
    assert!(!handle_transport_event(&mut p, TransportKind::Stream, TransportEvent::Ended));
    assert_eq!(*seen.borrow(), vec!["eof", "eof"]);
}
