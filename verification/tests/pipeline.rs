use std::cell::RefCell;
use std::collections::VecDeque;
use std::rc::Rc;
use std::time::{Duration, Instant};

use sansio::handler::{LastHandler, RESERVED_PIPELINE_HANDLE_NAME};
use sansio::{
    Context, Handler, InboundPipeline, OutboundPipeline, Pipeline, RemoveErrorKind,
};

type Log = Rc<RefCell<Vec<String>>>;

#[derive(Debug, Clone, PartialEq)]
enum Msg {
    Num(u32),
    Text(String),
}

#[derive(Clone, Copy, PartialEq)]
enum Kind {
    /// Forwards every event and message unchanged.
    Pass,
    /// Doubles numbers on the way in, adds one to them on the way out.
    Double,
    /// Keeps what it reads and hands it back when polled, after what the next
    /// handler has.
    Echo,
    /// Forwards, and asks for a timeout at its deadline.
    Deadline(u64),
}

struct TestHandler {
    name: &'static str,
    kind: Kind,
    log: Log,
    queue: VecDeque<Msg>,
    base: Instant,
}

impl TestHandler {
    fn new(name: &'static str, kind: Kind, log: &Log, base: Instant) -> Self {
        TestHandler { name, kind, log: log.clone(), queue: VecDeque::new(), base }
    }

    fn note(&self, what: &str) {
        self.log.borrow_mut().push(format!("{}:{}", self.name, what));
    }
}

impl Handler<Msg, String> for TestHandler {
    fn name(&self) -> &str {
        self.name
    }

    fn transport_active(&mut self, ctx: &mut Context<Msg, String, Self>) {
        self.note("active");
        ctx.fire_transport_active();
    }

    fn transport_inactive(&mut self, ctx: &mut Context<Msg, String, Self>) {
        self.note("inactive");
        ctx.fire_transport_inactive();
    }

    fn handle_read(&mut self, ctx: &mut Context<Msg, String, Self>, msg: Msg) {
        // the context a handler is given bears the handler's own name
        assert_eq!(ctx.name(), self.name);
        self.note(&format!("read {:?}", msg));
        match (self.kind, msg) {
            (Kind::Double, Msg::Num(n)) => ctx.fire_handle_read(Msg::Num(n * 2)),
            (Kind::Echo, msg) => self.queue.push_back(msg),
            (_, msg) => ctx.fire_handle_read(msg),
        }
    }

    fn poll_write(&mut self, ctx: &mut Context<Msg, String, Self>) -> Option<Msg> {
        match self.kind {
            Kind::Double => match ctx.fire_poll_write() {
                Some(Msg::Num(n)) => Some(Msg::Num(n + 1)),
                other => other,
            },
            Kind::Echo => {
                if let Some(msg) = ctx.fire_poll_write() {
                    self.queue.push_back(msg);
                }
                self.queue.pop_front()
            }
            _ => ctx.fire_poll_write(),
        }
    }

    fn handle_timeout(&mut self, ctx: &mut Context<Msg, String, Self>, now: Instant) {
        self.note(&format!("timeout {}", now.duration_since(self.base).as_secs()));
        ctx.fire_handle_timeout(now);
    }

    fn poll_timeout(&mut self, ctx: &mut Context<Msg, String, Self>, eto: &mut Instant) {
        if let Kind::Deadline(secs) = self.kind {
            let deadline = self.base + Duration::from_secs(secs);
            if deadline < *eto {
                *eto = deadline;
            }
        }
        ctx.fire_poll_timeout(eto);
    }

    fn handle_eof(&mut self, ctx: &mut Context<Msg, String, Self>) {
        self.note("eof");
        ctx.fire_handle_eof();
    }

    fn handle_error(&mut self, ctx: &mut Context<Msg, String, Self>, err: String) {
        self.note(&format!("error {}", err));
        ctx.fire_handle_error(err);
    }

    fn handle_close(&mut self, ctx: &mut Context<Msg, String, Self>) {
        self.note("close");
        ctx.fire_handle_close();
    }
}

fn log() -> Log {
    Rc::new(RefCell::new(Vec::new()))
}

fn entries(log: &Log) -> Vec<String> {
    log.borrow().clone()
}

#[test]
fn new_pipeline_is_empty() {
    let mut p: Pipeline<Msg, String, TestHandler> = Pipeline::new();
    assert_eq!(p.len(), 0);
    assert_eq!(p.poll_write(), None);
}

#[test]
fn add_back_and_add_front_set_the_order_of_inbound_events() {
    let l = log();
    let base = Instant::now();
    let mut p: Pipeline<Msg, String, TestHandler> = Pipeline::new();
    p.add_back(TestHandler::new("b", Kind::Pass, &l, base))
        .add_back(TestHandler::new("c", Kind::Pass, &l, base));
    p.add_front(TestHandler::new("a", Kind::Pass, &l, base));
    assert_eq!(p.len(), 3);
    p.finalize();
    p.transport_active();
    assert_eq!(entries(&l), vec!["a:active", "b:active", "c:active"]);
}

#[test]
fn events_before_finalize_stop_at_the_first_handler() {
    let l = log();
    let base = Instant::now();
    let mut p: Pipeline<Msg, String, TestHandler> = Pipeline::new();
    p.add_back(TestHandler::new("a", Kind::Pass, &l, base));
    p.add_back(TestHandler::new("b", Kind::Pass, &l, base));
    p.handle_read(Msg::Num(1));
    assert_eq!(entries(&l), vec!["a:read Num(1)"]);
    p.finalize();
    p.handle_read(Msg::Num(2));
    assert_eq!(entries(&l), vec!["a:read Num(1)", "a:read Num(2)", "b:read Num(2)"]);
}

#[test]
fn a_change_after_finalize_needs_finalize_again() {
    let l = log();
    let base = Instant::now();
    let mut p: Pipeline<Msg, String, TestHandler> = Pipeline::new();
    p.add_back(TestHandler::new("a", Kind::Pass, &l, base));
    p.finalize();
    p.add_back(TestHandler::new("b", Kind::Pass, &l, base));
    p.transport_active();
    assert_eq!(entries(&l), vec!["a:active"]);
    p.update();
    p.transport_inactive();
    assert_eq!(entries(&l), vec!["a:active", "a:inactive", "b:inactive"]);
}

#[test]
fn every_inbound_event_reaches_every_handler_in_order() {
    let l = log();
    let base = Instant::now();
    let mut p: Pipeline<Msg, String, TestHandler> = Pipeline::new();
    p.add_back(TestHandler::new("a", Kind::Pass, &l, base));
    p.add_back(TestHandler::new("b", Kind::Pass, &l, base));
    p.finalize();
    p.handle_timeout(base + Duration::from_secs(3));
    p.handle_eof();
    p.handle_error("boom".to_string());
    p.close();
    assert_eq!(
        entries(&l),
        vec![
            "a:timeout 3",
            "b:timeout 3",
            "a:eof",
            "b:eof",
            "a:error boom",
            "b:error boom",
            "a:close",
            "b:close",
        ]
    );
}

#[test]
fn handlers_transform_messages_both_ways() {
    let l = log();
    let base = Instant::now();
    let mut p: Pipeline<Msg, String, TestHandler> = Pipeline::new();
    p.add_back(TestHandler::new("double", Kind::Double, &l, base));
    p.add_back(TestHandler::new("echo", Kind::Echo, &l, base));
    p.finalize();
    p.handle_read(Msg::Num(5));
    assert_eq!(entries(&l), vec!["double:read Num(5)", "echo:read Num(10)"]);
    // the echo handler hands back what it read; the doubler adds one on the way out
    assert_eq!(p.poll_write(), Some(Msg::Num(11)));
    assert_eq!(p.poll_write(), None);
}

#[test]
fn written_messages_pass_through_the_handlers_on_their_way_out() {
    let l = log();
    let base = Instant::now();
    let mut p: Pipeline<Msg, String, TestHandler> = Pipeline::new();
    p.add_back(TestHandler::new("double", Kind::Double, &l, base));
    p.finalize();
    p.write(Msg::Num(1));
    p.write(Msg::Text("x".to_string()));
    assert_eq!(p.poll_write(), Some(Msg::Num(2)));
    assert_eq!(p.poll_write(), Some(Msg::Text("x".to_string())));
    assert_eq!(p.poll_write(), None);
}

#[test]
fn written_messages_come_out_in_order_without_handlers() {
    let mut p: Pipeline<Msg, String, TestHandler> = Pipeline::new();
    p.write(Msg::Num(1));
    p.write(Msg::Num(2));
    p.write(Msg::Num(3));
    assert_eq!(p.poll_write(), Some(Msg::Num(1)));
    p.write(Msg::Num(4));
    assert_eq!(p.poll_write(), Some(Msg::Num(2)));
    assert_eq!(p.poll_write(), Some(Msg::Num(3)));
    assert_eq!(p.poll_write(), Some(Msg::Num(4)));
    assert_eq!(p.poll_write(), None);
}

#[test]
fn events_on_a_pipeline_without_handlers_change_nothing() {
    let base = Instant::now();
    let mut p: Pipeline<Msg, String, TestHandler> = Pipeline::new();
    p.write(Msg::Num(7));
    p.transport_active();
    p.handle_read(Msg::Num(1));
    p.handle_timeout(base);
    p.handle_eof();
    p.handle_error("e".to_string());
    p.close();
    p.transport_inactive();
    let mut eto = base + Duration::from_secs(100);
    p.poll_timeout(&mut eto);
    assert_eq!(eto, base + Duration::from_secs(100));
    assert_eq!(p.poll_write(), Some(Msg::Num(7)));
    assert_eq!(p.poll_write(), None);
}

#[test]
fn poll_timeout_takes_the_earliest_deadline() {
    let l = log();
    let base = Instant::now();
    let mut p: Pipeline<Msg, String, TestHandler> = Pipeline::new();
    p.add_back(TestHandler::new("late", Kind::Deadline(50), &l, base));
    p.add_back(TestHandler::new("early", Kind::Deadline(20), &l, base));
    p.add_back(TestHandler::new("later", Kind::Deadline(80), &l, base));
    p.finalize();
    let mut eto = base + Duration::from_secs(100);
    p.poll_timeout(&mut eto);
    assert_eq!(eto, base + Duration::from_secs(20));
}

#[test]
fn remove_back_and_remove_front() {
    let l = log();
    let base = Instant::now();
    let mut p: Pipeline<Msg, String, TestHandler> = Pipeline::new();
    p.add_back(TestHandler::new("a", Kind::Pass, &l, base));
    p.add_back(TestHandler::new("b", Kind::Pass, &l, base));
    p.add_back(TestHandler::new("c", Kind::Pass, &l, base));
    assert!(p.remove_back().is_ok());
    assert!(p.remove_front().is_ok());
    assert_eq!(p.len(), 1);
    p.finalize();
    p.handle_eof();
    assert_eq!(entries(&l), vec!["b:eof"]);
    assert!(p.remove_back().is_ok());
    assert_eq!(p.len(), 0);
}

#[test]
fn removing_from_an_empty_pipeline_is_not_found() {
    let mut p: Pipeline<Msg, String, TestHandler> = Pipeline::new();
    p.write(Msg::Num(1));
    let err = p.remove_back().err().unwrap();
    assert_eq!(err.kind(), RemoveErrorKind::NotFound);
    assert_eq!(err.to_message(), "No handlers in pipeline");
    let err = p.remove_front().err().unwrap();
    assert_eq!(err.kind(), RemoveErrorKind::NotFound);
    assert_eq!(p.len(), 0);
    assert_eq!(p.poll_write(), Some(Msg::Num(1)));
}

#[test]
fn remove_by_name_takes_every_handler_of_that_name() {
    let l = log();
    let base = Instant::now();
    let mut p: Pipeline<Msg, String, TestHandler> = Pipeline::new();
    p.add_back(TestHandler::new("x", Kind::Pass, &l, base));
    p.add_back(TestHandler::new("keep", Kind::Pass, &l, base));
    p.add_back(TestHandler::new("x", Kind::Pass, &l, base));
    p.add_back(TestHandler::new("also", Kind::Pass, &l, base));
    assert!(p.remove("x").is_ok());
    assert_eq!(p.len(), 2);
    p.finalize();
    p.transport_active();
    assert_eq!(entries(&l), vec!["keep:active", "also:active"]);
    let err = p.remove("x").err().unwrap();
    assert_eq!(err.kind(), RemoveErrorKind::NotFound);
    assert_eq!(err.to_message(), "No such handler \"x\" in pipeline");
    assert_eq!(p.len(), 2);
}

#[test]
fn the_reserved_name_cannot_be_removed() {
    let l = log();
    let base = Instant::now();
    let mut p: Pipeline<Msg, String, TestHandler> = Pipeline::new();
    p.add_back(TestHandler::new("a", Kind::Pass, &l, base));
    let err = p.remove(RESERVED_PIPELINE_HANDLE_NAME).err().unwrap();
    assert_eq!(err.kind(), RemoveErrorKind::PermissionDenied);
    assert_eq!(err.to_message(), "handle name ReservedPipelineHandlerName is reserved");
    assert_eq!(p.len(), 1);
}

#[test]
fn remove_back_undoes_add_back() {
    let l = log();
    let base = Instant::now();
    let mut p: Pipeline<Msg, String, TestHandler> = Pipeline::new();
    p.add_back(TestHandler::new("a", Kind::Pass, &l, base));
    p.write(Msg::Num(9));
    p.add_back(TestHandler::new("b", Kind::Pass, &l, base));
    assert!(p.remove_back().is_ok());
    p.finalize();
    p.handle_eof();
    assert_eq!(entries(&l), vec!["a:eof"]);
    assert_eq!(p.len(), 1);
    assert_eq!(p.poll_write(), Some(Msg::Num(9)));
}

#[test]
fn remove_front_undoes_add_front() {
    let l = log();
    let base = Instant::now();
    let mut p: Pipeline<Msg, String, TestHandler> = Pipeline::new();
    p.add_back(TestHandler::new("a", Kind::Pass, &l, base));
    p.add_front(TestHandler::new("z", Kind::Pass, &l, base));
    assert!(p.remove_front().is_ok());
    p.finalize();
    p.handle_eof();
    assert_eq!(entries(&l), vec!["a:eof"]);
}

#[test]
fn a_context_made_by_new_leads_nowhere() {
    let mut ctx: Context<Msg, String, TestHandler> = Context::new("alone");
    assert_eq!(ctx.name(), "alone");
    assert_eq!(ctx.fire_poll_write(), None);
    ctx.fire_handle_read(Msg::Num(1));
    ctx.fire_transport_active();
    ctx.fire_transport_inactive();
    ctx.fire_handle_eof();
    ctx.fire_handle_error("e".to_string());
    ctx.fire_handle_close();
    let now = Instant::now();
    ctx.fire_handle_timeout(now);
    let mut eto = now;
    ctx.fire_poll_timeout(&mut eto);
    assert_eq!(eto, now);
    assert_eq!(ctx.fire_poll_write(), None);
}

#[test]
fn the_last_handler_queues_in_order() {
    let mut last = LastHandler::new(VecDeque::from(vec![1u8, 2]));
    assert_eq!(last.name(), RESERVED_PIPELINE_HANDLE_NAME);
    last.push(3);
    last.handle_read(9);
    assert_eq!(last.poll_write(), Some(1));
    assert_eq!(last.poll_write(), Some(2));
    assert_eq!(last.poll_write(), Some(3));
    assert_eq!(last.poll_write(), None);
}

/// Pulls one outbound message whenever it reads something, and keeps it.
struct Puller {
    pulled: Rc<RefCell<Vec<Msg>>>,
}

impl Handler<Msg, String> for Puller {
    fn name(&self) -> &str {
        "Puller"
    }
    fn transport_active(&mut self, ctx: &mut Context<Msg, String, Self>) {
        ctx.fire_transport_active();
    }
    fn transport_inactive(&mut self, ctx: &mut Context<Msg, String, Self>) {
        ctx.fire_transport_inactive();
    }
    fn handle_read(&mut self, ctx: &mut Context<Msg, String, Self>, _msg: Msg) {
        if let Some(m) = ctx.fire_poll_write() {
            self.pulled.borrow_mut().push(m);
        }
    }
    fn poll_write(&mut self, ctx: &mut Context<Msg, String, Self>) -> Option<Msg> {
        ctx.fire_poll_write()
    }
    fn handle_timeout(&mut self, ctx: &mut Context<Msg, String, Self>, now: Instant) {
        ctx.fire_handle_timeout(now);
    }
    fn poll_timeout(&mut self, ctx: &mut Context<Msg, String, Self>, eto: &mut Instant) {
        ctx.fire_poll_timeout(eto);
    }
    fn handle_eof(&mut self, ctx: &mut Context<Msg, String, Self>) {
        ctx.fire_handle_eof();
    }
    fn handle_error(&mut self, ctx: &mut Context<Msg, String, Self>, err: String) {
        ctx.fire_handle_error(err);
    }
    fn handle_close(&mut self, ctx: &mut Context<Msg, String, Self>) {
        ctx.fire_handle_close();
    }
}

#[test]
fn events_only_take_the_oldest_messages_from_the_queue() {
    let pulled = Rc::new(RefCell::new(Vec::new()));
    let mut p: Pipeline<Msg, String, Puller> = Pipeline::new();
    p.add_back(Puller { pulled: pulled.clone() });
    p.finalize();
    p.write(Msg::Num(1));
    p.write(Msg::Num(2));
    p.write(Msg::Num(3));
    p.handle_read(Msg::Text("go".to_string()));
    assert_eq!(*pulled.borrow(), vec![Msg::Num(1)]);
    p.handle_read(Msg::Text("go".to_string()));
    assert_eq!(*pulled.borrow(), vec![Msg::Num(1), Msg::Num(2)]);
    assert_eq!(p.poll_write(), Some(Msg::Num(3)));
    assert_eq!(p.poll_write(), None);
}

#[test]
fn a_handler_is_never_handed_the_reserved_name_slot() {
    // the last handler is not one of the user handlers: removing every user
    // handler leaves an empty chain that still queues writes
    let l = log();
    let base = Instant::now();
    let mut p: Pipeline<Msg, String, TestHandler> = Pipeline::new();
    p.add_back(TestHandler::new("a", Kind::Pass, &l, base));
    assert!(p.remove("a").is_ok());
    assert_eq!(p.len(), 0);
    p.write(Msg::Num(4));
    assert_eq!(p.poll_write(), Some(Msg::Num(4)));
}

#[test]
fn a_default_pipeline_is_an_empty_one() {
    let mut p: Pipeline<Msg, String, TestHandler> = Pipeline::default();
    assert_eq!(p.len(), 0);
    p.write(Msg::Num(3));
    assert_eq!(p.poll_write(), Some(Msg::Num(3)));
    assert_eq!(p.poll_write(), None);
}

#[test]
fn remove_by_name_undoes_add_back() {
    let l = log();
    let base = Instant::now();
    let mut p: Pipeline<Msg, String, TestHandler> = Pipeline::new();
    p.add_back(TestHandler::new("a", Kind::Pass, &l, base));
    p.add_back(TestHandler::new("b", Kind::Pass, &l, base));
    p.add_back(TestHandler::new("new", Kind::Pass, &l, base));
    assert!(p.remove("new").is_ok());
    assert_eq!(p.len(), 2);
    p.finalize();
    p.handle_eof();
    assert_eq!(entries(&l), vec!["a:eof", "b:eof"]);
}

#[test]
fn pass_through_handlers_keep_written_messages_in_order() {
    let l = log();
    let base = Instant::now();
    let mut p: Pipeline<Msg, String, TestHandler> = Pipeline::new();
    p.add_back(TestHandler::new("a", Kind::Pass, &l, base));
    p.add_back(TestHandler::new("b", Kind::Pass, &l, base));
    p.finalize();
    p.write(Msg::Num(1));
    p.write(Msg::Num(2));
    p.write(Msg::Num(3));
    assert_eq!(p.poll_write(), Some(Msg::Num(1)));
    assert_eq!(p.poll_write(), Some(Msg::Num(2)));
    assert_eq!(p.poll_write(), Some(Msg::Num(3)));
    assert_eq!(p.poll_write(), None);
}

#[test]
fn pass_through_handlers_keep_the_deadline() {
    let l = log();
    let base = Instant::now();
    let mut p: Pipeline<Msg, String, TestHandler> = Pipeline::new();
    p.add_back(TestHandler::new("a", Kind::Pass, &l, base));
    p.add_back(TestHandler::new("b", Kind::Pass, &l, base));
    p.finalize();
    let start = base + Duration::from_secs(60);
    let mut eto = start;
    p.poll_timeout(&mut eto);
    assert_eq!(eto, start);
}

#[test]
fn len_counts_adds_and_removes() {
    let l = log();
    let base = Instant::now();
    let mut p: Pipeline<Msg, String, TestHandler> = Pipeline::new();
    p.add_back(TestHandler::new("a", Kind::Pass, &l, base));
    p.add_front(TestHandler::new("b", Kind::Pass, &l, base));
    p.add_back(TestHandler::new("c", Kind::Pass, &l, base));
    assert!(p.remove_front().is_ok());
    p.finalize();
    p.write(Msg::Num(1));
    p.add_back(TestHandler::new("d", Kind::Pass, &l, base));
    assert!(p.remove_back().is_ok());
    // four adds and two removes
    assert_eq!(p.len(), 2);
}
