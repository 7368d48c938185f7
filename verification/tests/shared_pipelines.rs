use std::sync::atomic::{AtomicUsize, Ordering};
use std::sync::Arc;
use std::time::Instant;

use sansio::{
    ArcInboundPipeline, ArcOutboundPipeline, ArcPipeline, Context, Handler, NotifyCallback,
    RcInboundPipeline, RcOutboundPipeline, RcPipeline, RemoveErrorKind,
};

/// Upper-cases inbound text into its own queue and hands it back on poll,
/// after whatever the next handler has.
struct Upper {
    queue: Vec<String>,
}

impl Handler<String, ()> for Upper {
    fn name(&self) -> &str {
        "Upper"
    }
    fn transport_active(&mut self, ctx: &mut Context<String, (), Self>) {
        ctx.fire_transport_active();
    }
    fn transport_inactive(&mut self, ctx: &mut Context<String, (), Self>) {
        ctx.fire_transport_inactive();
    }
    fn handle_read(&mut self, _ctx: &mut Context<String, (), Self>, msg: String) {
        self.queue.push(msg.to_uppercase());
    }
    fn poll_write(&mut self, ctx: &mut Context<String, (), Self>) -> Option<String> {
        if let Some(msg) = ctx.fire_poll_write() {
            return Some(msg);
        }
        if self.queue.is_empty() {
            None
        } else {
            Some(self.queue.remove(0))
        }
    }
    fn handle_timeout(&mut self, ctx: &mut Context<String, (), Self>, now: Instant) {
        ctx.fire_handle_timeout(now);
    }
    fn poll_timeout(&mut self, ctx: &mut Context<String, (), Self>, eto: &mut Instant) {
        ctx.fire_poll_timeout(eto);
    }
    fn handle_eof(&mut self, ctx: &mut Context<String, (), Self>) {
        ctx.fire_handle_eof();
    }
    fn handle_error(&mut self, ctx: &mut Context<String, (), Self>, err: ()) {
        ctx.fire_handle_error(err);
    }
    fn handle_close(&mut self, ctx: &mut Context<String, (), Self>) {
        ctx.fire_handle_close();
    }
}

fn counter() -> (Arc<AtomicUsize>, NotifyCallback) {
    let count = Arc::new(AtomicUsize::new(0));
    let c = count.clone();
    (count, NotifyCallback::new(move || {
        c.fetch_add(1, Ordering::SeqCst);
    }))
}

#[test]
fn rc_pipeline_runs_its_handlers() {
    let mut p: RcPipeline<String, (), Upper> = RcPipeline::new();
    p.add_back(Upper { queue: Vec::new() });
    p.finalize();
    assert_eq!(p.len(), 1);
    p.transport_active();
    p.handle_read("hello".to_string());
    p.write("raw".to_string());
    assert_eq!(p.poll_write(), Some("raw".to_string()));
    assert_eq!(p.poll_write(), Some("HELLO".to_string()));
    assert_eq!(p.poll_write(), None);
    p.close();
}

#[test]
fn rc_pipeline_write_calls_the_notify_callback() {
    let mut p: RcPipeline<String, (), Upper> = RcPipeline::new();
    let (count, notify) = counter();
    p.write("before".to_string());
    assert_eq!(count.load(Ordering::SeqCst), 0);
    p.set_write_notify(notify);
    p.write("a".to_string());
    p.write("b".to_string());
    assert_eq!(count.load(Ordering::SeqCst), 2);
    assert_eq!(p.poll_write(), Some("before".to_string()));
    assert_eq!(p.poll_write(), Some("a".to_string()));
    assert_eq!(p.poll_write(), Some("b".to_string()));
}

#[test]
fn rc_pipeline_removal_errors() {
    let mut p: RcPipeline<String, (), Upper> = RcPipeline::new();
    assert_eq!(p.remove_back().err().unwrap().kind(), RemoveErrorKind::NotFound);
    assert_eq!(p.remove_front().err().unwrap().kind(), RemoveErrorKind::NotFound);
    p.add_front(Upper { queue: Vec::new() });
    assert_eq!(
        p.remove("ReservedPipelineHandlerName").err().unwrap().kind(),
        RemoveErrorKind::PermissionDenied
    );
    assert_eq!(p.remove("Other").err().unwrap().kind(), RemoveErrorKind::NotFound);
    assert!(p.remove("Upper").is_ok());
    assert_eq!(p.len(), 0);
}

#[test]
fn arc_pipeline_runs_its_handlers() {
    let mut p: ArcPipeline<String, (), Upper> = ArcPipeline::new();
    p.add_back(Upper { queue: Vec::new() });
    p.finalize();
    p.handle_read("abc".to_string());
    p.handle_eof();
    p.handle_error(());
    p.handle_timeout(Instant::now());
    let now = Instant::now();
    let mut eto = now;
    p.poll_timeout(&mut eto);
    assert_eq!(eto, now);
    assert_eq!(p.poll_write(), Some("ABC".to_string()));
    assert_eq!(p.poll_write(), None);
    p.transport_inactive();
}

#[test]
fn arc_pipeline_write_calls_the_notify_callback() {
    let mut p: ArcPipeline<String, (), Upper> = ArcPipeline::new();
    let (count, notify) = counter();
    p.set_write_notify(notify);
    p.write("x".to_string());
    assert_eq!(count.load(Ordering::SeqCst), 1);
    assert!(p.remove_back().is_err());
    p.add_back(Upper { queue: Vec::new() });
    assert!(p.remove_front().is_ok());
    assert_eq!(p.poll_write(), Some("x".to_string()));
}

#[test]
fn default_shared_pipelines_are_empty() {
    let mut rc: RcPipeline<String, (), Upper> = RcPipeline::default();
    assert_eq!(rc.len(), 0);
    assert_eq!(rc.poll_write(), None);
    let mut arc: ArcPipeline<String, (), Upper> = ArcPipeline::default();
    assert_eq!(arc.len(), 0);
    arc.write("x".to_string());
    assert_eq!(arc.poll_write(), Some("x".to_string()));
}
