use cdpkit::listeners::Subscriber;
use cdpkit::session::{Inbound, LoopStep, Reply, Routed, Session, Slot};
use cdpkit::CdpError;
use serde_json::Value;
use std::sync::Arc;
use tokio::sync::{mpsc, oneshot};

fn slot() -> (Slot, oneshot::Receiver<Reply>) {
    oneshot::channel()
}

fn subscriber() -> (Subscriber, mpsc::UnboundedReceiver<Arc<Value>>) {
    mpsc::unbounded_channel()
}

fn json(text: &str) -> Value {
    serde_json::from_str(text).unwrap()
}

#[test]
fn create_target_reply_reaches_its_caller_only() {
    let mut s = Session::new();
    let (tx1, mut rx1) = slot();
    let (tx2, mut rx2) = slot();
    let (id1, frame1) = s
        .begin_command("Target.createTarget", "{\"url\":\"about:blank\"}", None, tx1)
        .unwrap();
    let (id2, _) = s.begin_command("Page.enable", "{}", None, tx2).unwrap();
    assert_eq!(id1, 1);
    assert_eq!(id2, 2);
    assert_eq!(
        frame1,
        "{\"id\":1,\"method\":\"Target.createTarget\",\"params\":{\"url\":\"about:blank\"}}"
    );
    let routed = s.handle_text("{\"id\":1,\"result\":{\"targetId\":\"T1\"}}");
    assert!(matches!(routed, Routed::Resolved(1)));
    let reply = rx1.try_recv().unwrap().unwrap().unwrap();
    assert_eq!(reply.get("targetId").and_then(|v| v.as_str()), Some("T1"));
    assert!(rx2.try_recv().is_err());
    assert_eq!(s.pending_count(), 1);
}

#[test]
fn peer_error_becomes_protocol_error() {
    let mut s = Session::new();
    let mut receivers = Vec::new();
    for _ in 0..5 {
        let (tx, rx) = slot();
        s.begin_command("Bogus.method", "{}", None, tx).unwrap();
        receivers.push(rx);
    }
    let routed =
        s.handle_text("{\"id\":5,\"error\":{\"code\":-32601,\"message\":\"method not found\"}}");
    assert!(matches!(routed, Routed::Resolved(5)));
    match receivers[4].try_recv().unwrap() {
        Err(CdpError::Protocol { code, message }) => {
            assert_eq!(code, -32601);
            assert_eq!(message, "method not found");
        }
        _ => panic!("expected a protocol error"),
    }
    for rx in receivers.iter_mut().take(4) {
        assert!(rx.try_recv().is_err());
    }
}

#[test]
fn error_without_code_or_message_gets_defaults() {
    let mut s = Session::new();
    let (tx, mut rx) = slot();
    s.begin_command("A.b", "{}", None, tx).unwrap();
    s.handle_text("{\"id\":1,\"error\":{}}");
    match rx.try_recv().unwrap() {
        Err(CdpError::Protocol { code, message }) => {
            assert_eq!(code, -1);
            assert_eq!(message, "Unknown error");
        }
        _ => panic!("expected a protocol error"),
    }
}

#[test]
fn concurrent_commands_each_get_their_own_reply() {
    let mut s = Session::new();
    let mut receivers = Vec::new();
    for _ in 0..10 {
        let (tx, rx) = slot();
        let (id, _) = s.begin_command("Runtime.evaluate", "{}", None, tx).unwrap();
        receivers.push((id, rx));
    }
    for id in (1..=10u64).rev() {
        let text = format!("{{\"id\":{},\"result\":{{\"value\":{}}}}}", id, id * 100);
        assert!(matches!(s.handle_text(&text), Routed::Resolved(r) if r == id));
    }
    for (id, mut rx) in receivers {
        let reply = rx.try_recv().unwrap().unwrap().unwrap();
        assert_eq!(reply.get("value").and_then(|v| v.as_u64()), Some(id * 100));
    }
    assert_eq!(s.pending_count(), 0);
}

#[test]
fn second_reply_for_same_id_is_unknown() {
    let mut s = Session::new();
    let (tx, _rx) = slot();
    s.begin_command("A.b", "{}", None, tx).unwrap();
    assert!(matches!(s.handle_text("{\"id\":1,\"result\":{}}"), Routed::Resolved(1)));
    assert!(matches!(s.handle_text("{\"id\":1,\"result\":{}}"), Routed::UnknownId(1)));
}

#[test]
fn ids_strictly_increase_and_are_not_reused() {
    let mut s = Session::new();
    let mut last = 0u64;
    for i in 0..20u64 {
        let (tx, _rx) = slot();
        let (id, _) = s.begin_command("A.b", "{}", None, tx).unwrap();
        assert!(id > last);
        last = id;
        if i % 3 == 0 {
            let text = format!("{{\"id\":{},\"result\":{{}}}}", id);
            s.handle_text(&text);
        }
    }
    assert_eq!(s.peek_next_id(), 21);
}

#[test]
fn empty_or_absent_result_is_an_empty_payload() {
    let mut s = Session::new();
    let (tx, mut rx) = slot();
    s.begin_command("Page.enable", "{}", None, tx).unwrap();
    s.handle_text("{\"id\":1}");
    assert!(rx.try_recv().unwrap().unwrap().is_none());
}

#[test]
fn session_id_goes_into_the_frame() {
    let mut s = Session::new();
    let (tx, _rx) = slot();
    let (_, frame) = s.begin_command("Page.navigate", "{\"url\":\"a\"}", Some("S\"1"), tx).unwrap();
    assert_eq!(
        frame,
        "{\"id\":1,\"method\":\"Page.navigate\",\"params\":{\"url\":\"a\"},\"sessionId\":\"S\\\"1\"}"
    );
}

#[test]
fn close_fails_every_pending_command() {
    let mut s = Session::new();
    let mut receivers = Vec::new();
    for _ in 0..3 {
        let (tx, rx) = slot();
        s.begin_command("A.b", "{}", None, tx).unwrap();
        receivers.push(rx);
    }
    let (tx, _rx) = slot();
    s.begin_command("A.c", "{}", None, tx).unwrap();
    s.handle_text("{\"id\":4,\"result\":{}}");
    assert_eq!(s.close(), 3);
    assert!(!s.running());
    assert_eq!(s.pending_count(), 0);
    for mut rx in receivers {
        assert!(matches!(rx.try_recv().unwrap(), Err(CdpError::ConnectionClosed)));
    }
    let (tx, mut rx) = slot();
    assert!(matches!(
        s.begin_command("A.b", "{}", None, tx),
        Err(CdpError::ConnectionClosed)
    ));
    assert!(rx.try_recv().is_err());
    assert_eq!(s.pending_count(), 0);
}

#[test]
fn topics_stay_after_close() {
    let mut s = Session::new();
    let (tx, _rx) = subscriber();
    s.subscribe("Page.loadEventFired", tx);
    s.close();
    assert_eq!(s.subscriber_count("Page.loadEventFired"), 1);
}

#[test]
fn load_event_reaches_both_subscribers() {
    let mut s = Session::new();
    let (a, mut ra) = subscriber();
    let (b, mut rb) = subscriber();
    s.subscribe("Page.loadEventFired", a);
    s.subscribe("Page.loadEventFired", b);
    let routed =
        s.handle_text("{\"method\":\"Page.loadEventFired\",\"params\":{\"timestamp\":123.4}}");
    match routed {
        Routed::Notified { topic, outcomes } => {
            assert_eq!(topic, "Page.loadEventFired");
            assert_eq!(outcomes, vec![true, true]);
        }
        _ => panic!("expected a notification"),
    }
    let ea = ra.try_recv().unwrap();
    let eb = rb.try_recv().unwrap();
    assert!(Arc::ptr_eq(&ea, &eb));
    assert_eq!(ea.get("timestamp").and_then(|v| v.as_f64()), Some(123.4));
    let other = s.handle_text("{\"method\":\"Page.frameNavigated\",\"params\":{}}");
    match other {
        Routed::Notified { outcomes, .. } => assert!(outcomes.is_empty()),
        _ => panic!("expected a notification"),
    }
    assert_eq!(s.subscriber_count("Page.frameNavigated"), 0);
}

#[test]
fn late_subscriber_misses_earlier_notification() {
    let mut s = Session::new();
    let (early, mut r_early) = subscriber();
    s.subscribe("Network.requestWillBeSent", early);
    s.handle_text("{\"method\":\"Network.requestWillBeSent\",\"params\":{\"n\":1}}");
    let (late, mut r_late) = subscriber();
    s.subscribe("Network.requestWillBeSent", late);
    assert!(r_late.try_recv().is_err());
    s.handle_text("{\"method\":\"Network.requestWillBeSent\",\"params\":{\"n\":2}}");
    assert_eq!(r_early.try_recv().unwrap().get("n").and_then(|v| v.as_u64()), Some(1));
    assert_eq!(r_early.try_recv().unwrap().get("n").and_then(|v| v.as_u64()), Some(2));
    assert_eq!(r_late.try_recv().unwrap().get("n").and_then(|v| v.as_u64()), Some(2));
    assert!(r_late.try_recv().is_err());
}

#[test]
fn dropped_subscriber_is_pruned_silently() {
    let mut s = Session::new();
    let (a, ra) = subscriber();
    let (b, mut rb) = subscriber();
    s.subscribe("Page.loadEventFired", a);
    s.subscribe("Page.loadEventFired", b);
    drop(ra);
    let routed = s.handle_text("{\"method\":\"Page.loadEventFired\"}");
    match routed {
        Routed::Notified { outcomes, .. } => assert_eq!(outcomes, vec![false, true]),
        _ => panic!("expected a notification"),
    }
    assert_eq!(s.subscriber_count("Page.loadEventFired"), 1);
    assert!(rb.try_recv().unwrap().is_null());
}

#[test]
fn unrecognized_frames_are_discarded() {
    let mut s = Session::new();
    let (tx, mut rx) = slot();
    s.begin_command("A.b", "{}", None, tx).unwrap();
    assert!(matches!(s.handle_text("not json"), Routed::Discarded));
    assert!(matches!(s.handle_text("{\"foo\":1}"), Routed::Discarded));
    assert!(matches!(s.handle_text("[1,2]"), Routed::Discarded));
    assert!(matches!(s.handle_text("{\"id\":\"1\"}"), Routed::Discarded));
    assert!(rx.try_recv().is_err());
    assert_eq!(s.pending_count(), 1);
}

#[test]
fn loop_events_decide_whether_to_go_on() {
    let mut s = Session::new();
    let (tx, mut rx) = slot();
    s.begin_command("A.b", "{}", None, tx).unwrap();
    assert!(matches!(s.on_inbound(Inbound::Control), LoopStep::Ignored));
    assert!(matches!(
        s.on_inbound(Inbound::Text("garbage".to_string())),
        LoopStep::Handled(Routed::Discarded)
    ));
    assert_eq!(s.pending_count(), 1);
    assert!(matches!(s.on_inbound(Inbound::Failed), LoopStep::Stopped(1)));
    assert!(matches!(rx.try_recv().unwrap(), Err(CdpError::ConnectionClosed)));
    assert!(!s.running());
    assert!(matches!(s.on_inbound(Inbound::Closed), LoopStep::Stopped(0)));
    let mut t = Session::new();
    assert!(matches!(t.on_inbound(Inbound::Finished), LoopStep::Stopped(0)));
}
