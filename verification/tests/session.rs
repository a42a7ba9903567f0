use signal_relay::registry::{MemberHandle, Registry};
use signal_relay::session::{Action, Event, Frame, Phase, Session};
use tokio::sync::mpsc::error::TryRecvError;
use tokio::sync::mpsc::UnboundedReceiver;

fn drain(inbox: &mut UnboundedReceiver<String>) -> Vec<String> {
    let mut got = Vec::new();
    while let Ok(text) = inbox.try_recv() {
        got.push(text);
    }
    got
}

fn drain_handle(handle: &mut MemberHandle) -> Vec<String> {
    drain(&mut handle.inbox)
}

fn active(reg: &mut Registry, room: &str, id: &str) -> (Session, UnboundedReceiver<String>) {
    let mut s = Session::new(room.to_string(), id.to_string());
    let inbox = s.enter(reg).unwrap();
    (s, inbox)
}

fn text(t: &str) -> Event {
    Event::Inbound(Frame::Text(t.to_string()))
}

#[test]
fn accept_keeps_the_identifier_asked_for() {
    let s = Session::accept("lobby".to_string(), Some("alice".to_string()));
    assert_eq!(s.room(), "lobby");
    assert_eq!(s.member_id(), "alice");
    assert_eq!(s.phase(), Phase::Joining);
}

#[test]
fn accept_generates_an_identifier_where_none_is_asked_for() {
    let s = Session::accept("lobby".to_string(), None);
    let t = Session::accept("lobby".to_string(), None);
    assert_eq!(s.member_id().len(), 36);
    assert_ne!(s.member_id(), t.member_id());
    assert_eq!(s.phase(), Phase::Joining);
}

#[test]
fn enter_registers_the_member_and_activates_the_session() {
    let mut reg = Registry::new();
    let mut s = Session::new("lobby".to_string(), "alice".to_string());
    let mut inbox = s.enter(&mut reg).unwrap();
    assert_eq!(s.phase(), Phase::Active);
    assert_eq!(s.token(), 0);
    assert_eq!(reg.member_ids("lobby"), vec!["alice".to_string()]);
    assert_eq!(inbox.try_recv(), Err(TryRecvError::Empty));
}

#[test]
fn enter_announces_the_newcomer_to_those_already_there() {
    let mut reg = Registry::new();
    let (_a, mut a_in) = active(&mut reg, "lobby", "alice");
    let (_b, mut b_in) = active(&mut reg, "lobby", "bob");
    let (_d, mut d_in) = active(&mut reg, "den", "dave");
    drain(&mut a_in);
    let (_x, mut x_in) = active(&mut reg, "lobby", "xavier");
    let join = "{\"type\":\"join\",\"sender\":\"xavier\",\"data\":null}".to_string();
    assert_eq!(drain(&mut a_in), vec![join.clone()]);
    assert_eq!(drain(&mut b_in), vec![join]);
    assert_eq!(drain(&mut d_in), Vec::<String>::new());
    assert_eq!(drain(&mut x_in), Vec::<String>::new());
}

#[test]
fn enter_does_not_announce_to_a_namesake() {
    let mut reg = Registry::new();
    let (_a, mut a_in) = active(&mut reg, "lobby", "alice");
    let (_a2, mut a2_in) = active(&mut reg, "lobby", "alice");
    assert_eq!(drain(&mut a_in), Vec::<String>::new());
    assert_eq!(drain(&mut a2_in), Vec::<String>::new());
    assert_eq!(reg.member_count("lobby"), 2);
}

#[test]
fn enter_works_once() {
    let mut reg = Registry::new();
    let (mut s, _inbox) = active(&mut reg, "lobby", "alice");
    assert!(s.enter(&mut reg).is_none());
    assert_eq!(reg.member_count("lobby"), 1);
    assert_eq!(s.phase(), Phase::Active);
    s.close(&mut reg);
    assert!(s.enter(&mut reg).is_none());
    assert_eq!(s.phase(), Phase::Closed);
    assert!(!reg.has_room("lobby"));
}

#[test]
fn a_text_frame_is_relayed_to_the_others_only() {
    let mut reg = Registry::new();
    let (mut a, mut a_in) = active(&mut reg, "lobby", "alice");
    let (_b, mut b_in) = active(&mut reg, "lobby", "bob");
    let (_c, mut c_in) = active(&mut reg, "lobby", "carol");
    let (_d, mut d_in) = active(&mut reg, "den", "dave");
    drain(&mut a_in);
    drain(&mut b_in);
    let action = a.handle(
        &mut reg,
        text("{\"type\":\"offer\",\"sender\":\"alice\",\"data\":{\"sdp\":\"x\"}}"),
    );
    assert_eq!(action, Action::Continue);
    let wire = "{\"type\":\"offer\",\"sender\":\"alice\",\"data\":{\"sdp\":\"x\"}}".to_string();
    assert_eq!(drain(&mut a_in), Vec::<String>::new());
    assert_eq!(drain(&mut b_in), vec![wire.clone()]);
    assert_eq!(drain(&mut c_in), vec![wire]);
    assert_eq!(drain(&mut d_in), Vec::<String>::new());
    assert_eq!(a.phase(), Phase::Active);
}

#[test]
fn a_forged_sender_is_overwritten() {
    let mut reg = Registry::new();
    let (mut a, _a_in) = active(&mut reg, "lobby", "alice");
    let (_b, mut b_in) = active(&mut reg, "lobby", "bob");
    a.handle(&mut reg, text("{\"type\":\"ice\",\"sender\":\"bob\",\"data\":1}"));
    a.handle(&mut reg, text("{\"type\":\"ice\",\"sender\":\"\",\"data\":1}"));
    a.handle(&mut reg, text("{\"type\":\"ice\",\"sender\":\"mallory\",\"data\":1}"));
    let wire = "{\"type\":\"ice\",\"sender\":\"alice\",\"data\":1}".to_string();
    assert_eq!(drain(&mut b_in), vec![wire.clone(), wire.clone(), wire]);
}

#[test]
fn a_frame_without_data_is_relayed_with_null() {
    let mut reg = Registry::new();
    let (mut a, _a_in) = active(&mut reg, "lobby", "alice");
    let (_b, mut b_in) = active(&mut reg, "lobby", "bob");
    a.handle(&mut reg, text("{\"type\":\"ping\",\"sender\":\"x\",\"extra\":true}"));
    assert_eq!(
        drain(&mut b_in),
        vec!["{\"type\":\"ping\",\"sender\":\"alice\",\"data\":null}".to_string()]
    );
}

#[test]
fn a_malformed_frame_is_dropped_and_the_session_goes_on() {
    let mut reg = Registry::new();
    let (mut a, mut a_in) = active(&mut reg, "lobby", "alice");
    let (_b, mut b_in) = active(&mut reg, "lobby", "bob");
    drain(&mut a_in);
    assert_eq!(a.handle(&mut reg, text("not json")), Action::ReportMalformed);
    assert_eq!(a.handle(&mut reg, text("{\"type\":\"t\"}")), Action::ReportMalformed);
    assert_eq!(a.handle(&mut reg, text("[1,2,3]")), Action::ReportMalformed);
    assert_eq!(a.phase(), Phase::Active);
    assert_eq!(reg.member_count("lobby"), 2);
    assert_eq!(drain(&mut a_in), Vec::<String>::new());
    assert_eq!(drain(&mut b_in), Vec::<String>::new());
    assert_eq!(
        a.handle(&mut reg, text("{\"type\":\"t\",\"sender\":\"s\"}")),
        Action::Continue
    );
    assert_eq!(
        drain(&mut b_in),
        vec!["{\"type\":\"t\",\"sender\":\"alice\",\"data\":null}".to_string()]
    );
}

#[test]
fn an_outbound_text_is_to_be_written() {
    let mut reg = Registry::new();
    let (mut a, _a_in) = active(&mut reg, "lobby", "alice");
    assert_eq!(
        a.handle(&mut reg, Event::Outbound("payload".to_string())),
        Action::Write("payload".to_string())
    );
    assert_eq!(a.phase(), Phase::Active);
    assert_eq!(reg.member_count("lobby"), 1);
}

#[test]
fn other_frames_are_ignored() {
    let mut reg = Registry::new();
    let (mut a, _a_in) = active(&mut reg, "lobby", "alice");
    let (_b, mut b_in) = active(&mut reg, "lobby", "bob");
    assert_eq!(a.handle(&mut reg, Event::Inbound(Frame::Other)), Action::Continue);
    assert_eq!(a.phase(), Phase::Active);
    assert_eq!(drain(&mut b_in), Vec::<String>::new());
}

#[test]
fn a_close_frame_closes_the_session_and_announces_the_departure() {
    let mut reg = Registry::new();
    let (mut a, mut a_in) = active(&mut reg, "lobby", "alice");
    let (_b, mut b_in) = active(&mut reg, "lobby", "bob");
    let (_d, mut d_in) = active(&mut reg, "den", "dave");
    drain(&mut a_in);
    assert_eq!(a.handle(&mut reg, Event::Inbound(Frame::Close)), Action::Stop);
    assert_eq!(a.phase(), Phase::Closed);
    assert_eq!(reg.member_ids("lobby"), vec!["bob".to_string()]);
    assert_eq!(
        drain(&mut b_in),
        vec!["{\"type\":\"leave\",\"sender\":\"alice\",\"data\":null}".to_string()]
    );
    assert_eq!(drain(&mut d_in), Vec::<String>::new());
    assert_eq!(drain(&mut a_in), Vec::<String>::new());
}

#[test]
fn every_end_of_a_stream_and_every_failure_closes() {
    let events = vec![
        Event::Inbound(Frame::Close),
        Event::InboundEnded,
        Event::ReadFailed,
        Event::OutboundEnded,
        Event::WriteFailed,
    ];
    for event in events {
        let mut reg = Registry::new();
        let (mut a, _a_in) = active(&mut reg, "lobby", "alice");
        let (_b, mut b_in) = active(&mut reg, "lobby", "bob");
        assert_eq!(a.handle(&mut reg, event), Action::Stop);
        assert_eq!(a.phase(), Phase::Closed);
        assert_eq!(reg.member_ids("lobby"), vec!["bob".to_string()]);
        assert_eq!(
            drain(&mut b_in),
            vec!["{\"type\":\"leave\",\"sender\":\"alice\",\"data\":null}".to_string()]
        );
    }
}

#[test]
fn the_departure_reaches_a_member_without_a_name_and_a_namesake() {
    let mut reg = Registry::new();
    let (mut a, _a_in) = active(&mut reg, "lobby", "alice");
    let (_e, mut e_in) = active(&mut reg, "lobby", "");
    let (_a2, mut a2_in) = active(&mut reg, "lobby", "alice");
    drain(&mut e_in);
    a.close(&mut reg);
    let leave = "{\"type\":\"leave\",\"sender\":\"alice\",\"data\":null}".to_string();
    assert_eq!(drain(&mut e_in), vec![leave.clone()]);
    assert_eq!(drain(&mut a2_in), vec![leave]);
    assert_eq!(
        reg.member_ids("lobby"),
        vec!["".to_string(), "alice".to_string()]
    );
}

#[test]
fn closing_twice_leaves_once() {
    let mut reg = Registry::new();
    let (mut a, _a_in) = active(&mut reg, "lobby", "alice");
    let (_a2, mut a2_in) = active(&mut reg, "lobby", "alice");
    let (_b, mut b_in) = active(&mut reg, "lobby", "bob");
    drain(&mut a2_in);
    drain(&mut b_in);
    a.close(&mut reg);
    a.close(&mut reg);
    assert_eq!(a.handle(&mut reg, Event::Inbound(Frame::Close)), Action::Stop);
    assert_eq!(a.handle(&mut reg, Event::InboundEnded), Action::Stop);
    assert_eq!(
        reg.member_ids("lobby"),
        vec!["alice".to_string(), "bob".to_string()]
    );
    let leave = "{\"type\":\"leave\",\"sender\":\"alice\",\"data\":null}".to_string();
    assert_eq!(drain(&mut a2_in), vec![leave.clone()]);
    assert_eq!(drain(&mut b_in), vec![leave]);
}

#[test]
fn a_closed_session_ignores_every_event() {
    let mut reg = Registry::new();
    let (mut a, _a_in) = active(&mut reg, "lobby", "alice");
    let (_b, mut b_in) = active(&mut reg, "lobby", "bob");
    a.close(&mut reg);
    drain(&mut b_in);
    assert_eq!(
        a.handle(&mut reg, text("{\"type\":\"t\",\"sender\":\"s\"}")),
        Action::Stop
    );
    assert_eq!(a.handle(&mut reg, Event::Outbound("x".to_string())), Action::Stop);
    assert_eq!(a.handle(&mut reg, Event::Inbound(Frame::Other)), Action::Stop);
    assert_eq!(drain(&mut b_in), Vec::<String>::new());
    assert_eq!(reg.member_ids("lobby"), vec!["bob".to_string()]);
}

#[test]
fn a_session_that_never_entered_ignores_events_and_closes_quietly() {
    let mut reg = Registry::new();
    let (_b, mut b_in) = active(&mut reg, "lobby", "bob");
    let mut s = Session::new("lobby".to_string(), "alice".to_string());
    assert_eq!(
        s.handle(&mut reg, text("{\"type\":\"t\",\"sender\":\"s\"}")),
        Action::Stop
    );
    assert_eq!(s.phase(), Phase::Joining);
    s.close(&mut reg);
    assert_eq!(s.phase(), Phase::Closed);
    assert_eq!(drain(&mut b_in), Vec::<String>::new());
    assert_eq!(reg.member_ids("lobby"), vec!["bob".to_string()]);
}

#[test]
fn the_last_to_leave_takes_the_room_along() {
    let mut reg = Registry::new();
    let (mut a, _a_in) = active(&mut reg, "lobby", "alice");
    a.handle(&mut reg, Event::InboundEnded);
    assert!(!reg.has_room("lobby"));
    let (_c, mut c_in) = active(&mut reg, "lobby", "carol");
    assert_eq!(reg.member_ids("lobby"), vec!["carol".to_string()]);
    assert_eq!(drain(&mut c_in), Vec::<String>::new());
}

#[test]
fn relay_overwrites_the_sender_of_an_envelope() {
    let mut reg = Registry::new();
    let (a, _a_in) = active(&mut reg, "lobby", "alice");
    let mut b = reg.join("lobby", "bob");
    let e = signal_relay::envelope::SignalEnvelope {
        kind: "answer".to_string(),
        sender: "bob".to_string(),
        data: Some(serde_json::Value::String("x".to_string())),
    };
    a.relay(&mut reg, e);
    assert_eq!(
        drain_handle(&mut b),
        vec!["{\"type\":\"answer\",\"sender\":\"alice\",\"data\":\"x\"}".to_string()]
    );
}

#[test]
fn a_dead_peer_does_not_hold_up_a_relay() {
    let mut reg = Registry::new();
    let (mut a, _a_in) = active(&mut reg, "lobby", "alice");
    let (_b, b_in) = active(&mut reg, "lobby", "bob");
    let (_c, mut c_in) = active(&mut reg, "lobby", "carol");
    let (_d, mut d_in) = active(&mut reg, "lobby", "dave");
    drop(b_in);
    drain(&mut c_in);
    assert_eq!(
        a.handle(&mut reg, text("{\"type\":\"t\",\"sender\":\"alice\"}")),
        Action::Continue
    );
    let wire = "{\"type\":\"t\",\"sender\":\"alice\",\"data\":null}".to_string();
    assert_eq!(drain(&mut c_in), vec![wire.clone()]);
    assert_eq!(drain(&mut d_in), vec![wire]);
}

#[test]
fn relay_from_a_session_that_is_not_active_goes_nowhere() {
    let mut reg = Registry::new();
    let mut b = reg.join("lobby", "bob");
    let joining = Session::new("lobby".to_string(), "alice".to_string());
    joining.relay(&mut reg, signal_relay::envelope::SignalEnvelope::announcement("x", "y"));
    assert_eq!(drain_handle(&mut b), Vec::<String>::new());
    let (mut a, _a_in) = active(&mut reg, "lobby", "alice");
    assert_eq!(drain_handle(&mut b).len(), 1);
    a.close(&mut reg);
    assert_eq!(drain_handle(&mut b).len(), 1);
    a.relay(&mut reg, signal_relay::envelope::SignalEnvelope::announcement("x", "y"));
    assert_eq!(drain_handle(&mut b), Vec::<String>::new());
}
