use qaul::{Action, Call, CallChange, CallMessage, CallOp, CallTask, Event, Phase};
use std::collections::BTreeSet;

fn call_with(invitees: &[u128]) -> Call {
    Call { id: 10, participants: BTreeSet::new(), invitees: invitees.iter().cloned().collect() }
}

fn sent_to(a: &Action) -> (u128, String) {
    match a {
        Action::Send { to, msg } => (*to, format!("{:?}", msg)),
        other => panic!("expected a send, got {:?}", other),
    }
}

#[test]
fn invite_sends_invitation_updates_then_tells_the_others_in_order() {
    let mut t = CallTask::new(1, 10, CallOp::Invite { friend: 7 });
    assert!(matches!(t.step(Event::Begin), Action::FetchCall));
    let before = call_with(&[1, 5]);
    match t.step(Event::Fetched(before.clone())) {
        Action::Send { to, msg: CallMessage::Invitation(inv) } => {
            assert_eq!(to, 7);
            assert_eq!(inv.invitees, before.invitees);
            assert_eq!(inv.participants, before.participants);
        }
        other => panic!("unexpected {:?}", other),
    }
    match t.step(Event::Sent) {
        Action::Update { change } => assert_eq!(change, CallChange::Invite(7)),
        other => panic!("unexpected {:?}", other),
    }
    let mut stored = call_with(&[1, 5, 3]);
    CallChange::Invite(7).apply(&mut stored);
    assert_eq!(sent_to(&t.step(Event::Updated(stored))), (3, "InvitationSent(7)".to_string()));
    assert_eq!(sent_to(&t.step(Event::Sent)), (5, "InvitationSent(7)".to_string()));
    assert_eq!(sent_to(&t.step(Event::Sent)), (7, "InvitationSent(7)".to_string()));
    assert!(matches!(t.step(Event::Sent), Action::Done));
    assert_eq!(t.phase, Phase::Finished);
}

#[test]
fn join_updates_then_tells_the_others() {
    let mut t = CallTask::new(5, 10, CallOp::Join);
    match t.step(Event::Begin) {
        Action::Update { change } => assert_eq!(change, CallChange::Join(5)),
        other => panic!("unexpected {:?}", other),
    }
    assert_eq!(sent_to(&t.step(Event::Updated(call_with(&[5, 2])))), (2, "Join".to_string()));
    assert!(matches!(t.step(Event::Sent), Action::Done));
}

#[test]
fn leave_with_nobody_left_is_done_at_once() {
    let mut t = CallTask::new(5, 10, CallOp::Leave);
    match t.step(Event::Begin) {
        Action::Update { change } => assert_eq!(change, CallChange::Leave(5)),
        other => panic!("unexpected {:?}", other),
    }
    let mut stored = call_with(&[5]);
    CallChange::Leave(5).apply(&mut stored);
    assert!(stored.invitees.is_empty());
    assert!(matches!(t.step(Event::Updated(stored)), Action::Done));
}

#[test]
fn a_failure_ends_the_operation() {
    let mut t = CallTask::new(1, 10, CallOp::Invite { friend: 7 });
    t.step(Event::Begin);
    t.step(Event::Fetched(call_with(&[1])));
    assert!(matches!(t.step(Event::Failed), Action::Fail));
    assert_eq!(t.phase, Phase::Finished);
    assert!(matches!(t.step(Event::Sent), Action::Fail));
}

#[test]
fn call_changes() {
    let mut c = call_with(&[1]);
    CallChange::Join(1).apply(&mut c);
    assert_eq!(c.participants, BTreeSet::from([1]));
    CallChange::Invite(2).apply(&mut c);
    assert_eq!(c.invitees, BTreeSet::from([1, 2]));
    CallChange::Leave(1).apply(&mut c);
    assert!(c.participants.is_empty());
    assert_eq!(c.invitees, BTreeSet::from([2]));
}
