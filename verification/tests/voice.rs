use qaul::{recipients, Call, CallInvitation, CallUser, CallUsers, SubscribeError};
use std::collections::{BTreeMap, BTreeSet};

#[test]
fn new_call_invites_only_its_creator() {
    let c = Call::new(10, 5);
    assert_eq!(c.id, 10);
    assert!(c.participants.is_empty());
    assert_eq!(c.invitees, BTreeSet::from([5]));
}

#[test]
fn invite_join_leave() {
    let mut c = Call::new(10, 5);
    c.invite(6);
    c.join(5);
    c.join(6);
    assert_eq!(c.invitees, BTreeSet::from([5, 6]));
    assert_eq!(c.participants, BTreeSet::from([5, 6]));
    c.leave(5);
    assert_eq!(c.invitees, BTreeSet::from([6]));
    assert_eq!(c.participants, BTreeSet::from([6]));
    let inv = CallInvitation::for_call(&c);
    assert_eq!(inv.invitees, c.invitees);
    assert_eq!(inv.participants, c.participants);
}

#[test]
fn recipients_skip_the_sender_in_order() {
    let to = BTreeSet::from([9, 3, 7, 1]);
    assert_eq!(recipients(7, &to), vec![1, 3, 9]);
    assert_eq!(recipients(2, &to), vec![1, 3, 7, 9]);
    assert_eq!(recipients(2, &BTreeSet::new()), Vec::<u128>::new());
}

#[test]
fn call_event_subscriptions_start_and_grow_lists() {
    let mut u: CallUser<&str, &str> = CallUser::new();
    u.subscribe_call_events(1, "a");
    u.subscribe_call_events(1, "b");
    u.subscribe_call_events(2, "c");
    u.subscribe_invites("i");
    assert_eq!(u.call_event_subs, BTreeMap::from([(1, vec!["a", "b"]), (2, vec!["c"])]));
    assert_eq!(u.invitation_subs, vec!["i"]);
}

#[test]
fn subscribing_needs_a_logged_in_user() {
    let mut users: CallUsers<u8, u8> = CallUsers::new();
    assert_eq!(users.subscribe_invites(4, 1), Err(SubscribeError::NoUser));
    assert_eq!(users.subscribe_call_events(4, 9, 1), Err(SubscribeError::NoUser));
    users.insert(4, CallUser::new());
    assert_eq!(users.subscribe_invites(4, 1), Ok(()));
    assert_eq!(users.subscribe_call_events(4, 9, 2), Ok(()));
    assert_eq!(users.users[&4].invitation_subs, vec![1]);
    assert_eq!(users.users[&4].call_event_subs[&9], vec![2]);
    users.remove(4);
    assert_eq!(users.subscribe_invites(4, 1), Err(SubscribeError::NoUser));
}

#[test]
fn clients_keep_worker_handles_until_logout() {
    let mut clients: qaul::Clients<&str, u8, u8> = qaul::Clients::new();
    clients.opened(4, "worker-4");
    clients.users.insert(4, CallUser::new());
    clients.opened(5, "worker-5");
    assert_eq!(clients.closed(4), Some("worker-4"));
    assert!(clients.users.users.is_empty());
    assert_eq!(clients.closed(4), None);
    assert_eq!(clients.handles.len(), 1);
}
