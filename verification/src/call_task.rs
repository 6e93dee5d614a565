//! The steps of the voice service's call operations.
//!
//! Inviting a user fetches the call, sends the invitation to the friend,
//! adds the friend to the stored call's invitees and tells every other
//! invitee. Joining and leaving change the stored call and tell every other
//! invitee. The storage and the messaging are the caller's: each step takes
//! what the last request gave back and says what to request next. The first
//! failure ends the operation with that failure.

use vstd::prelude::*;
use crate::order::strictly_increasing;
use crate::voice::{recipients, Call, CallId, CallInvitation, CallMessage, Identity};

verus! {

/// A call operation of a user.
#[derive(Clone, Copy, Debug, PartialEq, Eq, Structural)]
pub enum CallOp {
    /// Invite `friend` to the call.
    Invite { friend: Identity },
    /// Join the call.
    Join,
    /// Leave the call.
    Leave,
}

/// A change to a stored call.
#[derive(Clone, Copy, Debug, PartialEq, Eq, Structural)]
pub enum CallChange {
    /// Add the user to the invitees.
    Invite(Identity),
    /// Add the user to the participants.
    Join(Identity),
    /// Remove the user from the participants and the invitees.
    Leave(Identity),
}

impl CallChange {
    /// Make this change to `call`.
    pub fn apply(&self, call: &mut Call)
        ensures
            final(call).id == old(call).id,
            match *self {
                CallChange::Invite(u) => final(call).participants@ == old(call).participants@
                    && final(call).invitees@ == old(call).invitees@.insert(u),
                CallChange::Join(u) => final(call).participants@ == old(call).participants@.insert(u)
                    && final(call).invitees@ == old(call).invitees@,
                CallChange::Leave(u) => final(call).participants@ == old(call).participants@.remove(u)
                    && final(call).invitees@ == old(call).invitees@.remove(u),
            },
    {
        match self {
            CallChange::Invite(u) => call.invite(*u),
            CallChange::Join(u) => call.join(*u),
            CallChange::Leave(u) => call.leave(*u),
        }
    }
}

/// Where an operation stands.
#[derive(Clone, Copy, Debug, PartialEq, Eq, Structural)]
pub enum Phase {
    /// Not begun.
    Start,
    /// The call was requested.
    AwaitCall,
    /// The invitation was sent to the friend.
    AwaitInvitationSent,
    /// The change to the stored call was requested.
    AwaitUpdate,
    /// A notice was sent to an invitee.
    Notifying,
    /// The operation is over.
    Finished,
}

/// What the last request gave back.
#[derive(Clone, Debug)]
pub enum Event {
    /// Start the operation.
    Begin,
    /// The requested call.
    Fetched(Call),
    /// The message went out.
    Sent,
    /// The stored call after the change.
    Updated(Call),
    /// The request failed.
    Failed,
}

/// What to request next.
#[derive(Clone, Debug)]
pub enum Action {
    /// Fetch the call.
    FetchCall,
    /// Send `msg` to `to`.
    Send { to: Identity, msg: CallMessage },
    /// Make this change to the stored call.
    Update { change: CallChange },
    /// The operation succeeded.
    Done,
    /// The operation failed with the failure just reported.
    Fail,
}

/// Whether `msg` is the notice that operation `op` sends to the invitees.
pub open spec fn is_notice(op: CallOp, msg: CallMessage) -> bool {
    match (op, msg) {
        (CallOp::Invite { friend }, CallMessage::InvitationSent(f)) => f == friend,
        (CallOp::Join, CallMessage::Join) => true,
        (CallOp::Leave, CallMessage::Part) => true,
        _ => false,
    }
}

/// One call operation of `user` on call `call`.
pub struct CallTask {
    pub user: Identity,
    pub call: CallId,
    pub op: CallOp,
    pub phase: Phase,
    /// The invitees still to be told, in increasing order.
    pub pending: Vec<Identity>,
}

/// Whether `action` and `task` are where telling the invitees `rest`, in
/// this order, leaves an operation: done when nobody is left, else the
/// notice goes to the first and the others wait.
pub open spec fn notifies(task: CallTask, action: Action, rest: Seq<Identity>) -> bool {
    if rest.len() == 0 {
        task.phase == Phase::Finished && action is Done
    } else {
        &&& task.phase == Phase::Notifying
        &&& task.pending@ == rest.drop_first()
        &&& action matches Action::Send { to, msg } && to == rest[0] && is_notice(task.op, msg)
    }
}

impl CallTask {
    /// A new operation `op` of `user` on call `call`.
    pub fn new(user: Identity, call: CallId, op: CallOp) -> (t: CallTask)
        ensures
            t.user == user,
            t.call == call,
            t.op == op,
            t.phase == Phase::Start,
            t.pending@ == Seq::<Identity>::empty(),
    {
        CallTask { user, call, op, phase: Phase::Start, pending: Vec::new() }
    }

    /// The notice this operation sends to the invitees.
    fn notice(&self) -> (msg: CallMessage)
        ensures
            is_notice(self.op, msg),
    {
        match self.op {
            CallOp::Invite { friend } => CallMessage::InvitationSent(friend),
            CallOp::Join => CallMessage::Join,
            CallOp::Leave => CallMessage::Part,
        }
    }

    /// Tell the next invitee that is still pending, or finish.
    fn notify_next(&mut self) -> (action: Action)
        ensures
            final(self).user == old(self).user,
            final(self).call == old(self).call,
            final(self).op == old(self).op,
            notifies(*final(self), action, old(self).pending@),
    {
        if self.pending.len() == 0 {
            self.phase = Phase::Finished;
            Action::Done
        } else {
            let to = self.pending.remove(0);
            self.phase = Phase::Notifying;
            Action::Send { to, msg: self.notice() }
        }
    }

    /// The next request, given what the last one gave back.
    pub fn step(&mut self, event: Event) -> (action: Action)
        ensures
            final(self).user == old(self).user,
            final(self).call == old(self).call,
            final(self).op == old(self).op,
            match (old(self).phase, event) {
                (Phase::Start, Event::Begin) => match old(self).op {
                    CallOp::Invite { .. } => final(self).phase == Phase::AwaitCall && action is FetchCall,
                    CallOp::Join => final(self).phase == Phase::AwaitUpdate
                        && (action matches Action::Update { change } && change == CallChange::Join(old(self).user)),
                    CallOp::Leave => final(self).phase == Phase::AwaitUpdate
                        && (action matches Action::Update { change } && change == CallChange::Leave(old(self).user)),
                },
                (Phase::AwaitCall, Event::Fetched(c)) => match old(self).op {
                    CallOp::Invite { friend } => {
                        &&& final(self).phase == Phase::AwaitInvitationSent
                        &&& action matches Action::Send { to, msg } && to == friend
                            && (msg matches CallMessage::Invitation(inv)
                            && inv.participants@ == c.participants@ && inv.invitees@ == c.invitees@)
                    },
                    _ => final(self).phase == Phase::Finished && action is Fail,
                },
                (Phase::AwaitInvitationSent, Event::Sent) => match old(self).op {
                    CallOp::Invite { friend } => final(self).phase == Phase::AwaitUpdate
                        && (action matches Action::Update { change } && change == CallChange::Invite(friend)),
                    _ => final(self).phase == Phase::Finished && action is Fail,
                },
                (Phase::AwaitUpdate, Event::Updated(c)) => exists|rest: Seq<Identity>| {
                    &&& rest.to_set() == c.invitees@.remove(old(self).user)
                    &&& strictly_increasing(rest)
                    &&& notifies(*final(self), action, rest)
                },
                (Phase::Notifying, Event::Sent) => notifies(*final(self), action, old(self).pending@),
                _ => final(self).phase == Phase::Finished && action is Fail,
            },
    {
        match (self.phase, event) {
            (Phase::Start, Event::Begin) => match self.op {
                CallOp::Invite { .. } => {
                    self.phase = Phase::AwaitCall;
                    Action::FetchCall
                },
                CallOp::Join => {
                    self.phase = Phase::AwaitUpdate;
                    Action::Update { change: CallChange::Join(self.user) }
                },
                CallOp::Leave => {
                    self.phase = Phase::AwaitUpdate;
                    Action::Update { change: CallChange::Leave(self.user) }
                },
            },
            // first send the invitation to the friend
            (Phase::AwaitCall, Event::Fetched(c)) => match self.op {
                CallOp::Invite { friend } => {
                    self.phase = Phase::AwaitInvitationSent;
                    Action::Send { to: friend, msg: CallMessage::Invitation(CallInvitation::for_call(&c)) }
                },
                _ => {
                    self.phase = Phase::Finished;
                    Action::Fail
                },
            },
            // then add the friend to the call's invitee list
            (Phase::AwaitInvitationSent, Event::Sent) => match self.op {
                CallOp::Invite { friend } => {
                    self.phase = Phase::AwaitUpdate;
                    Action::Update { change: CallChange::Invite(friend) }
                },
                _ => {
                    self.phase = Phase::Finished;
                    Action::Fail
                },
            },
            // and tell the other invitees
            (Phase::AwaitUpdate, Event::Updated(c)) => {
                self.pending = recipients(self.user, &c.invitees);
                let ghost rest = self.pending@;
                let action = self.notify_next();
                assert(rest.to_set() == c.invitees@.remove(self.user) && strictly_increasing(rest)
                    && notifies(*self, action, rest));
                action
            },
            (Phase::Notifying, Event::Sent) => self.notify_next(),
            _ => {
                self.phase = Phase::Finished;
                Action::Fail
            },
        }
    }
}

} // verus!
