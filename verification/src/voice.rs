//! Calls of the voice service: who is invited, who has joined, and whom a
//! call message goes to.

use vstd::prelude::*;
use std::collections::{BTreeMap, BTreeSet};
use vstd::std_specs::iter::IteratorSpec;
use crate::order::{lemma_increasing_keys, strictly_increasing};

verus! {

/// A user or object identity, as the number whose big-endian bytes are its
/// 16 id bytes (so identities order as their bytes do).
pub type Identity = u128;

/// The identity of a call.
pub type CallId = Identity;

/// A call.
#[derive(Clone, Debug, PartialEq, Eq)]
pub struct Call {
    pub id: CallId,
    /// Who has joined the call?
    pub participants: BTreeSet<Identity>,
    /// Who has been invited to the call?
    pub invitees: BTreeSet<Identity>,
}

impl Call {
    /// A new call with this id, which nobody has joined and to which its
    /// creator is invited.
    ///
    /// NOTE: the creator is not joined to the call but invited to it.
    pub fn new(id: CallId, creator: Identity) -> (c: Call)
        ensures
            c.id == id,
            c.participants@ == Set::<Identity>::empty(),
            c.invitees@ == Set::<Identity>::empty().insert(creator),
    {
        let participants: BTreeSet<Identity> = BTreeSet::new();
        let mut invitees: BTreeSet<Identity> = BTreeSet::new();
        invitees.insert(creator);
        Call { id, participants, invitees }
    }

    /// Add `friend` to the call's invitees.
    pub fn invite(&mut self, friend: Identity)
        ensures
            final(self).id == old(self).id,
            final(self).participants@ == old(self).participants@,
            final(self).invitees@ == old(self).invitees@.insert(friend),
    {
        self.invitees.insert(friend);
    }

    /// Add `user` to the call's participants.
    pub fn join(&mut self, user: Identity)
        ensures
            final(self).id == old(self).id,
            final(self).participants@ == old(self).participants@.insert(user),
            final(self).invitees@ == old(self).invitees@,
    {
        self.participants.insert(user);
    }

    /// Remove `user` from the call's participants and invitees.
    pub fn leave(&mut self, user: Identity)
        ensures
            final(self).id == old(self).id,
            final(self).participants@ == old(self).participants@.remove(user),
            final(self).invitees@ == old(self).invitees@.remove(user),
    {
        self.participants.remove(&user);
        self.invitees.remove(&user);
    }
}

/// An invitation to a call: who is in it and who is invited.
#[derive(Clone, Debug)]
pub struct CallInvitation {
    pub participants: BTreeSet<Identity>,
    pub invitees: BTreeSet<Identity>,
}

impl CallInvitation {
    /// The invitation that describes `call`.
    pub fn for_call(call: &Call) -> (inv: CallInvitation)
        ensures
            inv.participants@ == call.participants@,
            inv.invitees@ == call.invitees@,
    {
        CallInvitation { participants: call.participants.clone(), invitees: call.invitees.clone() }
    }
}

/// Some data for a call.
#[derive(Clone, Debug)]
pub struct CallData {
    pub data: Vec<u8>,
    pub sequence_number: u64,
}

/// A message between the members of a call.
#[derive(Clone, Debug)]
pub enum CallMessage {
    /// invite a user
    Invitation(CallInvitation),
    /// note that you have invited a user
    InvitationSent(Identity),
    /// join a call
    Join,
    /// leave a call
    Part,
    /// send some data to the call
    Data(CallData),
}

/// Something that happened in a call.
#[derive(Clone, Copy, Debug, PartialEq, Eq, Structural)]
pub enum CallEvent {
    UserInvited(Identity),
    UserJoined(Identity),
    UserParted(Identity),
}

/// The users a message from `user` to the group `to` is sent to: everyone
/// in the group but the sender, in increasing order.
pub fn recipients(user: Identity, to: &BTreeSet<Identity>) -> (r: Vec<Identity>)
    ensures
        r@.to_set() == to@.remove(user),
        strictly_increasing(r@),
{
    let mut r: Vec<Identity> = Vec::new();
    let iter = to.iter();
    let ghost all = iter.remaining().unref();
    proof {
        lemma_increasing_keys(iter.remaining());
    }
    for dest in it: iter
        invariant
            it.seq().unref() == all,
            all.to_set() == to@,
            strictly_increasing(all),
            r@.to_set() == all.take(it.index()).to_set().remove(user),
            strictly_increasing(r@),
            forall|i: int, j: int| 0 <= i < r@.len() && it.index() <= j < all.len() ==> r@[i] < all[j],
    {
        let ghost idx = it.index();
        let ghost before = r@;
        if *dest != user {
            r.push(*dest);
        }
        proof {
            assert(all.take(idx + 1) =~= all.take(idx).push(all[idx]));
            all.take(idx).lemma_push_to_set_commute(all[idx]);
            before.lemma_push_to_set_commute(all[idx]);
            assert(r@.to_set() =~= all.take(idx + 1).to_set().remove(user));
        }
    }
    assert(all.take(all.len() as int) =~= all);
    r
}

/// A user's subscriptions: where to send the invitations the user gets,
/// and where to send the events of each call.
pub struct CallUser<I, E> {
    pub invitation_subs: Vec<I>,
    pub call_event_subs: BTreeMap<CallId, Vec<E>>,
}

impl<I, E> CallUser<I, E> {
    /// A user without subscriptions.
    pub fn new() -> (u: CallUser<I, E>)
        ensures
            u.invitation_subs@ == Seq::<I>::empty(),
            u.call_event_subs@ == Map::<CallId, Vec<E>>::empty(),
    {
        CallUser { invitation_subs: Vec::new(), call_event_subs: BTreeMap::new() }
    }

    /// The subscribers to the events of call `id`, in the order they came.
    pub open spec fn event_subs(self, id: CallId) -> Seq<E> {
        if self.call_event_subs@.contains_key(id) { self.call_event_subs@[id]@ } else { Seq::empty() }
    }

    /// Add a subscriber to the user's invitations.
    pub fn subscribe_invites(&mut self, sender: I)
        ensures
            final(self).invitation_subs@ == old(self).invitation_subs@.push(sender),
            final(self).call_event_subs@ == old(self).call_event_subs@,
    {
        self.invitation_subs.push(sender);
    }

    /// Add a subscriber to the events of call `id`, starting the call's
    /// list where it has none yet.
    pub fn subscribe_call_events(&mut self, id: CallId, sender: E)
        ensures
            final(self).invitation_subs@ == old(self).invitation_subs@,
            final(self).call_event_subs@.dom() == old(self).call_event_subs@.dom().insert(id),
            final(self).event_subs(id) == old(self).event_subs(id).push(sender),
            forall|other: CallId| other != id ==> #[trigger] final(self).call_event_subs@.get(other)
                == old(self).call_event_subs@.get(other),
    {
        let mut list: Vec<E> = match self.call_event_subs.remove(&id) {
            Some(v) => v,
            None => Vec::new(),
        };
        list.push(sender);
        self.call_event_subs.insert(id, list);
    }
}

/// Why a subscription was refused.
#[derive(Clone, Copy, Debug, PartialEq, Eq, Structural)]
pub enum SubscribeError {
    /// The user is not logged in to the service.
    NoUser,
}

/// The users logged in to the voice service, with their subscriptions.
pub struct CallUsers<I, E> {
    pub users: BTreeMap<Identity, CallUser<I, E>>,
}

impl<I, E> CallUsers<I, E> {
    /// No users.
    pub fn new() -> (u: CallUsers<I, E>)
        ensures
            u.users@ == Map::<Identity, CallUser<I, E>>::empty(),
    {
        CallUsers { users: BTreeMap::new() }
    }

    /// Record a user that logged in.
    pub fn insert(&mut self, id: Identity, user: CallUser<I, E>)
        ensures
            final(self).users@ == old(self).users@.insert(id, user),
    {
        self.users.insert(id, user);
    }

    /// Forget a user that logged out.
    pub fn remove(&mut self, id: Identity)
        ensures
            final(self).users@ == old(self).users@.remove(id),
    {
        self.users.remove(&id);
    }

    /// Add a subscriber to the invitations of `user`, who must be logged in.
    pub fn subscribe_invites(&mut self, user: Identity, sender: I) -> (r: Result<(), SubscribeError>)
        ensures
            old(self).users@.contains_key(user) <==> r is Ok,
            r is Err ==> r == Err::<(), SubscribeError>(SubscribeError::NoUser) && final(self).users@ == old(self).users@,
            r is Ok ==> {
                &&& final(self).users@.dom() == old(self).users@.dom()
                &&& final(self).users@[user].invitation_subs@ == old(self).users@[user].invitation_subs@.push(sender)
                &&& final(self).users@[user].call_event_subs@ == old(self).users@[user].call_event_subs@
                &&& forall|other: Identity| other != user ==> #[trigger] final(self).users@.get(other)
                    == old(self).users@.get(other)
            },
    {
        match self.users.remove(&user) {
            Some(mut u) => {
                u.subscribe_invites(sender);
                self.users.insert(user, u);
                Ok(())
            },
            None => Err(SubscribeError::NoUser),
        }
    }

    /// Add a subscriber to the events of call `id` of `user`, who must be
    /// logged in.
    pub fn subscribe_call_events(&mut self, user: Identity, id: CallId, sender: E)
        -> (r: Result<(), SubscribeError>)
        ensures
            old(self).users@.contains_key(user) <==> r is Ok,
            r is Err ==> r == Err::<(), SubscribeError>(SubscribeError::NoUser) && final(self).users@ == old(self).users@,
            r is Ok ==> {
                &&& final(self).users@.dom() == old(self).users@.dom()
                &&& final(self).users@[user].invitation_subs@ == old(self).users@[user].invitation_subs@
                &&& final(self).users@[user].event_subs(id) == old(self).users@[user].event_subs(id).push(sender)
                &&& final(self).users@[user].call_event_subs@.dom()
                    == old(self).users@[user].call_event_subs@.dom().insert(id)
                &&& forall|c: CallId| c != id ==> #[trigger] final(self).users@[user].call_event_subs@.get(c)
                    == old(self).users@[user].call_event_subs@.get(c)
                &&& forall|other: Identity| other != user ==> #[trigger] final(self).users@.get(other)
                    == old(self).users@.get(other)
            },
    {
        match self.users.remove(&user) {
            Some(mut u) => {
                u.subscribe_call_events(id, sender);
                self.users.insert(user, u);
                Ok(())
            },
            None => Err(SubscribeError::NoUser),
        }
    }
}

/// The voice service's record of its clients: the handle of the worker
/// started for each logged-in user, and the users' subscriptions.
pub struct Clients<H, I, E> {
    pub handles: BTreeMap<Identity, H>,
    pub users: CallUsers<I, E>,
}

impl<H, I, E> Clients<H, I, E> {
    /// No clients.
    pub fn new() -> (c: Clients<H, I, E>)
        ensures
            c.handles@ == Map::<Identity, H>::empty(),
            c.users.users@ == Map::<Identity, CallUser<I, E>>::empty(),
    {
        Clients { handles: BTreeMap::new(), users: CallUsers::new() }
    }

    /// A user logged in and a worker was started for it: keep the worker's
    /// handle for when the user logs out.
    pub fn opened(&mut self, user: Identity, handle: H)
        ensures
            final(self).handles@ == old(self).handles@.insert(user, handle),
            final(self).users.users@ == old(self).users.users@,
    {
        self.handles.insert(user, handle);
    }

    /// A user logged out: forget the user, and hand back the handle of its
    /// worker, if one was kept, to abort it.
    pub fn closed(&mut self, user: Identity) -> (h: Option<H>)
        ensures
            final(self).users.users@ == old(self).users.users@.remove(user),
            final(self).handles@ == old(self).handles@.remove(user),
            h == old(self).handles@.get(user),
    {
        self.users.remove(user);
        self.handles.remove(&user)
    }
}

} // verus!
