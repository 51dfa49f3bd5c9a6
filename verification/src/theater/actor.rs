//! Actors and references to them.

use vstd::prelude::*;

verus! {

/// The behaviour of an actor.
pub trait Actor {
    /// The type of the messages that the actor receives.
    type Message;

    /// What receiving a message does to the actor: whether an actor in this
    /// state that receives `m` can be in the state `after` afterwards. An
    /// actor that says nothing of itself can be in any state.
    open spec fn receives(&self, m: Self::Message, after: &Self) -> bool {
        true
    }

    /// Processes one message: the actor changes its state as `receives` says.
    fn recv(&mut self, m: Self::Message)
        ensures
            old(self).receives(m, final(self)),
    ;
}

/// A reference to an actor instance, with the place where the actor runs.
#[derive(Copy, Clone, Debug, PartialEq, Eq, Structural)]
pub enum ActorRef {
    Local(LocalActorRef),
    Remote(RemoteActorRef),
}

/// A reference to an actor that runs on this host.
#[derive(Copy, Clone, Debug, PartialEq, Eq, Structural)]
pub struct LocalActorRef {
    pub thread: u32,
    pub ident: u32,
}

/// A reference to an actor that runs on another host.
#[derive(Copy, Clone, Debug, PartialEq, Eq, Structural)]
pub struct RemoteActorRef;

/// Delivers a message that arrived in encoded form: a message that was
/// decoded is received by the actor, and one that could not be decoded is
/// lost, which leaves the actor as it was.
pub fn deliver<A: Actor, E>(actor: &mut A, decoded: Result<A::Message, E>)
    ensures
        match decoded {
            Ok(m) => old(actor).receives(m, final(actor)),
            Err(_) => *final(actor) == *old(actor),
        },
{
    match decoded {
        Ok(m) => actor.recv(m),
        Err(_) => {},
    }
}

} // verus!
