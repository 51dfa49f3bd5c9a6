//! Containers: each holds actors under their addresses and delivers to them
//! the messages of its input queue.

use vstd::prelude::*;
use crate::theater::actor::{deliver, Actor};

verus! {

/// A message on its way to the actor at `address`: decoded, or the error of decoding it.
pub struct Envelope<M, E> {
    pub address: u32,
    pub message: Result<M, E>,
}

/// A container of actors of one kind.
pub struct Container<A: Actor> {
    /// The actors with their addresses; no address occurs twice.
    pub actors: Vec<(u32, A)>,
}

/// The addresses of the actors, in order.
pub open spec fn addresses<A>(actors: Seq<(u32, A)>) -> Seq<u32> {
    Seq::new(actors.len(), |i: int| actors[i].0)
}

/// The actor at index `k` is the one that a message to `address` goes to:
/// the first actor with that address.
pub open spec fn target<A>(actors: Seq<(u32, A)>, address: u32, k: int) -> bool {
    &&& 0 <= k < actors.len()
    &&& actors[k].0 == address
    &&& forall|j: int| 0 <= j < k ==> (#[trigger] actors[j]).0 != address
}

/// The actors `after` are the actors `before` after the delivery of the
/// envelope `e`: the actor that the envelope goes to has received its
/// message, if the message was decoded, and every other actor is as it was;
/// so are all of them where no actor has the address or the message was not
/// decoded.
pub open spec fn delivered<A: Actor, E>(
    before: Seq<(u32, A)>,
    e: Envelope<A::Message, E>,
    after: Seq<(u32, A)>,
) -> bool {
    &&& after.len() == before.len()
    &&& forall|k: int| 0 <= k < before.len() ==> (#[trigger] after[k]).0 == before[k].0
    &&& forall|k: int|
        0 <= k < before.len() && !target(before, e.address, k) ==> (#[trigger] after[k])
            == before[k]
    &&& forall|k: int|
        0 <= k < before.len() && target(before, e.address, k) ==> match e.message {
            Ok(m) => before[k].1.receives(m, &(#[trigger] after[k]).1),
            Err(_) => after[k] == before[k],
        }
}

/// The actors `after` are the actors `before` after the delivery of the
/// envelopes of the queue, one after the other from the first to the last.
pub open spec fn ran<A: Actor, E>(
    before: Seq<(u32, A)>,
    queue: Seq<Envelope<A::Message, E>>,
    after: Seq<(u32, A)>,
) -> bool
    decreases queue.len(),
{
    if queue.len() == 0 {
        after == before
    } else {
        exists|mid: Seq<(u32, A)>|
            #![trigger delivered(mid, queue.last(), after)]
            ran(before, queue.drop_last(), mid) && delivered(mid, queue.last(), after)
    }
}

/// One more delivery after a run is a run of the longer queue.
pub proof fn lemma_ran_step<A: Actor, E>(
    before: Seq<(u32, A)>,
    queue: Seq<Envelope<A::Message, E>>,
    mid: Seq<(u32, A)>,
    e: Envelope<A::Message, E>,
    after: Seq<(u32, A)>,
)
    requires
        ran(before, queue, mid),
        delivered(mid, e, after),
    ensures
        ran(before, queue.push(e), after),
{
    assert(queue.push(e).drop_last() =~= queue);
    assert(queue.push(e).last() == e);
}

impl<A: Actor> Container<A> {
    /// The index of the actor with the given address, if there is one.
    pub fn actor_for(&self, address: u32) -> (r: Option<usize>)
        ensures
            r matches Some(i) ==> i < self.actors.len() && self.actors[i as int].0 == address
                && forall|k: int| 0 <= k < i ==> (#[trigger] self.actors[k]).0 != address,
            r.is_none() ==> forall|k: int|
                0 <= k < self.actors.len() ==> (#[trigger] self.actors[k]).0 != address,
    {
        let mut i: usize = 0;
        while i < self.actors.len()
            invariant
                i <= self.actors.len(),
                forall|k: int| 0 <= k < i ==> (#[trigger] self.actors[k]).0 != address,
            decreases self.actors.len() - i,
        {
            if self.actors[i].0 == address {
                return Some(i);
            }
            i = i + 1;
        }
        None
    }

    /// Delivers the messages of the queue, in order, each to the first actor
    /// with the address that it is addressed to; a message to an address
    /// without actor is dropped. Actors to which no message is addressed
    /// stay as they were.
    pub fn run<E>(&mut self, queue: Vec<Envelope<A::Message, E>>)
        ensures
            ran(old(self).actors@, queue@, final(self).actors@),
            addresses(final(self).actors@) == addresses(old(self).actors@),
            forall|k: int|
                0 <= k < old(self).actors.len() && !addressed(queue@, old(self).actors[k].0)
                    ==> (#[trigger] final(self).actors[k]) == old(self).actors[k],
    {
        let mut queue = queue;
        let ghost all = queue@;
        let mut rest: Vec<Envelope<A::Message, E>> = Vec::new();
        // the queue is emptied from its end, so it is turned around first
        while queue.len() > 0
            invariant
                queue@.len() + rest@.len() == all.len(),
                forall|i: int| 0 <= i < queue@.len() ==> queue@[i] == all[i],
                forall|i: int|
                    0 <= i < rest@.len() ==> (#[trigger] rest@[i]) == all[all.len() - 1 - i],
            decreases queue.len(),
        {
            let e = queue.pop().unwrap();
            rest.push(e);
        }
        while rest.len() > 0
            invariant
                rest@.len() <= all.len(),
                forall|i: int|
                    0 <= i < rest@.len() ==> (#[trigger] rest@[i]) == all[all.len() - 1 - i],
                addresses(self.actors@) == addresses(old(self).actors@),
                forall|k: int|
                    0 <= k < old(self).actors.len() && !addressed(all, old(self).actors[k].0)
                        ==> (#[trigger] self.actors[k]) == old(self).actors[k],
                ran(old(self).actors@, all.take(all.len() - rest@.len()), self.actors@),
            decreases rest.len(),
        {
            let ghost at = all.len() - rest@.len();
            let envelope = rest.pop().unwrap();
            assert(envelope == all[at]);
            let ghost e = envelope;
            let ghost before = self.actors@;
            match self.actor_for(envelope.address) {
                Some(i) => {
                    assert(addresses(before)[i as int] == envelope.address);
                    self.deliver_at(i, envelope.message);
                    proof {
                        assert(addresses(self.actors@) =~= addresses(before));
                        assert(self.actors.len() == old(self).actors.len());
                        assert(addresses(old(self).actors@)[i as int] == old(self).actors[i as int].0);
                        assert(target(before, e.address, i as int));
                        assert forall|k: int|
                            0 <= k < before.len() && target(before, e.address, k) implies k
                            == i by {
                            if k < i {
                                assert(before[k].0 != e.address);
                            }
                            if i < k {
                                assert(before[i as int].0 != e.address);
                            }
                        }
                        assert(delivered(before, e, self.actors@));
                    }
                },
                None => {
                    proof {
                        assert(delivered(before, e, self.actors@));
                    }
                },
            }
            proof {
                lemma_ran_step(old(self).actors@, all.take(at), before, e, self.actors@);
                assert(all.take(at).push(e) =~= all.take(at + 1));
            }
        }
        proof {
            assert(all.take(all.len() as int) =~= all);
        }
    }

    fn deliver_at<E>(&mut self, i: usize, message: Result<A::Message, E>)
        requires
            i < old(self).actors.len(),
        ensures
            final(self).actors.len() == old(self).actors.len(),
            final(self).actors[i as int].0 == old(self).actors[i as int].0,
            forall|k: int|
                0 <= k < old(self).actors.len() && k != i ==> (#[trigger] final(self).actors[k])
                    == old(self).actors[k],
            match message {
                Ok(m) => old(self).actors[i as int].1.receives(m, &final(self).actors[i as int].1),
                Err(_) => final(self).actors[i as int] == old(self).actors[i as int],
            },
    {
        let entry = &mut self.actors[i];
        deliver(&mut entry.1, message);
    }
}

/// Some message of the queue is addressed to `address`.
pub open spec fn addressed<M, E>(queue: Seq<Envelope<M, E>>, address: u32) -> bool {
    exists|i: int| 0 <= i < queue.len() && (#[trigger] queue[i]).address == address
}

} // verus!
