//! The orchestrator's own pipeline: an observer that hands out source-chain
//! events in the order of their nonces, and a submitter that turns them into
//! claims, one at a time.

use crate::claim::{event_views, Claim, ClaimView, Event, EventView};
use vstd::prelude::*;

verus! {

/// The events of `fetched` that an observer standing at `last_nonce` hands
/// out: going through them in order, each one whose nonce is the next.
pub open spec fn delivered(fetched: Seq<EventView>, last_nonce: u64) -> Seq<EventView>
    decreases fetched.len(),
{
    if fetched.len() == 0 {
        Seq::empty()
    } else {
        let before = delivered(fetched.drop_last(), last_nonce);
        if fetched.last().nonce == last_nonce + before.len() + 1 {
            before.push(fetched.last())
        } else {
            before
        }
    }
}

/// The observer's state: the block height and the nonce of the last event
/// it has handed out.
pub struct ObserverView {
    pub last_height: u64,
    pub last_nonce: u64,
}

impl ObserverView {
    /// The state after `fetched` was gone through.
    pub open spec fn after(self, fetched: Seq<EventView>) -> ObserverView {
        let out = delivered(fetched, self.last_nonce);
        ObserverView {
            last_height: if out.len() == 0 {
                self.last_height
            } else {
                out.last().block_height
            },
            last_nonce: (self.last_nonce + out.len()) as u64,
        }
    }
}

/// Hands out the events of the source chain in the order of their nonces,
/// each once, and remembers where to resume.
#[derive(Debug)]
pub struct EventObserver {
    last_height: u64,
    last_nonce: u64,
}

impl View for EventObserver {
    type V = ObserverView;

    closed spec fn view(&self) -> ObserverView {
        ObserverView { last_height: self.last_height, last_nonce: self.last_nonce }
    }
}

impl EventObserver {
    /// An observer that has handed out the events up to `last_nonce`, the
    /// last of them at `last_height`.
    pub fn new(last_height: u64, last_nonce: u64) -> (r: EventObserver)
        ensures
            r@ == (ObserverView { last_height, last_nonce }),
    {
        EventObserver { last_height, last_nonce }
    }

    /// The height from which to ask the source chain for events.
    pub fn resume_height(&self) -> (r: u64)
        ensures
            r == self@.last_height,
    {
        self.last_height
    }

    /// The nonce of the last event handed out.
    pub fn last_nonce(&self) -> (r: u64)
        ensures
            r == self@.last_nonce,
    {
        self.last_nonce
    }

    /// Goes through the events that one poll of the source chain brought and
    /// hands out, in order, each one whose nonce is the next. What comes out
    /// counts up from the last nonce without a gap.
    pub fn deliver(&mut self, fetched: &Vec<Event>) -> (out: Vec<Event>)
        ensures
            event_views(out@) == delivered(event_views(fetched@), old(self)@.last_nonce),
            final(self)@ == old(self)@.after(event_views(fetched@)),
            forall|k: int|
                0 <= k < out@.len() ==> (#[trigger] out@[k]).nonce == old(self)@.last_nonce + k + 1,
    {
        let ghost start = self@;
        let ghost all = event_views(fetched@);
        let mut out: Vec<Event> = Vec::new();
        let mut i: usize = 0;
        while i < fetched.len()
            invariant
                i <= fetched.len(),
                all == event_views(fetched@),
                event_views(out@) == delivered(all.take(i as int), start.last_nonce),
                self@.last_nonce == start.last_nonce + out@.len(),
                self@.last_height == if out@.len() == 0 {
                    start.last_height
                } else {
                    out@.last().block_height
                },
                forall|k: int|
                    0 <= k < out@.len() ==> (#[trigger] out@[k]).nonce == start.last_nonce + k + 1,
            decreases fetched.len() - i,
        {
            proof {
                assert(all.take(i + 1).drop_last() =~= all.take(i as int));
                assert(all.take(i + 1).last() == fetched@[i as int]@);
            }
            let ghost before = event_views(out@);
            if self.last_nonce < u64::MAX && fetched[i].nonce == self.last_nonce + 1 {
                out.push(fetched[i].duplicate());
                self.last_nonce = fetched[i].nonce;
                self.last_height = fetched[i].block_height;
                proof {
                    assert(event_views(out@) =~= before.push(fetched@[i as int]@));
                }
            } else {
                proof {
                    assert(event_views(out@) =~= before);
                }
            }
            i = i + 1;
        }
        proof {
            assert(all.take(i as int) =~= all);
            let views = event_views(out@);
            if views.len() > 0 {
                assert(views.last() == out@.last()@);
            }
        }
        out
    }
}

/// The submitter's state: who it submits for, the nonce of its last claim
/// that was taken, and whether a claim is on its way.
pub struct SubmitterView {
    pub orchestrator: Seq<char>,
    pub last_accepted: u64,
    pub in_flight: bool,
}

/// What the submitter does with an event.
#[derive(Debug)]
pub enum Submission {
    /// Submit this claim, then report how it went.
    Submit(Claim),
    /// A claim is on its way: offer the event again once that is settled.
    Busy,
    /// The event is not the next one to claim.
    OutOfTurn,
}

/// The mathematical content of a [`Submission`].
pub enum SubmissionView {
    Submit(ClaimView),
    Busy,
    OutOfTurn,
}

impl View for Submission {
    type V = SubmissionView;

    open spec fn view(&self) -> SubmissionView {
        match self {
            Submission::Submit(claim) => SubmissionView::Submit(claim@),
            Submission::Busy => SubmissionView::Busy,
            Submission::OutOfTurn => SubmissionView::OutOfTurn,
        }
    }
}

impl SubmitterView {
    /// What the submitter answers when offered `event`.
    pub open spec fn answer(self, event: EventView) -> SubmissionView {
        if self.in_flight {
            SubmissionView::Busy
        } else if event.nonce != self.last_accepted + 1 {
            SubmissionView::OutOfTurn
        } else {
            SubmissionView::Submit(ClaimView { event, orchestrator: self.orchestrator })
        }
    }

    /// The state after `event` was offered.
    pub open spec fn offered(self, event: EventView) -> SubmitterView {
        SubmitterView { in_flight: self.in_flight || self.answer(event) is Submit, ..self }
    }

    /// The state after the claim on its way was taken or rejected.
    pub open spec fn settled(self, accepted: bool) -> SubmitterView {
        if !self.in_flight {
            self
        } else {
            SubmitterView {
                last_accepted: if accepted && self.last_accepted < u64::MAX {
                    (self.last_accepted + 1) as u64
                } else {
                    self.last_accepted
                },
                in_flight: false,
                ..self
            }
        }
    }

    /// The state after the nonce was read anew from the destination chain.
    pub open spec fn resynced(self, chain_nonce: u64) -> SubmitterView {
        if self.in_flight {
            self
        } else {
            SubmitterView { last_accepted: chain_nonce, ..self }
        }
    }
}

/// Turns events into claims in the strict order of their nonces, and never
/// has more than one claim on its way.
#[derive(Debug)]
pub struct ClaimSubmitter {
    orchestrator: String,
    last_accepted: u64,
    in_flight: bool,
}

impl View for ClaimSubmitter {
    type V = SubmitterView;

    closed spec fn view(&self) -> SubmitterView {
        SubmitterView {
            orchestrator: self.orchestrator@,
            last_accepted: self.last_accepted,
            in_flight: self.in_flight,
        }
    }
}

impl ClaimSubmitter {
    /// A submitter for `orchestrator` whose last claim that was taken had the
    /// nonce `last_accepted`, with nothing on its way.
    pub fn new(orchestrator: String, last_accepted: u64) -> (r: ClaimSubmitter)
        ensures
            r@ == (SubmitterView { orchestrator: orchestrator@, last_accepted, in_flight: false }),
    {
        ClaimSubmitter { orchestrator, last_accepted, in_flight: false }
    }

    /// The nonce of the last claim that was taken.
    pub fn last_accepted(&self) -> (r: u64)
        ensures
            r == self@.last_accepted,
    {
        self.last_accepted
    }

    /// Whether a claim is on its way.
    pub fn in_flight(&self) -> (r: bool)
        ensures
            r == self@.in_flight,
    {
        self.in_flight
    }

    /// Offers the next observed event. A claim comes back only where none is
    /// on its way and the event's nonce is the last accepted nonce plus one;
    /// that claim is then on its way until [`Self::settle`] is called.
    pub fn offer(&mut self, event: &Event) -> (r: Submission)
        ensures
            r@ == old(self)@.answer(event@),
            final(self)@ == old(self)@.offered(event@),
    {
        if self.in_flight {
            Submission::Busy
        } else if self.last_accepted == u64::MAX || event.nonce != self.last_accepted + 1 {
            Submission::OutOfTurn
        } else {
            self.in_flight = true;
            Submission::Submit(
                Claim { event: event.duplicate(), orchestrator: self.orchestrator.clone() },
            )
        }
    }

    /// Reports how the claim on its way went: taken, or definitively failed.
    /// Without a claim on its way nothing changes.
    pub fn settle(&mut self, accepted: bool)
        ensures
            final(self)@ == old(self)@.settled(accepted),
    {
        if self.in_flight {
            self.in_flight = false;
            if accepted && self.last_accepted < u64::MAX {
                self.last_accepted = self.last_accepted + 1;
            }
        }
    }

    /// Takes the last nonce as the destination chain reports it, as after a
    /// reset. While a claim is on its way nothing changes.
    pub fn resync(&mut self, chain_nonce: u64)
        ensures
            final(self)@ == old(self)@.resynced(chain_nonce),
    {
        if !self.in_flight {
            self.last_accepted = chain_nonce;
        }
    }
}

} // verus!
