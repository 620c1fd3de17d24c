//! Pairing of microphone and speaker audio chunks before echo cancellation.
use vstd::prelude::*;
use std::collections::VecDeque;

verus! {

/// Most chunks that wait on either side; older ones are dropped.
pub const JOINER_CAPACITY: usize = 10;

/// `q` after `x` arrives: `x` goes to the back, and the front chunk is
/// dropped when the queue would hold more than `JOINER_CAPACITY`.
pub open spec fn push_bounded<T>(q: Seq<T>, x: T) -> Seq<T> {
    let p = q.push(x);
    if p.len() > JOINER_CAPACITY {
        p.drop_first()
    } else {
        p
    }
}

/// Queues of microphone and speaker chunks that are paired oldest first.
pub struct Joiner<T> {
    mic: VecDeque<T>,
    spk: VecDeque<T>,
}

impl<T> View for Joiner<T> {
    type V = (Seq<T>, Seq<T>);

    closed spec fn view(&self) -> (Seq<T>, Seq<T>) {
        (self.mic@, self.spk@)
    }
}

impl<T> Joiner<T> {
    /// Both queues hold at most `JOINER_CAPACITY` chunks.
    pub open spec fn wf(&self) -> bool {
        self@.0.len() <= JOINER_CAPACITY && self@.1.len() <= JOINER_CAPACITY
    }

    pub fn new() -> (r: Self)
        ensures
            r@.0 == Seq::<T>::empty(),
            r@.1 == Seq::<T>::empty(),
            r.wf(),
    {
        Joiner { mic: VecDeque::new(), spk: VecDeque::new() }
    }

    pub fn push_mic(&mut self, data: T)
        ensures
            final(self)@.0 == push_bounded(old(self)@.0, data),
            final(self)@.1 == old(self)@.1,
            old(self).wf() ==> final(self).wf(),
    {
        self.mic.push_back(data);
        proof { vstd::std_specs::vecdeque::axiom_spec_len(&self.mic); }
        if self.mic.len() > JOINER_CAPACITY {
            self.mic.pop_front();
            assert(self.mic@ =~= push_bounded(old(self)@.0, data));
        }
    }

    pub fn push_spk(&mut self, data: T)
        ensures
            final(self)@.1 == push_bounded(old(self)@.1, data),
            final(self)@.0 == old(self)@.0,
            old(self).wf() ==> final(self).wf(),
    {
        self.spk.push_back(data);
        proof { vstd::std_specs::vecdeque::axiom_spec_len(&self.spk); }
        if self.spk.len() > JOINER_CAPACITY {
            self.spk.pop_front();
            assert(self.spk@ =~= push_bounded(old(self)@.1, data));
        }
    }

    /// The oldest microphone chunk with the oldest speaker chunk, when both
    /// sides have one.
    pub fn pop_pair(&mut self) -> (r: Option<(T, T)>)
        ensures
            old(self)@.0.len() > 0 && old(self)@.1.len() > 0 ==> {
                &&& r == Some((old(self)@.0[0], old(self)@.1[0]))
                &&& final(self)@.0 == old(self)@.0.drop_first()
                &&& final(self)@.1 == old(self)@.1.drop_first()
            },
            !(old(self)@.0.len() > 0 && old(self)@.1.len() > 0) ==> {
                &&& r is None
                &&& final(self)@ == old(self)@
            },
            old(self).wf() ==> final(self).wf(),
    {
        proof {
            vstd::std_specs::vecdeque::axiom_spec_len(&self.mic);
            vstd::std_specs::vecdeque::axiom_spec_len(&self.spk);
        }
        if self.mic.len() > 0 && self.spk.len() > 0 {
            let mic = self.mic.pop_front();
            let spk = self.spk.pop_front();
            match (mic, spk) {
                (Some(m), Some(s)) => Some((m, s)),
                _ => None,
            }
        } else {
            None
        }
    }
}

/// A chunk pushed into a full queue pushes out the oldest one: the queue keeps
/// the latest `JOINER_CAPACITY` chunks in arrival order.
pub proof fn law_push_keeps_latest<T>(q: Seq<T>, x: T)
    requires
        q.len() <= JOINER_CAPACITY,
    ensures
        push_bounded(q, x).len() <= JOINER_CAPACITY,
        push_bounded(q, x).last() == x,
        q.len() < JOINER_CAPACITY ==> push_bounded(q, x) == q.push(x),
        q.len() == JOINER_CAPACITY ==> push_bounded(q, x) == q.drop_first().push(x),
{
    if q.len() == JOINER_CAPACITY {
        assert(q.push(x).drop_first() =~= q.drop_first().push(x));
    }
}

/// Stage that pairs, echo-cancels and mixes the two audio streams.
pub struct AudioProcessor {}

impl AudioProcessor {
    /// Least time in milliseconds between two amplitude events.
    pub const AMPLITUDE_THROTTLE_MS: u64 = 100;

    /// Whether an amplitude event is due, `elapsed_ms` after the last one.
    pub fn amplitude_due(elapsed_ms: u64) -> (r: bool)
        ensures
            r == (elapsed_ms >= Self::AMPLITUDE_THROTTLE_MS),
    {
        elapsed_ms >= Self::AMPLITUDE_THROTTLE_MS
    }
}

} // verus!
