//! The task queue: the payloads of one run, each tagged with its submission
//! index, handed out front first, each exactly once.
use std::collections::VecDeque;

use vstd::prelude::*;

verus! {

/// `payloads`, each tagged with its position.
pub open spec fn enumerated(payloads: Seq<Seq<u8>>) -> Seq<(usize, Seq<u8>)> {
    Seq::new(payloads.len(), |i: int| (i as usize, payloads[i]))
}

/// Payloads as handed over in memory, seen as values.
pub open spec fn payloads_view(v: Seq<Vec<u8>>) -> Seq<Seq<u8>> {
    v.map_values(|b: Vec<u8>| b@)
}

/// A FIFO queue of tagged payloads, filled once and then only drained.
#[derive(Debug, Clone)]
pub struct TaskQueue {
    items: VecDeque<(usize, Vec<u8>)>,
}

impl View for TaskQueue {
    /// The items still queued, front first.
    type V = Seq<(usize, Seq<u8>)>;

    closed spec fn view(&self) -> Seq<(usize, Seq<u8>)> {
        self.items@.map_values(|p: (usize, Vec<u8>)| (p.0, p.1@))
    }
}

impl TaskQueue {
    /// A queue holding nothing.
    pub fn new() -> (q: Self)
        ensures
            q@ == Seq::<(usize, Seq<u8>)>::empty(),
    {
        let q = TaskQueue { items: VecDeque::new() };
        assert(q@ =~= Seq::<(usize, Seq<u8>)>::empty());
        q
    }

    /// A queue holding each payload tagged with its position, in order.
    pub fn from_payloads(payloads: Vec<Vec<u8>>) -> (q: Self)
        ensures
            q@ == enumerated(payloads_view(payloads@)),
    {
        let ghost all = payloads_view(payloads@);
        let mut rest = payloads;
        let mut items: VecDeque<(usize, Vec<u8>)> = VecDeque::new();
        while rest.len() > 0
            invariant
                rest.len() <= all.len(),
                payloads_view(rest@) == all.subrange(0, rest.len() as int),
                items@.map_values(|p: (usize, Vec<u8>)| (p.0, p.1@)) == enumerated(all).subrange(
                    rest.len() as int,
                    all.len() as int,
                ),
            decreases rest.len(),
        {
            let ghost before = rest@;
            let ghost queued = items@;
            let payload = rest.pop().unwrap();
            let i = rest.len();
            items.push_front((i, payload));
            proof {
                assert(payloads_view(before)[i as int] == before[i as int]@);
                assert(all.subrange(0, i + 1)[i as int] == all[i as int]);
                assert(items@ == seq![(i, payload)] + queued);
                let mapped = items@.map_values(|p: (usize, Vec<u8>)| (p.0, p.1@));
                let prev = queued.map_values(|p: (usize, Vec<u8>)| (p.0, p.1@));
                let target = enumerated(all).subrange(i as int, all.len() as int);
                assert(prev.len() == queued.len() && before.len() == i + 1);
                assert forall|t: int| 0 <= t < mapped.len() implies mapped[t] == target[t] by {
                    if t > 0 {
                        assert(items@[t] == queued[t - 1]);
                        assert(mapped[t] == prev[t - 1]);
                    }
                }
                assert(mapped =~= target);
                assert(payloads_view(rest@) =~= all.subrange(0, rest.len() as int));
            }
        }
        assert(enumerated(all).subrange(0, all.len() as int) =~= enumerated(all));
        TaskQueue { items }
    }

    /// The number of items still queued.
    pub fn len(&self) -> (r: usize)
        ensures
            r == self@.len(),
    {
        self.items.len()
    }

    /// Whether every item has been handed out.
    pub fn is_empty(&self) -> (r: bool)
        ensures
            r == (self@.len() == 0),
    {
        self.items.len() == 0
    }

    /// Hands out the front item, or nothing once the queue is drained.
    pub fn steal(&mut self) -> (r: Option<(usize, Vec<u8>)>)
        ensures
            old(self)@.len() == 0 ==> r is None && final(self)@ == old(self)@,
            old(self)@.len() > 0 ==> (r matches Some(item) && (item.0, item.1@) == old(self)@[0]
                && final(self)@ == old(self)@.drop_first()),
    {
        let r = self.items.pop_front();
        proof {
            if old(self)@.len() > 0 {
                assert(self@ =~= old(self)@.drop_first());
            }
        }
        r
    }
}

} // verus!
