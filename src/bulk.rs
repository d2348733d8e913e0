//! Bulk compression: the configuration of a run and the work it hands to
//! its worker threads.
use vstd::prelude::*;

use crate::defaults::{DEVICE, QUALITY};
use crate::error::Error;
use crate::queue::{enumerated, payloads_view, TaskQueue};
use crate::sequencer::Sequencer;

verus! {

/// At least one worker: a worker count of 0 runs as a single worker.
pub open spec fn effective_devices(d: u8) -> u8 {
    if d == 0 {
        1
    } else {
        d
    }
}

/// Custom configuration for building a [`Parallel`].
/// This struct is not meant to be used directly.
/// Use [`Parallel::from_vec`] instead.
#[derive(Debug, Clone)]
pub struct ParallelBuilder {
    vec: TaskQueue,
    quality: u8,
    device_num: u8,
}

impl View for ParallelBuilder {
    /// The queued payloads, the quality and the number of worker threads.
    type V = (Seq<(usize, Seq<u8>)>, u8, u8);

    closed spec fn view(&self) -> (Seq<(usize, Seq<u8>)>, u8, u8) {
        (self.vec@, self.quality, self.device_num)
    }
}

impl Default for ParallelBuilder {
    fn default() -> (r: Self)
        ensures
            r@ == (Seq::<(usize, Seq<u8>)>::empty(), QUALITY, DEVICE),
    {
        ParallelBuilder { vec: TaskQueue::new(), quality: QUALITY, device_num: DEVICE }
    }
}

impl ParallelBuilder {
    /// Specifies the quality of compressed images.
    /// Defaults to 95 (95% of the original quality).
    ///
    /// **This method is optional**.
    pub fn with_quality(self, quality: u8) -> (r: ParallelBuilder)
        ensures
            r@ == (self@.0, quality, self@.2),
    {
        ParallelBuilder { vec: self.vec, quality, device_num: self.device_num }
    }

    /// Specifies the number of threads to be used.
    /// Defaults to 2.
    ///
    /// **This method is optional**.
    pub fn with_device(self, device_num: u8) -> (r: ParallelBuilder)
        ensures
            r@ == (self@.0, self@.1, device_num),
    {
        ParallelBuilder { vec: self.vec, quality: self.quality, device_num }
    }

    /// Builds a new [`Parallel`] with default or specified configuration.
    /// A thread count of 0 runs as a single thread.
    pub fn build(self) -> (r: Parallel)
        ensures
            r@ == (self@.0, self@.1, effective_devices(self@.2)),
    {
        let device_num = if self.device_num == 0 { 1 } else { self.device_num };
        Parallel {
            to_thread: StuffThatNeedsToBeSent { vec: self.vec, device_num, quality: self.quality },
        }
    }
}

/// The work of one run: the queued payloads, the number of worker threads
/// (at least one) and the quality.
#[derive(Debug)]
pub struct StuffThatNeedsToBeSent {
    vec: TaskQueue,
    device_num: u8,
    quality: u8,
}

impl View for StuffThatNeedsToBeSent {
    /// The queued payloads, the quality and the number of worker threads.
    type V = (Seq<(usize, Seq<u8>)>, u8, u8);

    closed spec fn view(&self) -> (Seq<(usize, Seq<u8>)>, u8, u8) {
        (self.vec@, self.quality, self.device_num)
    }
}

impl StuffThatNeedsToBeSent {
    #[verifier::type_invariant]
    spec fn at_least_one_device(&self) -> bool {
        self.device_num >= 1
    }

    /// The number of worker threads to spawn: at least one.
    pub fn device_num(&self) -> (r: u8)
        ensures
            r == self@.2,
            r >= 1,
    {
        proof {
            use_type_invariant(self);
        }
        self.device_num
    }

    /// The quality to compress at.
    pub fn quality(&self) -> (r: u8)
        ensures
            r == self@.1,
    {
        self.quality
    }

    /// The number of payloads of the run.
    pub fn len(&self) -> (r: usize)
        ensures
            r == self@.0.len(),
    {
        self.vec.len()
    }

    /// A sequencer for the results of the run, one slot per payload.
    pub fn sequencer(&self) -> (r: Sequencer<Result<Vec<u8>, Error>>)
        ensures
            r@ == (0int, Seq::new(self@.0.len(), |i: int| None::<Result<Vec<u8>, Error>>)),
    {
        Sequencer::new(self.vec.len())
    }

    /// The queue that the workers steal from.
    pub fn into_queue(self) -> (r: TaskQueue)
        ensures
            r@ == self@.0,
    {
        self.vec
    }
}

/// Parallelized compression task.
#[derive(Debug)]
pub struct Parallel {
    to_thread: StuffThatNeedsToBeSent,
}

impl View for Parallel {
    /// The queued payloads, the quality and the number of worker threads.
    type V = (Seq<(usize, Seq<u8>)>, u8, u8);

    closed spec fn view(&self) -> (Seq<(usize, Seq<u8>)>, u8, u8) {
        self.to_thread@
    }
}

impl Parallel {
    /// Creates a parallelized compression task from a vector of bytes,
    /// each payload tagged with its position. Returns a [`ParallelBuilder`].
    /// This method initializes the compression task with the following defaults:
    /// - Default final quality is 95% (95% of the original quality).
    /// - Default number of threads spawned is 2.
    pub fn from_vec(vec: Vec<Vec<u8>>) -> (r: ParallelBuilder)
        ensures
            r@ == (enumerated(payloads_view(vec@)), QUALITY, DEVICE),
    {
        ParallelBuilder { vec: TaskQueue::from_payloads(vec), quality: QUALITY, device_num: DEVICE }
    }

    /// The work of the run, to be handed to the worker threads.
    pub fn into_work(self) -> (r: StuffThatNeedsToBeSent)
        ensures
            r@ == self@,
            1 <= r@.2,
    {
        proof {
            use_type_invariant(&self.to_thread);
        }
        self.to_thread
    }
}

} // verus!
