//! The ordering sequencer: results arrive in completion order and leave in
//! submission order.
use vstd::prelude::*;

use crate::error::Error;

verus! {

/// The first position at or after `m` whose slot holds no result, or the end.
pub open spec fn first_open<R>(slots: Seq<Option<R>>, m: int) -> int
    decreases slots.len() - m,
{
    if m >= slots.len() || slots[m] is None {
        m
    } else {
        first_open(slots, m + 1)
    }
}

/// Whether a sequencer that has released `next` results and holds `slots`
/// takes a result for item `k`: an item not yet released and not yet reported.
pub open spec fn accepts<R>(next: int, slots: Seq<Option<R>>, k: int) -> bool {
    next <= k < slots.len() && slots[k] is None
}

/// One completion: item `k` reports `r`. The result is the new release count,
/// the new slots, and the results released by this step, in order.
pub open spec fn complete_spec<R>(next: int, slots: Seq<Option<R>>, k: int, r: R) -> (
    int,
    Seq<Option<R>>,
    Seq<R>,
) {
    let filled = slots.update(k, Some(r));
    let upto = first_open(filled, next);
    (
        upto,
        Seq::new(filled.len(), |i: int| if next <= i < upto { None } else { filled[i] }),
        Seq::new((upto - next) as nat, |i: int| filled[next + i]->Some_0),
    )
}

/// A fresh sequencer for `n` items, then the completions of `order`, item
/// `order[j]` reporting `rs[order[j]]`: the final release count and slots,
/// and everything released, in order.
pub open spec fn run_spec<R>(n: nat, order: Seq<int>, rs: Seq<R>) -> (int, Seq<Option<R>>, Seq<R>)
    decreases order.len(),
{
    if order.len() == 0 {
        (0, Seq::new(n, |i: int| None), Seq::empty())
    } else {
        let prev = run_spec(n, order.drop_last(), rs);
        let k = order.last();
        let step = complete_spec(prev.0, prev.1, k, rs[k]);
        (step.0, step.1, prev.2 + step.2)
    }
}

/// `order` lists every item of `0..n` exactly once.
pub open spec fn is_permutation_of_range(order: Seq<int>, n: nat) -> bool {
    &&& order.no_duplicates()
    &&& forall|j: int| 0 <= j < order.len() ==> 0 <= #[trigger] order[j] < n
    &&& forall|i: int| 0 <= i < n ==> #[trigger] order.contains(i)
}

proof fn lemma_first_open<R>(slots: Seq<Option<R>>, m: int)
    requires
        0 <= m <= slots.len(),
    ensures
        m <= first_open(slots, m) <= slots.len(),
        forall|i: int| m <= i < first_open(slots, m) ==> slots[i] is Some,
        first_open(slots, m) == slots.len() || slots[first_open(slots, m)] is None,
    decreases slots.len() - m,
{
    if m < slots.len() && slots[m] is Some {
        lemma_first_open(slots, m + 1);
    }
}

/// What holds of the sequencer after the completions listed in `done`.
spec fn run_inv<R>(n: nat, done: Seq<int>, rs: Seq<R>, st: (int, Seq<Option<R>>, Seq<R>)) -> bool {
    &&& 0 <= st.0 <= n
    &&& st.1.len() == n
    &&& forall|i: int| 0 <= i < st.0 ==> #[trigger] done.contains(i)
    &&& forall|i: int|
        0 <= i < n ==> ((#[trigger] st.1[i] is Some) <==> (done.contains(i) && i >= st.0))
    &&& forall|i: int| 0 <= i < n && (#[trigger] st.1[i]) is Some ==> st.1[i]->Some_0 == rs[i]
    &&& st.0 == n || st.1[st.0] is None
    &&& st.2 == rs.subrange(0, st.0)
}

proof fn lemma_run_prefix<R>(n: nat, order: Seq<int>, rs: Seq<R>, j: int)
    requires
        rs.len() == n,
        order.no_duplicates(),
        forall|t: int| 0 <= t < order.len() ==> 0 <= #[trigger] order[t] < n,
        0 <= j <= order.len(),
    ensures
        run_inv(n, order.subrange(0, j), rs, run_spec(n, order.subrange(0, j), rs)),
        j < order.len() ==> ({
            let st = run_spec(n, order.subrange(0, j), rs);
            accepts(st.0, st.1, order[j])
        }),
    decreases j,
{
    let done = order.subrange(0, j);
    let st = run_spec(n, done, rs);
    if j == 0 {
        assert(st.2 =~= rs.subrange(0, 0));
        assert forall|i: int| 0 <= i < n implies !(#[trigger] st.1[i] is Some) by {}
    } else {
        lemma_run_prefix(n, order, rs, j - 1);
        let before = order.subrange(0, j - 1);
        assert(done.drop_last() =~= before);
        let prev = run_spec(n, before, rs);
        let k = order[j - 1];
        assert(done.last() == k);
        assert(!before.contains(k)) by {
            if before.contains(k) {
                let t = choose|t: int| 0 <= t < before.len() && before[t] == k;
                assert(order[t] == order[j - 1]);
            }
        }
        let filled = prev.1.update(k, Some(rs[k]));
        lemma_first_open(filled, prev.0);
        let u = first_open(filled, prev.0);
        assert(st.0 == u);
        assert forall|i: int| #[trigger] done.contains(i) <==> (before.contains(i) || i == k) by {
            if done.contains(i) {
                let t = choose|t: int| 0 <= t < done.len() && done[t] == i;
                if t < j - 1 {
                    assert(before[t] == i);
                }
            }
            if before.contains(i) {
                let t = choose|t: int| 0 <= t < before.len() && before[t] == i;
                assert(done[t] == i);
            }
            if i == k {
                assert(done[j - 1] == i);
            }
        }
        assert forall|i: int| 0 <= i < u implies #[trigger] done.contains(i) by {
            if i >= prev.0 {
                assert(filled[i] is Some);
            }
        }
        assert(st.2 =~= rs.subrange(0, u)) by {
            assert(prev.2 =~= rs.subrange(0, prev.0));
        }
    }
    if j < order.len() {
        let k = order[j];
        assert(!done.contains(k)) by {
            if done.contains(k) {
                let t = choose|t: int| 0 <= t < done.len() && done[t] == k;
                assert(order[t] == order[j]);
            }
        }
    }
}

/// Law of the sequencer: whatever order the workers finish in, once every
/// item of `0..n` has reported its result exactly once, each report has been
/// accepted and exactly `n` results have been released, the `i`-th of them
/// being the result of the `i`-th submitted item.
pub proof fn lemma_release_in_submission_order<R>(n: nat, order: Seq<int>, rs: Seq<R>)
    requires
        rs.len() == n,
        is_permutation_of_range(order, n),
    ensures
        forall|j: int|
            0 <= j < order.len() ==> {
                let st = #[trigger] run_spec(n, order.subrange(0, j), rs);
                accepts(st.0, st.1, order[j])
            },
        run_spec(n, order, rs).0 == n,
        run_spec(n, order, rs).2.len() == n,
        run_spec(n, order, rs).2 == rs,
{
    assert forall|j: int| 0 <= j < order.len() implies {
        let st = #[trigger] run_spec(n, order.subrange(0, j), rs);
        accepts(st.0, st.1, order[j])
    } by {
        lemma_run_prefix(n, order, rs, j);
    }
    lemma_run_prefix(n, order, rs, order.len() as int);
    assert(order.subrange(0, order.len() as int) =~= order);
    let st = run_spec(n, order, rs);
    if st.0 < n {
        assert(order.contains(st.0));
    }
    assert(rs.subrange(0, n as int) =~= rs);
}

/// Law of the sequencer: the results released, and their order, do not
/// depend on the order in which items complete, and so not on how many
/// workers there are or how their threads are scheduled.
pub proof fn lemma_release_independent_of_schedule<R>(
    n: nat,
    order1: Seq<int>,
    order2: Seq<int>,
    rs: Seq<R>,
)
    requires
        rs.len() == n,
        is_permutation_of_range(order1, n),
        is_permutation_of_range(order2, n),
    ensures
        run_spec(n, order1, rs).2 == run_spec(n, order2, rs).2,
{
    lemma_release_in_submission_order(n, order1, rs);
    lemma_release_in_submission_order(n, order2, rs);
}

/// Law of the sequencer: with a single worker, items complete in submission
/// order, and each completion is accepted and releases exactly its own
/// result, at once.
pub proof fn lemma_in_order_completion_releases_at_once<R>(n: nat, rs: Seq<R>, j: int)
    requires
        rs.len() == n,
        0 <= j < n,
    ensures
        ({
            let st = run_spec(n, Seq::new(n, |i: int| i).subrange(0, j), rs);
            &&& st.0 == j
            &&& accepts(st.0, st.1, j)
            &&& complete_spec(st.0, st.1, j, rs[j]).2 == seq![rs[j]]
        }),
{
    let order = Seq::new(n, |i: int| i);
    assert(order.no_duplicates()) by {
        assert forall|a: int, b: int| 0 <= a < order.len() && 0 <= b < order.len() && a != b
            implies order[a] != order[b] by {}
    }
    lemma_run_prefix(n, order, rs, j);
    let done = order.subrange(0, j);
    let st = run_spec(n, done, rs);
    assert forall|i: int| #[trigger] done.contains(i) <==> 0 <= i < j by {
        if 0 <= i < j {
            assert(done[i] == i);
        }
    }
    if st.0 > j {
        assert(done.contains(j));
    }
    if st.0 < j {
        assert(st.1[st.0] is Some);
    }
    let filled = st.1.update(j, Some(rs[j]));
    if j + 1 < n {
        assert(!done.contains(j + 1));
        assert(filled[j + 1] is None);
    }
    assert(first_open(filled, j + 1) == j + 1);
    assert(first_open(filled, j) == j + 1);
    assert(complete_spec(st.0, st.1, j, rs[j]).2 =~= seq![rs[j]]);
}

/// Gates the results of `n` items so that they are released in submission
/// order, whatever order they complete in.
pub struct Sequencer<R> {
    next: usize,
    slots: Vec<Option<R>>,
}

impl<R> View for Sequencer<R> {
    /// The number of results released so far, and the result held for each
    /// item that has reported but has not been released.
    type V = (int, Seq<Option<R>>);

    closed spec fn view(&self) -> (int, Seq<Option<R>>) {
        (self.next as int, self.slots@)
    }
}

impl<R> Sequencer<R> {
    /// A sequencer for `n` items, none of which has reported.
    pub fn new(n: usize) -> (s: Self)
        ensures
            s@ == (0int, Seq::new(n as nat, |i: int| None::<R>)),
    {
        let mut slots: Vec<Option<R>> = Vec::with_capacity(n);
        let mut i: usize = 0;
        while i < n
            invariant
                i <= n,
                slots@ == Seq::new(i as nat, |t: int| None::<R>),
            decreases n - i,
        {
            slots.push(None);
            i = i + 1;
            assert(slots@ =~= Seq::new(i as nat, |t: int| None::<R>));
        }
        Sequencer { next: 0, slots }
    }

    /// The number of items this sequencer was made for.
    pub fn total(&self) -> (r: usize)
        ensures
            r == self@.1.len(),
    {
        self.slots.len()
    }

    /// The number of results released so far.
    pub fn released(&self) -> (r: usize)
        ensures
            r == self@.0,
    {
        self.next
    }

    /// Whether every result has been released.
    pub fn is_finished(&self) -> (r: bool)
        ensures
            r == (self@.0 == self@.1.len()),
    {
        self.next == self.slots.len()
    }

    /// Item `k` reports its result `r`. Returns the results that may now be
    /// sent, in submission order: the result of item `k` together with those
    /// of the items after it that were waiting for it, if `k` is the next item
    /// due, and nothing otherwise. A report for an item that was already
    /// reported, or that does not exist, breaks the protocol and is refused.
    pub fn complete(&mut self, k: usize, r: R) -> (res: Result<Vec<R>, Error>)
        ensures
            res is Ok <==> accepts(old(self)@.0, old(self)@.1, k as int),
            res matches Ok(out) ==> {
                let step = complete_spec(old(self)@.0, old(self)@.1, k as int, r);
                &&& final(self)@ == (step.0, step.1)
                &&& out@ == step.2
            },
            res matches Err(e) ==> final(self)@ == old(self)@ && e is JippigyInternalError,
    {
        if k < self.next || k >= self.slots.len() || self.slots[k].is_some() {
            return Err(
                Error::JippigyInternalError(
                    "a result was reported for an item that was not waiting for one".to_string(),
                ),
            );
        }
        let ghost m0 = self.next as int;
        let ghost filled = self.slots@.update(k as int, Some(r));
        let mut item = Some(r);
        self.slots.set_and_swap(k, &mut item);
        let mut out: Vec<R> = Vec::new();
        proof {
            lemma_first_open(filled, m0);
        }
        while self.next < self.slots.len() && self.slots[self.next].is_some()
            invariant
                m0 <= self.next <= self.slots.len(),
                self.slots.len() == filled.len(),
                first_open(filled, self.next as int) == first_open(filled, m0),
                self.slots@ == Seq::new(
                    filled.len(),
                    |i: int| if m0 <= i < self.next { None } else { filled[i] },
                ),
                out@ == Seq::new(
                    (self.next - m0) as nat,
                    |i: int| filled[m0 + i]->Some_0,
                ),
            decreases self.slots.len() - self.next,
        {
            let mut taken: Option<R> = None;
            let at = self.next;
            self.slots.set_and_swap(at, &mut taken);
            out.push(taken.unwrap());
            self.next = at + 1;
            assert(out@ =~= Seq::new(
                (self.next - m0) as nat,
                |i: int| filled[m0 + i]->Some_0,
            ));
            assert(self.slots@ =~= Seq::new(
                filled.len(),
                |i: int| if m0 <= i < self.next { None } else { filled[i] },
            ));
        }
        Ok(out)
    }
}

} // verus!
