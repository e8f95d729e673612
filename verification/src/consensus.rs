//! Threshold consensus over the tasks that several RPC providers report: a
//! task is approved in the call in which the number of times it has been
//! seen reaches the threshold.
use vstd::prelude::*;
use crate::task::Task;
use crate::text::bytes_eq;

verus! {

/// How often a key has been seen according to `m` (0 when never).
pub open spec fn count_of(m: Map<Seq<u8>, nat>, k: Seq<u8>) -> nat {
    if m.contains_key(k) {
        m[k]
    } else {
        0
    }
}

/// The counts after seeing the tasks `ts` one after another.
pub open spec fn counts_after(m: Map<Seq<u8>, nat>, ts: Seq<Task>) -> Map<Seq<u8>, nat>
    decreases ts.len(),
{
    if ts.len() == 0 {
        m
    } else {
        let p = counts_after(m, ts.drop_last());
        p.insert(ts.last().key(), count_of(p, ts.last().key()) + 1)
    }
}

/// The tasks of `ts`, in order, whose count reaches exactly `threshold`
/// when they are seen.
pub open spec fn approved(m: Map<Seq<u8>, nat>, ts: Seq<Task>, threshold: nat) -> Seq<Task>
    decreases ts.len(),
{
    if ts.len() == 0 {
        Seq::empty()
    } else {
        let p = counts_after(m, ts.drop_last());
        let prev = approved(m, ts.drop_last(), threshold);
        if count_of(p, ts.last().key()) + 1 == threshold {
            prev.push(ts.last())
        } else {
            prev
        }
    }
}

/// The number of tasks of `ts` with key `k`.
pub open spec fn occurrences(ts: Seq<Task>, k: Seq<u8>) -> nat
    decreases ts.len(),
{
    if ts.len() == 0 {
        0
    } else {
        occurrences(ts.drop_last(), k) + if ts.last().key() == k {
            1nat
        } else {
            0nat
        }
    }
}

/// Counts the sightings of each task and approves it once it has been seen
/// `threshold` times.
pub struct Consensus {
    threshold: u64,
    task_approvals: Vec<(Vec<u8>, u64)>,
}

impl Consensus {
    /// The approval counts of the tasks seen so far, by key.
    pub closed spec fn approvals(&self) -> Map<Seq<u8>, nat> {
        Map::new(
            |k: Seq<u8>| exists|i: int| 0 <= i < self.task_approvals.len() && self.task_approvals[i].0@ == k,
            |k: Seq<u8>|
                self.task_approvals[choose|i: int|
                    0 <= i < self.task_approvals.len() && self.task_approvals[i].0@ == k].1 as nat,
        )
    }

    /// The number of sightings that approves a task.
    pub closed spec fn threshold(&self) -> nat {
        self.threshold as nat
    }

    /// The internal table holds each key once.
    pub closed spec fn wf(&self) -> bool {
        forall|i: int, j: int|
            0 <= i < j < self.task_approvals.len() ==> self.task_approvals[i].0@
                != self.task_approvals[j].0@
    }

    /// Whether `n` more sightings fit in the counters.
    pub open spec fn has_room(&self, n: nat) -> bool {
        forall|k: Seq<u8>| #[trigger]
            self.approvals().contains_key(k) ==> self.approvals()[k] + n <= u64::MAX
    }

    /// No task seen yet; tasks are approved on their second sighting.
    pub fn new() -> (r: Consensus)
        ensures
            r.wf(),
            r.approvals() == Map::<Seq<u8>, nat>::empty(),
            r.threshold() == 2,
    {
        let r = Consensus { threshold: 2, task_approvals: Vec::new() };
        assert(r.approvals() =~= Map::<Seq<u8>, nat>::empty());
        r
    }

    /// Whether `n` more sightings fit in the counters.
    pub fn room_for(&self, n: usize) -> (r: bool)
        requires
            self.wf(),
        ensures
            r == self.has_room(n as nat),
    {
        let len = self.task_approvals.len();
        let mut i: usize = 0;
        while i < len
            invariant
                self.wf(),
                len == self.task_approvals.len(),
                i <= len,
                forall|j: int| 0 <= j < i ==> self.task_approvals[j].1 + n <= u64::MAX,
            decreases len - i,
        {
            if self.task_approvals[i].1 > u64::MAX - n as u64 {
                proof {
                    let k = self.task_approvals[i as int].0@;
                    self.lemma_lookup(i as int);
                    assert(self.approvals().contains_key(k));
                }
                return false;
            }
            i = i + 1;
        }
        proof {
            assert forall|k: Seq<u8>| #[trigger]
                self.approvals().contains_key(k) implies self.approvals()[k] + n <= u64::MAX by {
                let j = choose|j: int|
                    0 <= j < self.task_approvals.len() && self.task_approvals[j].0@ == k;
                self.lemma_lookup(j);
            }
        }
        true
    }

    proof fn lemma_lookup(&self, i: int)
        requires
            self.wf(),
            0 <= i < self.task_approvals.len(),
        ensures
            self.approvals().contains_key(self.task_approvals[i].0@),
            self.approvals()[self.task_approvals[i].0@] == self.task_approvals[i].1,
    {
        let k = self.task_approvals[i].0@;
        let j = choose|j: int| 0 <= j < self.task_approvals.len() && self.task_approvals[j].0@ == k;
        assert(j == i);
    }

    fn find(&self, key: &Vec<u8>) -> (r: Option<usize>)
        requires
            self.wf(),
        ensures
            match r {
                Some(i) => i < self.task_approvals.len() && self.task_approvals[i as int].0@ == key@,
                None => !self.approvals().contains_key(key@),
            },
    {
        let len = self.task_approvals.len();
        let mut i: usize = 0;
        while i < len
            invariant
                len == self.task_approvals.len(),
                i <= len,
                forall|j: int| 0 <= j < i ==> self.task_approvals[j].0@ != key@,
            decreases len - i,
        {
            if bytes_eq(self.task_approvals[i].0.as_slice(), key.as_slice()) {
                return Some(i);
            }
            i = i + 1;
        }
        None
    }

    /// Records one sighting of `key` and returns its new count.
    fn record(&mut self, key: Vec<u8>) -> (r: u64)
        requires
            old(self).wf(),
            count_of(old(self).approvals(), key@) < u64::MAX,
        ensures
            final(self).wf(),
            final(self).threshold == old(self).threshold,
            r == count_of(old(self).approvals(), key@) + 1,
            final(self).approvals() == old(self).approvals().insert(key@, r as nat),
    {
        let ghost k = key@;
        match self.find(&key) {
            Some(i) => {
                proof {
                    old(self).lemma_lookup(i as int);
                }
                let c = self.task_approvals[i].1 + 1;
                let entry = (key, c);
                self.task_approvals.set(i, entry);
                proof {
                    assert forall|a: int, b: int|
                        0 <= a < b < self.task_approvals.len() implies self.task_approvals[a].0@
                        != self.task_approvals[b].0@ by {
                        assert(old(self).task_approvals[a].0@ != old(self).task_approvals[b].0@);
                    }
                    assert forall|x: Seq<u8>|
                        #![auto]
                        self.approvals().contains_key(x) == old(self).approvals().insert(
                            k,
                            c as nat,
                        ).contains_key(x) by {
                        if old(self).approvals().contains_key(x) {
                            let j = choose|j: int|
                                0 <= j < old(self).task_approvals.len()
                                    && old(self).task_approvals[j].0@ == x;
                            assert(self.task_approvals[j].0@ == x);
                        }
                        if self.approvals().contains_key(x) {
                            let j = choose|j: int|
                                0 <= j < self.task_approvals.len() && self.task_approvals[j].0@
                                    == x;
                            if j != i {
                                assert(old(self).task_approvals[j].0@ == x);
                            }
                        }
                    }
                    assert forall|x: Seq<u8>| #[trigger]
                        self.approvals().contains_key(x) implies self.approvals()[x] == old(
                        self,
                    ).approvals().insert(k, c as nat)[x] by {
                        let j = choose|j: int|
                            0 <= j < self.task_approvals.len() && self.task_approvals[j].0@ == x;
                        self.lemma_lookup(j);
                        if j != i {
                            old(self).lemma_lookup(j);
                        }
                    }
                    assert(self.approvals() =~= old(self).approvals().insert(k, c as nat));
                }
                c
            },
            None => {
                self.task_approvals.push((key, 1));
                proof {
                    let n = self.task_approvals.len() - 1;
                    assert forall|a: int, b: int|
                        0 <= a < b < self.task_approvals.len() implies self.task_approvals[a].0@
                        != self.task_approvals[b].0@ by {
                        if b == n {
                            assert(old(self).task_approvals[a].0@ != k);
                        } else {
                            assert(old(self).task_approvals[a].0@ != old(self).task_approvals[b].0@);
                        }
                    }
                    assert forall|x: Seq<u8>|
                        #![auto]
                        self.approvals().contains_key(x) == old(self).approvals().insert(
                            k,
                            1,
                        ).contains_key(x) by {
                        if old(self).approvals().contains_key(x) {
                            let j = choose|j: int|
                                0 <= j < old(self).task_approvals.len()
                                    && old(self).task_approvals[j].0@ == x;
                            assert(self.task_approvals[j].0@ == x);
                        }
                        if x == k {
                            assert(self.task_approvals[n].0@ == x);
                        }
                        if self.approvals().contains_key(x) {
                            let j = choose|j: int|
                                0 <= j < self.task_approvals.len() && self.task_approvals[j].0@
                                    == x;
                            if j != n {
                                assert(old(self).task_approvals[j].0@ == x);
                            }
                        }
                    }
                    assert forall|x: Seq<u8>| #[trigger]
                        self.approvals().contains_key(x) implies self.approvals()[x] == old(
                        self,
                    ).approvals().insert(k, 1)[x] by {
                        let j = choose|j: int|
                            0 <= j < self.task_approvals.len() && self.task_approvals[j].0@ == x;
                        self.lemma_lookup(j);
                        if j != n {
                            old(self).lemma_lookup(j);
                        }
                    }
                    assert(self.approvals() =~= old(self).approvals().insert(k, 1));
                }
                1
            },
        }
    }

    /// Counts one sighting of each task and returns, in order, those whose
    /// count reaches the threshold with this sighting.
    pub fn consensus(&mut self, tasks: Vec<Task>) -> (r: Vec<Task>)
        requires
            old(self).wf(),
            old(self).has_room(tasks@.len()),
        ensures
            final(self).wf(),
            final(self).threshold() == old(self).threshold(),
            final(self).approvals() == counts_after(old(self).approvals(), tasks@),
            r@ == approved(old(self).approvals(), tasks@, old(self).threshold()),
    {
        let ghost m0 = self.approvals();
        let ghost ts = tasks@;
        let mut tasks = tasks;
        let mut approved_tasks: Vec<Task> = Vec::new();
        let n = tasks.len();
        let mut i: usize = 0;
        while i < n
            invariant
                self.wf(),
                self.threshold == old(self).threshold,
                n == ts.len(),
                i <= n,
                tasks@ == ts.skip(i as int),
                self.approvals() == counts_after(m0, ts.take(i as int)),
                approved_tasks@ == approved(m0, ts.take(i as int), self.threshold as nat),
                forall|k: Seq<u8>| #[trigger]
                    m0.contains_key(k) ==> m0[k] + n <= u64::MAX,
                forall|k: Seq<u8>|
                    count_of(self.approvals(), k) <= count_of(m0, k) + i,
            decreases n - i,
        {
            let task = tasks.remove(0);
            assert(task == ts[i as int]);
            let key = task.key_bytes();
            proof {
                assert(count_of(self.approvals(), key@) <= count_of(m0, key@) + i);
                if m0.contains_key(key@) {
                    assert(m0[key@] + n <= u64::MAX);
                }
            }
            let ghost before = self.approvals();
            let approvals = self.record(key);
            proof {
                assert(ts.take(i + 1).drop_last() =~= ts.take(i as int));
                assert(ts.take(i + 1).last() == task);
                assert(tasks@ =~= ts.skip(i + 1));
                assert forall|k: Seq<u8>|
                    count_of(self.approvals(), k) <= count_of(m0, k) + (i + 1) by {
                    assert(count_of(before, k) <= count_of(m0, k) + i);
                }
            }
            if approvals == self.threshold {
                approved_tasks.push(task);
            }
            i = i + 1;
        }
        assert(ts.take(n as int) =~= ts);
        approved_tasks
    }
}

/// Seeing tasks changes the count of a key by the number of times it was seen.
pub proof fn lemma_counts_after(m: Map<Seq<u8>, nat>, ts: Seq<Task>, k: Seq<u8>)
    ensures
        count_of(counts_after(m, ts), k) == count_of(m, k) + occurrences(ts, k),
    decreases ts.len(),
{
    if ts.len() > 0 {
        lemma_counts_after(m, ts.drop_last(), k);
    }
}

/// Handing the tasks over in two calls counts and approves exactly as one
/// call with all of them would: what happens to a task does not depend on how
/// the reports are split into calls.
pub proof fn lemma_calls_compose(m: Map<Seq<u8>, nat>, a: Seq<Task>, b: Seq<Task>, threshold: nat)
    ensures
        counts_after(m, a + b) == counts_after(counts_after(m, a), b),
        approved(m, a + b, threshold) == approved(m, a, threshold) + approved(
            counts_after(m, a),
            b,
            threshold,
        ),
    decreases b.len(),
{
    if b.len() == 0 {
        assert(a + b =~= a);
        assert(approved(m, a, threshold) + approved(counts_after(m, a), b, threshold) =~= approved(
            m,
            a,
            threshold,
        ));
    } else {
        lemma_calls_compose(m, a, b.drop_last(), threshold);
        assert((a + b).drop_last() =~= a + b.drop_last());
        assert((a + b).last() == b.last());
        let prev = approved(m, a + b.drop_last(), threshold);
        let rest = approved(counts_after(m, a), b.drop_last(), threshold);
        assert(prev.push(b.last()) =~= approved(m, a, threshold) + rest.push(b.last()));
    }
}

/// The number of approvals of a task in one call: one when its count was
/// below the threshold before the call and reaches it during the call,
/// none otherwise.
pub proof fn lemma_approved_at_most_once(m: Map<Seq<u8>, nat>, ts: Seq<Task>, threshold: nat, k: Seq<u8>)
    requires
        threshold >= 1,
    ensures
        occurrences(approved(m, ts, threshold), k) == if count_of(m, k) < threshold <= count_of(m, k)
            + occurrences(ts, k) {
            1nat
        } else {
            0nat
        },
    decreases ts.len(),
{
    if ts.len() > 0 {
        let init = ts.drop_last();
        lemma_approved_at_most_once(m, init, threshold, k);
        lemma_counts_after(m, init, k);
        lemma_counts_after(m, init, ts.last().key());
        let p = counts_after(m, init);
        let prev = approved(m, init, threshold);
        if count_of(p, ts.last().key()) + 1 == threshold {
            assert(prev.push(ts.last()).drop_last() =~= prev);
        }
    }
}

/// The central promise of the threshold consensus: from a fresh state, over
/// all the tasks ever reported (in however many calls), a task is approved
/// exactly once if it was reported at least `threshold` times, and never
/// otherwise.
pub proof fn lemma_approved_once_iff_seen_threshold_times(ts: Seq<Task>, threshold: nat, k: Seq<u8>)
    requires
        threshold >= 1,
    ensures
        occurrences(approved(Map::empty(), ts, threshold), k) == if occurrences(ts, k)
            >= threshold {
            1nat
        } else {
            0nat
        },
{
    lemma_approved_at_most_once(Map::empty(), ts, threshold, k);
}


/// Every recorded count fits in a counter.
pub proof fn lemma_counts_fit(c: Consensus)
    ensures
        forall|k: Seq<u8>| #[trigger] c.approvals().contains_key(k) ==> c.approvals()[k] <= u64::MAX,
{
    assert forall|k: Seq<u8>| #[trigger] c.approvals().contains_key(k) implies c.approvals()[k] <= u64::MAX by {
        let j = choose|j: int| 0 <= j < c.task_approvals.len() && c.task_approvals[j].0@ == k;
        assert(c.approvals()[k] == c.task_approvals[choose|i: int|
            0 <= i < c.task_approvals.len() && c.task_approvals[i].0@ == k].1 as nat);
    }
}

/// Counting goes on after approval: whatever the counts are (an approved
/// task's count of 2 or more among them), `n` more sightings fit as soon as
/// every count is at most `m` and `m + n` fits in a counter.
pub proof fn lemma_room_under_count_bound(c: Consensus, m: nat, n: nat)
    requires
        forall|k: Seq<u8>| #[trigger] c.approvals().contains_key(k) ==> c.approvals()[k] <= m,
        m + n <= u64::MAX,
    ensures
        c.has_room(n),
{
}

/// No sighting at all always fits.
pub proof fn lemma_room_for_nothing(c: Consensus)
    ensures
        c.has_room(0),
{
    lemma_counts_fit(c);
    lemma_room_under_count_bound(c, u64::MAX as nat, 0);
}

} // verus!
