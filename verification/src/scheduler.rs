//! The task scheduler: the shared ready queue, and round-robin selection
//! with core-affinity pin skipping and a starvation guard.

use vstd::prelude::*;
use std::collections::VecDeque;
use crate::frame::Frame;
use crate::memory::USER_START;
use crate::pages::{PAGE_SIZE, UserPages};
use crate::process::{Process, ProcessId};
use crate::stack::Stack;
use crate::task::{Pin, Task, TaskId};

verus! {

/// A task may execute on `core` when its pin admits that core.
pub open spec fn eligible(t: Task, core: usize) -> bool {
    t.pin.can_take_spec(core)
}

/// The position of the first task eligible on `core`, or the queue length
/// when every task is pinned elsewhere.
pub open spec fn first_eligible(s: Seq<Task>, core: usize) -> int
    decreases s.len(),
{
    if s.len() == 0 {
        0
    } else if eligible(s[0], core) {
        0
    } else {
        1 + first_eligible(s.drop_first(), core)
    }
}

/// Whether some queued task is eligible on `core`.
pub open spec fn has_eligible(s: Seq<Task>, core: usize) -> bool {
    exists|i: int| 0 <= i < s.len() && eligible(s[i], core)
}

/// Whether some queued task carries the identity `id`.
pub open spec fn queue_has_id(s: Seq<Task>, id: TaskId) -> bool {
    exists|i: int| 0 <= i < s.len() && s[i].id == id
}

/// No two queued tasks share an identity.
pub open spec fn distinct_ids(s: Seq<Task>) -> bool {
    forall|i: int, j: int| 0 <= i < j < s.len() ==> s[i].id != s[j].id
}

/// What one `next_task` call on `core` returns from queue `s`.
pub open spec fn next_result(s: Seq<Task>, core: usize) -> Option<Task> {
    let i = first_eligible(s, core);
    if i < s.len() {
        Some(s[i])
    } else {
        None
    }
}

/// The queue left behind by one `next_task` call on `core`: the skipped
/// tasks move to the tail in order; with no eligible task the queue is
/// unchanged, in contents and in order.
pub open spec fn after_next(s: Seq<Task>, core: usize) -> Seq<Task> {
    let i = first_eligible(s, core);
    if i < s.len() {
        s.subrange(i + 1, s.len() as int) + s.subrange(0, i)
    } else {
        s
    }
}

/// `first_eligible` is the least index of an eligible task.
pub proof fn lemma_first_eligible(s: Seq<Task>, core: usize)
    ensures
        0 <= first_eligible(s, core) <= s.len(),
        first_eligible(s, core) < s.len() ==> eligible(s[first_eligible(s, core)], core),
        forall|j: int| 0 <= j < first_eligible(s, core) ==> !eligible(s[j], core),
        has_eligible(s, core) <==> first_eligible(s, core) < s.len(),
    decreases s.len(),
{
    if s.len() == 0 {
    } else if eligible(s[0], core) {
    } else {
        lemma_first_eligible(s.drop_first(), core);
        let fe = first_eligible(s, core);
        assert forall|j: int| 0 <= j < fe implies !eligible(s[j], core) by {
            if j >= 1 {
                assert(s.drop_first()[j - 1] == s[j]);
                assert(!eligible(s.drop_first()[j - 1], core));
            }
        }
        if fe < s.len() {
            assert(eligible(s.drop_first()[fe - 1], core));
            assert(s.drop_first()[fe - 1] == s[fe]);
        }
        if has_eligible(s, core) {
            let w = choose|i: int| 0 <= i < s.len() && eligible(s[i], core);
            assert(s.drop_first()[w - 1] == s[w]);
            assert(has_eligible(s.drop_first(), core));
        }
        if has_eligible(s.drop_first(), core) {
            let w = choose|i: int|
                0 <= i < s.drop_first().len() && eligible(s.drop_first()[i], core);
            assert(s[w + 1] == s.drop_first()[w]);
            assert(has_eligible(s, core));
        }
    }
}

/// A task that is eligible behind only ineligible tasks is the first
/// eligible one.
pub proof fn lemma_first_eligible_at(s: Seq<Task>, core: usize, k: int)
    requires
        0 <= k < s.len(),
        eligible(s[k], core),
        forall|j: int| 0 <= j < k ==> !eligible(s[j], core),
    ensures
        first_eligible(s, core) == k,
{
    lemma_first_eligible(s, core);
}

/// When every queued task is ineligible, none is first.
pub proof fn lemma_first_eligible_none(s: Seq<Task>, core: usize)
    requires
        forall|j: int| 0 <= j < s.len() ==> !eligible(s[j], core),
    ensures
        first_eligible(s, core) == s.len(),
{
    lemma_first_eligible(s, core);
}

/// A task pinned to core `c1` is never returned by `next_task` for a
/// different core `c2`.
pub proof fn lemma_pin_respected(s: Seq<Task>, c1: usize, c2: usize, t: Task)
    requires
        next_result(s, c2) == Some(t),
        t.pin == Pin::Core(c1),
    ensures
        c1 == c2,
{
    lemma_first_eligible(s, c2);
}

/// When every queued task is pinned to a core other than `core`, the call
/// returns nothing and the queue is unchanged: no task lost, none
/// duplicated, the order kept.
pub proof fn lemma_no_eligible_keeps_queue(s: Seq<Task>, core: usize)
    requires
        forall|i: int| 0 <= i < s.len() ==> !eligible(s[i], core),
    ensures
        next_result(s, core) is None,
        after_next(s, core) == s,
        after_next(s, core).to_multiset() == s.to_multiset(),
{
    lemma_first_eligible_none(s, core);
}

/// One call keeps identities distinct, returns an identity out of the
/// queue, and never invents one.
pub proof fn lemma_after_next_ids(s: Seq<Task>, core: usize)
    requires
        distinct_ids(s),
    ensures
        distinct_ids(after_next(s, core)),
        forall|id: TaskId| queue_has_id(after_next(s, core), id) ==> queue_has_id(s, id),
        next_result(s, core) matches Some(t) ==> !queue_has_id(
            after_next(s, core),
            t.id,
        ),
{
    lemma_first_eligible(s, core);
    let fe = first_eligible(s, core);
    let a = after_next(s, core);
    if fe < s.len() {
        // Every position of the rearranged queue holds a task of the
        // original queue other than the returned one, and no two positions
        // hold the same one.
        assert forall|i: int, j: int| 0 <= i < j < a.len() implies a[i].id != a[j].id by {
            let oi = if i < s.len() - fe - 1 { fe + 1 + i } else { i - (s.len() - fe - 1) };
            let oj = if j < s.len() - fe - 1 { fe + 1 + j } else { j - (s.len() - fe - 1) };
            assert(a[i] == s[oi] && a[j] == s[oj]);
            assert(oi != oj);
        }
        assert forall|i: int| 0 <= i < a.len() implies a[i].id != s[fe].id by {
            let oi = if i < s.len() - fe - 1 { fe + 1 + i } else { i - (s.len() - fe - 1) };
            assert(a[i] == s[oi]);
        }
    }
}

/// The identities handed out by `n` successive `next_task` calls on `core`,
/// in order.  Once a call returns nothing, no further task is handed out.
pub open spec fn sweep_ids(s: Seq<Task>, core: usize, n: nat) -> Seq<TaskId>
    decreases n,
{
    if n == 0 {
        Seq::empty()
    } else {
        match next_result(s, core) {
            Some(t) => seq![t.id] + sweep_ids(after_next(s, core), core, (n - 1) as nat),
            None => Seq::empty(),
        }
    }
}

/// A sweep only hands out identities that were in the queue.
pub proof fn lemma_sweep_ids_from_queue(s: Seq<Task>, core: usize, n: nat)
    ensures
        forall|i: int|
            0 <= i < sweep_ids(s, core, n).len() ==> queue_has_id(
                s,
                #[trigger] sweep_ids(s, core, n)[i],
            ),
    decreases n,
{
    if n == 0 {
    } else {
        match next_result(s, core) {
            Some(t) => {
                lemma_first_eligible(s, core);
                lemma_sweep_ids_from_queue(after_next(s, core), core, (n - 1) as nat);
                let a = after_next(s, core);
                let fe = first_eligible(s, core);
                assert(queue_has_id(s, t.id));
                assert forall|i: int| 0 <= i < sweep_ids(s, core, n).len() implies queue_has_id(
                    s,
                    #[trigger] sweep_ids(s, core, n)[i],
                ) by {
                    if i >= 1 {
                        let id = sweep_ids(a, core, (n - 1) as nat)[i - 1];
                        assert(queue_has_id(a, id));
                        let j = choose|j: int| 0 <= j < a.len() && a[j].id == id;
                        if fe < s.len() {
                            if j < s.len() - fe - 1 {
                                assert(s[fe + 1 + j] == a[j]);
                            } else {
                                assert(s[j - (s.len() - fe - 1)] == a[j]);
                            }
                        }
                    }
                }
            },
            None => {},
        }
    }
}

/// Fairness within one sweep: however many times `next_task(core)` is
/// called on a queue of distinct tasks, no task is returned twice; in
/// particular none is returned twice before the rest are returned once.
pub proof fn lemma_sweep_no_repeat(s: Seq<Task>, core: usize, n: nat)
    requires
        distinct_ids(s),
    ensures
        sweep_ids(s, core, n).no_duplicates(),
    decreases n,
{
    if n == 0 {
    } else {
        match next_result(s, core) {
            Some(t) => {
                let a = after_next(s, core);
                lemma_after_next_ids(s, core);
                lemma_sweep_no_repeat(a, core, (n - 1) as nat);
                lemma_sweep_ids_from_queue(a, core, (n - 1) as nat);
                let rest = sweep_ids(a, core, (n - 1) as nat);
                assert forall|i: int, j: int|
                    0 <= i < sweep_ids(s, core, n).len() && 0 <= j < sweep_ids(s, core, n).len()
                        && i != j implies sweep_ids(s, core, n)[i] != sweep_ids(
                    s,
                    core,
                    n,
                )[j] by {
                    if i == 0 && j >= 1 {
                        assert(queue_has_id(a, rest[j - 1]));
                    } else if j == 0 && i >= 1 {
                        assert(queue_has_id(a, rest[i - 1]));
                    } else if i >= 1 && j >= 1 {
                        assert(rest[i - 1] != rest[j - 1]);
                    }
                }
            },
            None => {},
        }
    }
}

/// One step of the shared scheduler as the cores drive it: some core takes
/// work, or some core re-enqueues a task it has run.
pub enum SchedOp {
    Next(usize),
    Add(Task),
}

/// Whether a run of operations is one the kernel can produce: a task is
/// only re-enqueued after it was returned, and never while it is still
/// queued.
pub open spec fn ops_ok(q: Seq<Task>, returned: Seq<TaskId>, ops: Seq<SchedOp>) -> bool
    decreases ops.len(),
{
    if ops.len() == 0 {
        true
    } else {
        match ops[0] {
            SchedOp::Next(c) => {
                let returned2 = match next_result(q, c) {
                    Some(t) => returned.push(t.id),
                    None => returned,
                };
                ops_ok(after_next(q, c), returned2, ops.drop_first())
            },
            SchedOp::Add(t) => {
                &&& returned.contains(t.id)
                &&& !queue_has_id(q, t.id)
                &&& ops_ok(q.push(t), returned, ops.drop_first())
            },
        }
    }
}

/// The identities returned over a run of operations, appended to those
/// already returned.
pub open spec fn run_returned(q: Seq<Task>, returned: Seq<TaskId>, ops: Seq<SchedOp>) -> Seq<
    TaskId,
>
    decreases ops.len(),
{
    if ops.len() == 0 {
        returned
    } else {
        match ops[0] {
            SchedOp::Next(c) => {
                let returned2 = match next_result(q, c) {
                    Some(t) => returned.push(t.id),
                    None => returned,
                };
                run_returned(after_next(q, c), returned2, ops.drop_first())
            },
            SchedOp::Add(t) => run_returned(q.push(t), returned, ops.drop_first()),
        }
    }
}

/// A run never disturbs what was already returned.
pub proof fn lemma_run_returned_prefix(q: Seq<Task>, returned: Seq<TaskId>, ops: Seq<SchedOp>)
    ensures
        run_returned(q, returned, ops).len() >= returned.len(),
        forall|k: int|
            0 <= k < returned.len() ==> run_returned(q, returned, ops)[k] == returned[k],
    decreases ops.len(),
{
    if ops.len() == 0 {
    } else {
        match ops[0] {
            SchedOp::Next(c) => {
                let returned2 = match next_result(q, c) {
                    Some(t) => returned.push(t.id),
                    None => returned,
                };
                lemma_run_returned_prefix(after_next(q, c), returned2, ops.drop_first());
                assert(run_returned(q, returned, ops) == run_returned(
                    after_next(q, c),
                    returned2,
                    ops.drop_first(),
                ));
                assert forall|k: int| 0 <= k < returned.len() implies run_returned(
                    q,
                    returned,
                    ops,
                )[k] == returned[k] by {
                    assert(run_returned(after_next(q, c), returned2, ops.drop_first())[k]
                        == returned2[k]);
                    assert(returned2[k] == returned[k]);
                }
            },
            SchedOp::Add(t) => {
                lemma_run_returned_prefix(q.push(t), returned, ops.drop_first());
                assert(run_returned(q, returned, ops) == run_returned(
                    q.push(t),
                    returned,
                    ops.drop_first(),
                ));
            },
        }
    }
}

/// The generalized boot-fairness invariant: partway through a run, the
/// queue is the untouched tail of the boot queue followed by re-enqueued
/// tasks, and exactly the boot queue's head tasks have been returned, in
/// order.
proof fn lemma_boot_fifo_rec(
    orig: Seq<Task>,
    m: int,
    extras: Seq<Task>,
    returned: Seq<TaskId>,
    ops: Seq<SchedOp>,
)
    requires
        0 <= m <= orig.len(),
        forall|i: int| 0 <= i < orig.len() ==> orig[i].pin == Pin::Unpinned,
        returned.len() == m,
        forall|k: int| 0 <= k < m ==> returned[k] == orig[k].id,
        ops_ok(orig.subrange(m, orig.len() as int) + extras, returned, ops),
    ensures
        forall|k: int|
            0 <= k < orig.len() && k < run_returned(
                orig.subrange(m, orig.len() as int) + extras,
                returned,
                ops,
            ).len() ==> run_returned(orig.subrange(m, orig.len() as int) + extras, returned, ops)[k]
                == orig[k].id,
    decreases ops.len(),
{
    let n = orig.len() as int;
    let q = orig.subrange(m, n) + extras;
    if m == n {
        lemma_run_returned_prefix(q, returned, ops);
        assert forall|k: int|
            0 <= k < orig.len() && k < run_returned(q, returned, ops).len() implies run_returned(
            q,
            returned,
            ops,
        )[k] == orig[k].id by {
            assert(run_returned(q, returned, ops)[k] == returned[k]);
        }
    } else if ops.len() == 0 {
    } else {
        match ops[0] {
            SchedOp::Next(c) => {
                assert(q[0] == orig[m]);
                assert(eligible(q[0], c));
                assert(first_eligible(q, c) == 0);
                assert(next_result(q, c) == Some(orig[m]));
                let q2 = after_next(q, c);
                assert(q2 =~= orig.subrange(m + 1, n) + extras);
                let returned2 = returned.push(orig[m].id);
                lemma_boot_fifo_rec(orig, m + 1, extras, returned2, ops.drop_first());
                assert(run_returned(q, returned, ops) == run_returned(
                    orig.subrange(m + 1, n) + extras,
                    returned2,
                    ops.drop_first(),
                ));
            },
            SchedOp::Add(t) => {
                assert(q.push(t) =~= orig.subrange(m, n) + extras.push(t));
                lemma_boot_fifo_rec(orig, m, extras.push(t), returned, ops.drop_first());
                assert(run_returned(q, returned, ops) == run_returned(
                    orig.subrange(m, n) + extras.push(t),
                    returned,
                    ops.drop_first(),
                ));
            },
        }
    }
}

/// Boot fairness: starting from any queue of unpinned tasks, across any
/// interleaving of cores taking work and re-enqueuing tasks they have
/// already run, every boot task is returned once, in queue order, before
/// any task is returned a second time.
pub proof fn lemma_boot_fifo(q0: Seq<Task>, ops: Seq<SchedOp>)
    requires
        distinct_ids(q0),
        forall|i: int| 0 <= i < q0.len() ==> q0[i].pin == Pin::Unpinned,
        ops_ok(q0, Seq::empty(), ops),
    ensures
        forall|k: int|
            0 <= k < q0.len() && k < run_returned(q0, Seq::empty(), ops).len() ==> run_returned(
                q0,
                Seq::empty(),
                ops,
            )[k] == q0[k].id,
{
    assert(q0.subrange(0, q0.len() as int) + Seq::<Task>::empty() =~= q0);
    lemma_boot_fifo_rec(q0, 0, Seq::empty(), Seq::empty(), ops);
}

/// The ready queue of tasks, shared by every per-core kernel.
#[derive(Debug)]
pub struct Scheduler {
    tasks: VecDeque<Task>,
}

impl View for Scheduler {
    type V = Seq<Task>;

    closed spec fn view(&self) -> Seq<Task> {
        self.tasks@
    }
}

impl Scheduler {
    /// The queue invariant: a task appears in the queue at most once.
    pub open spec fn wf(self) -> bool {
        distinct_ids(self@)
    }

    /// An empty ready queue.
    pub fn new() -> (s: Scheduler)
        ensures
            s.wf(),
            s@ == Seq::<Task>::empty(),
    {
        let s = Scheduler { tasks: VecDeque::new() };
        proof {
            assert(s@ =~= Seq::<Task>::empty());
        }
        s
    }

    /// Enqueues a task at the tail of the ready queue, unconditionally.
    pub fn add_task(&mut self, task: Task)
        requires
            old(self).wf(),
            !queue_has_id(old(self)@, task.id),
        ensures
            final(self).wf(),
            final(self)@ == old(self)@.push(task),
    {
        self.tasks.push_back(task);
        proof {
            assert forall|i: int, j: int| 0 <= i < j < self@.len() implies self@[i].id
                != self@[j].id by {
                if j == self@.len() - 1 {
                    assert(!(old(self)@[i].id == task.id));
                }
            }
        }
    }

    /// Builds a task around a fresh process loaded from `data`, with forty
    /// zeroed pages of headroom grown onto its address space, and enqueues
    /// it unpinned.
    pub fn new_test_task(&mut self, id: usize, data: &[u8])
        requires
            old(self).wf(),
            !queue_has_id(old(self)@, (TaskId(id))),
            USER_START + data@.len() + 41 * PAGE_SIZE <= usize::MAX,
        ensures
            final(self).wf(),
            final(self)@.len() == old(self)@.len() + 1,
            final(self)@.subrange(0, old(self)@.len() as int) == old(self)@,
            final(self)@.last().id == (TaskId(id)),
            final(self)@.last().pin == Pin::Unpinned,
            final(self)@.last().wf(),
            final(self)@.last().frame == Frame::empty_spec(USER_START),
            final(self)@.last().frame.is_user_mode_spec(),
            final(self)@.last().process.id == (ProcessId(id)),
            final(self)@.last().process.memory.mapped_bytes().subrange(
                0,
                data@.len() as int,
            ) == data@,
            data@.len() + 40 * PAGE_SIZE <= final(self)@.last().process.memory.mapped_bytes().len()
                < data@.len() + 41 * PAGE_SIZE,
            forall|i: int|
                data@.len() <= i < final(self)@.last().process.memory.mapped_bytes().len()
                    ==> final(self)@.last().process.memory.mapped_bytes()[i] == 0,
            final(self)@.last().process.memory.user_end == USER_START
                + final(self)@.last().process.memory.mapped_bytes().len(),
    {
        let mut process = Process::from_slice(ProcessId::from(id), data);
        let ghost loaded = process.memory.mapped_bytes();
        process.memory.grow(UserPages::zeroed(40));
        let frame = Frame::empty(process.memory.user_start);
        let ghost prior = self@;
        self.add_task(
            Task {
                id: TaskId::new(id),
                frame: frame,
                pin: Pin::Unpinned,
                stack: Stack::new(),
                process: process,
            },
        );
        proof {
            assert(self@.subrange(0, prior.len() as int) =~= prior);
            let grown = self@.last().process.memory.mapped_bytes();
            assert(grown.subrange(0, data@.len() as int) =~= data@);
            assert forall|i: int| data@.len() <= i < grown.len() implies grown[i] == 0 by {
                if i < loaded.len() {
                    assert(grown[i] == loaded[i]);
                }
            }
        }
    }

    /// Removes and returns the first task whose pin allows execution on
    /// `core`, re-enqueuing at the tail any task pinned to a different core.
    /// With no eligible task it returns nothing, and the queue is left
    /// unchanged: the task whose reappearance ended the scan goes back to
    /// the head it was taken from, so no task is lost, duplicated or moved.
    pub fn next_task(&mut self, core: usize) -> (r: Option<Task>)
        requires
            old(self).wf(),
        ensures
            final(self).wf(),
            r == next_result(old(self)@, core),
            final(self)@ == after_next(old(self)@, core),
            r is Some <==> has_eligible(old(self)@, core),
            r matches Some(t) ==> eligible(t, core) && !queue_has_id(final(self)@, t.id),
    {
        let ghost s = old(self)@;
        let ghost n = s.len() as int;
        let ghost mut k: int = 0;
        let mut wrap_around: Option<TaskId> = None;
        loop
            invariant
                s == old(self)@,
                0 <= k <= n,
                n == s.len(),
                distinct_ids(s),
                self@ == s.subrange(k, n) + s.subrange(0, k),
                wrap_around == (if k == 0 {
                    None::<TaskId>
                } else {
                    Some(s[0].id)
                }),
                forall|j: int| 0 <= j < k ==> !eligible(s[j], core),
            decreases n - k + 1,
        {
            let task = self.tasks.pop_front();
            if let Some(task) = task {
                proof {
                    assert(s.subrange(k, n).len() + s.subrange(0, k).len() > 0);
                    if k < n {
                        assert((s.subrange(k, n) + s.subrange(0, k))[0] == s[k]);
                    } else {
                        assert((s.subrange(k, n) + s.subrange(0, k))[0] == s[0]);
                    }
                }
                if let Some(w) = wrap_around {
                    if task.id == w {
                        proof {
                            // A repeated identity means the scan wrapped all
                            // the way around: nothing was eligible.
                            if k < n {
                                assert(task == s[k]);
                                assert(s[k].id != s[0].id);
                                assert(false);
                            }
                            assert(task == s[0]);
                        }
                        self.tasks.push_front(task);
                        proof {
                            lemma_first_eligible_none(s, core);
                            assert(self@ =~= s);
                            assert(after_next(s, core) == s);
                        }
                        return None;  // No more tasks to run
                    }
                }
                proof {
                    if k == n {
                        assert(task == s[0]);
                        assert(wrap_around == Some(s[0].id));
                        assert(false);
                    }
                    assert(task == s[k]);
                }
                if wrap_around.is_none() {
                    wrap_around = Some(task.id);
                }
                if task.pin.can_take(core) {
                    proof {
                        lemma_first_eligible_at(s, core, k);
                        assert(self@ =~= s.subrange(k + 1, n) + s.subrange(0, k));
                        assert forall|i: int| 0 <= i < self@.len() implies self@[i].id
                            != task.id by {
                            if i < n - k - 1 {
                                assert(self@[i] == s[k + 1 + i]);
                            } else {
                                assert(self@[i] == s[i - (n - k - 1)]);
                            }
                        }
                    }
                    return Some(task);
                } else {
                    self.tasks.push_back(task);
                    proof {
                        assert(self@ =~= s.subrange(k + 1, n) + s.subrange(0, k + 1));
                        k = k + 1;
                    }
                }
            } else {
                proof {
                    assert(n == 0);
                    assert(after_next(s, core) == s);
                    lemma_first_eligible(s, core);
                }
                return None;
            }
        }
    }
}

} // verus!
