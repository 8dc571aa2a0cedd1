//! The protocol that tasks follow when they deliver under ordering gates,
//! as a transition system, and what holds of every run of it: batches of
//! one chat never interleave, and nothing but a taken gate ever makes a
//! task wait.
//!
//! A task is what `Intake::Spawn` starts: it has the ordering gate that the
//! dispatcher named and, once the pipeline has run, a batch to deliver
//! (`Batch::Deliver`) or nothing (`Batch::Nothing`).

use vstd::prelude::*;

verus! {

/// How far a task has come.
pub enum Phase {
    /// The pipeline runs.
    Computing,
    /// The batch is ready; the task waits for its gate.
    Waiting,
    /// The task holds its gate and has handed over this many messages.
    Holding(nat),
    /// The task has ended.
    Done,
}

/// One task.
pub struct Task {
    /// The ordering gate of its chat.
    pub gate: nat,
    /// How many messages its batch has.
    pub batch: nat,
    pub phase: Phase,
}

impl Task {
    /// How many messages the task has handed over so far.
    pub open spec fn sent(self) -> nat {
        match self.phase {
            Phase::Computing => 0,
            Phase::Waiting => 0,
            Phase::Holding(k) => k,
            Phase::Done => self.batch,
        }
    }
}

/// All tasks, and what the sender hub has seen: for each message handed
/// over, the task and the place of the message in its batch.
pub struct World {
    pub tasks: Seq<Task>,
    pub log: Seq<(nat, nat)>,
}

/// What a task may do next.
pub enum Step {
    /// The pipeline of the task ends.
    Compute(nat),
    /// The task takes its gate.
    Acquire(nat),
    /// The task hands its next message to the sender hub.
    Send(nat),
    /// The task releases its gate.
    Release(nat),
}

impl Step {
    /// The task that takes the step.
    pub open spec fn task(self) -> nat {
        match self {
            Step::Compute(t) => t,
            Step::Acquire(t) => t,
            Step::Send(t) => t,
            Step::Release(t) => t,
        }
    }
}

impl World {
    /// A world in which `tasks` have just been started.
    pub open spec fn started(self) -> bool {
        &&& self.log.len() == 0
        &&& forall|t: int| 0 <= t < self.tasks.len() ==> (#[trigger] self.tasks[t]).phase is Computing
    }

    /// No task holds the ordering gate `g`.
    pub open spec fn gate_free(self, g: nat) -> bool {
        forall|t: int|
            0 <= t < self.tasks.len() ==> !((#[trigger] self.tasks[t]).gate == g
                && self.tasks[t].phase is Holding)
    }

    /// Whether `s` can be taken. The end of a pipeline waits for nothing.
    /// A gate can be taken when no task holds it. Messages are handed over
    /// and the ordering gate is released by the task that holds it.
    pub open spec fn enabled(self, s: Step) -> bool {
        &&& s.task() < self.tasks.len()
        &&& match s {
            Step::Compute(t) => self.tasks[t as int].phase is Computing,
            Step::Acquire(t) => self.tasks[t as int].phase is Waiting && self.gate_free(
                self.tasks[t as int].gate,
            ),
            Step::Send(t) => self.tasks[t as int].phase matches Phase::Holding(k) && k
                < self.tasks[t as int].batch,
            Step::Release(t) => self.tasks[t as int].phase matches Phase::Holding(k) && k
                == self.tasks[t as int].batch,
        }
    }

    /// The world with the phase of task `t` set to `p`.
    pub open spec fn with_phase(self, t: nat, p: Phase) -> World {
        World {
            tasks: self.tasks.update(
                t as int,
                Task { gate: self.tasks[t as int].gate, batch: self.tasks[t as int].batch, phase: p },
            ),
            log: self.log,
        }
    }

    /// The world after the step `s`. A task without a batch ends when its
    /// pipeline ends, and never takes a gate.
    pub open spec fn next(self, s: Step) -> World {
        match s {
            Step::Compute(t) => if self.tasks[t as int].batch == 0 {
                self.with_phase(t, Phase::Done)
            } else {
                self.with_phase(t, Phase::Waiting)
            },
            Step::Acquire(t) => self.with_phase(t, Phase::Holding(0)),
            Step::Send(t) => {
                let k = self.tasks[t as int].sent();
                let w = self.with_phase(t, Phase::Holding(k + 1));
                World { tasks: w.tasks, log: self.log.push((t, k)) }
            },
            Step::Release(t) => self.with_phase(t, Phase::Done),
        }
    }

    /// The ordering gate of the task that handed over the `i`-th message.
    pub open spec fn gate_at(self, i: int) -> nat {
        self.tasks[self.log[i].0 as int].gate
    }

    /// No task has handed over more than its batch.
    pub open spec fn within_batches(self) -> bool {
        forall|t: int|
            0 <= t < self.tasks.len() ==> (#[trigger] self.tasks[t]).sent() <= self.tasks[t].batch
    }

    /// Each gate is held by one task at most.
    pub open spec fn exclusive(self) -> bool {
        forall|a: int, b: int|
            0 <= a < self.tasks.len() && 0 <= b < self.tasks.len() && a != b && (
            #[trigger] self.tasks[a]).phase is Holding && (#[trigger] self.tasks[b]).phase
                is Holding ==> self.tasks[a].gate != self.tasks[b].gate
    }

    /// Every message seen is one that its task has handed over.
    pub open spec fn log_in_range(self) -> bool {
        forall|i: int|
            0 <= i < self.log.len() ==> (#[trigger] self.log[i]).0 < self.tasks.len()
                && self.log[i].1 < self.tasks[self.log[i].0 as int].sent()
    }

    /// After a message of a task that has not ended, all messages through
    /// the same gate are of that task.
    pub open spec fn holder_owns_tail(self) -> bool {
        forall|i: int, m: int|
            #![trigger self.log[i], self.log[m]]
            0 <= i < m < self.log.len() && !(self.tasks[self.log[i].0 as int].phase is Done)
                && self.gate_at(m) == self.gate_at(i) ==> self.log[m].0 == self.log[i].0
    }

    /// Batches do not interleave: between two messages of one task, every
    /// message through the same gate is of that task too.
    pub open spec fn no_interleaving(self) -> bool {
        forall|i: int, m: int, j: int|
            #![trigger self.log[i], self.log[m], self.log[j]]
            0 <= i < m < j < self.log.len() && self.log[i].0 == self.log[j].0 && self.gate_at(m)
                == self.gate_at(i) ==> self.log[m].0 == self.log[i].0
    }

    /// What holds in every world that a run reaches.
    pub open spec fn inv(self) -> bool {
        &&& self.within_batches()
        &&& self.exclusive()
        &&& self.log_in_range()
        &&& self.holder_owns_tail()
        &&& self.no_interleaving()
    }
}

/// A run begins in a world in which all this holds.
pub proof fn lemma_started_inv(w: World)
    requires
        w.started(),
    ensures
        w.inv(),
{
}

/// Every step keeps it: whatever the tasks do and in whatever order, the
/// sender hub never sees the batches of one chat interleaved.
pub proof fn lemma_step_keeps_inv(w: World, s: Step)
    requires
        w.inv(),
        w.enabled(s),
    ensures
        w.next(s).inv(),
        w.next(s).no_interleaving(),
{
    let n = w.next(s);
    let t = s.task() as int;
    assert(n.tasks.len() == w.tasks.len());
    assert forall|u: int| 0 <= u < w.tasks.len() implies (#[trigger] n.tasks[u]).gate
        == w.tasks[u].gate && n.tasks[u].batch == w.tasks[u].batch && (u != t ==> n.tasks[u]
        == w.tasks[u]) by {}
    assert(n.within_batches()) by {
        assert forall|u: int| 0 <= u < n.tasks.len() implies (#[trigger] n.tasks[u]).sent()
            <= n.tasks[u].batch by {
            assert(w.tasks[u].sent() <= w.tasks[u].batch);
        }
    }
    assert(n.exclusive()) by {
        assert forall|a: int, b: int|
            0 <= a < n.tasks.len() && 0 <= b < n.tasks.len() && a != b && (
            #[trigger] n.tasks[a]).phase is Holding && (#[trigger] n.tasks[b]).phase
                is Holding implies n.tasks[a].gate != n.tasks[b].gate by {
            if s is Acquire {
                if a == t {
                    assert(w.tasks[b].phase is Holding);
                } else if b == t {
                    assert(w.tasks[a].phase is Holding);
                } else {
                    assert(w.tasks[a].phase is Holding && w.tasks[b].phase is Holding);
                }
            } else {
                assert(w.tasks[a].phase is Holding && w.tasks[b].phase is Holding);
            }
        }
    }
    assert(n.log_in_range()) by {
        assert forall|i: int| 0 <= i < n.log.len() implies (#[trigger] n.log[i]).0
            < n.tasks.len() && n.log[i].1 < n.tasks[n.log[i].0 as int].sent() by {
            if i < w.log.len() {
                assert(n.log[i] == w.log[i]);
                let u = w.log[i].0 as int;
                assert(w.log[i].1 < w.tasks[u].sent());
                assert(w.tasks[u].sent() <= n.tasks[u].sent());
            }
        }
    }
    assert(n.holder_owns_tail()) by {
        assert forall|i: int, m: int|
            #![trigger n.log[i], n.log[m]]
            0 <= i < m < n.log.len() && !(n.tasks[n.log[i].0 as int].phase is Done) && n.gate_at(m)
                == n.gate_at(i) implies n.log[m].0 == n.log[i].0 by {
            assert(n.log[i] == w.log[i]);
            let u = w.log[i].0 as int;
            assert(w.log[i].1 < w.tasks[u].sent());
            assert(!(w.tasks[u].phase is Done));
            if m < w.log.len() {
                assert(n.log[m] == w.log[m]);
                assert(w.gate_at(m) == w.gate_at(i));
            } else {
                assert(n.log[m].0 == t);
                assert(w.tasks[u].phase is Holding);
                assert(w.tasks[t].phase is Holding);
            }
        }
    }
    assert(n.no_interleaving()) by {
        assert forall|i: int, m: int, j: int|
            #![trigger n.log[i], n.log[m], n.log[j]]
            0 <= i < m < j < n.log.len() && n.log[i].0 == n.log[j].0 && n.gate_at(m) == n.gate_at(
                i,
            ) implies n.log[m].0 == n.log[i].0 by {
            assert(n.log[i] == w.log[i]);
            assert(n.log[m] == w.log[m]);
            assert(w.gate_at(m) == w.gate_at(i));
            if j < w.log.len() {
                assert(n.log[j] == w.log[j]);
            } else {
                assert(n.log[j].0 == t);
                assert(!(w.tasks[t].phase is Done));
                assert(w.log[m].0 == w.log[i].0);
            }
        }
    }
}

/// The pipelines never wait for one another: the pipeline of a task can
/// end whatever the other tasks do and whichever gates are held.
pub proof fn lemma_pipelines_run_freely(w: World, t: nat)
    requires
        t < w.tasks.len(),
        w.tasks[t as int].phase is Computing,
    ensures
        w.enabled(Step::Compute(t)),
{
}

/// A task waits for its own gate only: it can take its gate as soon as no
/// task holds that gate, whoever holds the gates of other chats.
pub proof fn lemma_only_the_own_gate_blocks(w: World, t: nat)
    requires
        t < w.tasks.len(),
        w.tasks[t as int].phase is Waiting,
        forall|u: int|
            0 <= u < w.tasks.len() && (#[trigger] w.tasks[u]).phase is Holding ==> w.tasks[u].gate
                != w.tasks[t as int].gate,
    ensures
        w.enabled(Step::Acquire(t)),
{
}

/// While a task holds its gate, every other task of the same chat has
/// handed over nothing yet or its whole batch.
pub proof fn lemma_others_are_whole(w: World, holder: nat, other: nat)
    requires
        w.inv(),
        holder < w.tasks.len(),
        other < w.tasks.len(),
        holder != other,
        w.tasks[holder as int].gate == w.tasks[other as int].gate,
        w.tasks[holder as int].phase is Holding,
    ensures
        w.tasks[other as int].sent() == 0 || w.tasks[other as int].sent()
            == w.tasks[other as int].batch,
{
    assert(!(w.tasks[other as int].phase is Holding));
}

/// A task that holds its gate is never stuck: it can hand over its next
/// message, which is then the next that the sender hub sees, or, with the
/// whole batch handed over, release its gate.
pub proof fn lemma_holder_delivers_next(w: World, t: nat)
    requires
        w.inv(),
        t < w.tasks.len(),
        w.tasks[t as int].phase is Holding,
    ensures
        w.enabled(Step::Send(t)) || w.enabled(Step::Release(t)),
        w.enabled(Step::Send(t)) ==> w.next(Step::Send(t)).log == w.log.push(
            (t, w.tasks[t as int].sent()),
        ),
{
    assert(w.tasks[t as int].sent() <= w.tasks[t as int].batch);
}

} // verus!
