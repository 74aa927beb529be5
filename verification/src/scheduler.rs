//! The cooperative batch scheduler: a round-robin run queue of pipeline
//! tasks, each executed once per turn.

use vstd::prelude::*;

verus! {

/// Errors related to scheduling.
#[derive(Debug, PartialEq, Eq, Structural)]
pub enum SchedulerError {
    /// No scheduler is running on the named core.
    NoRunningSchedulerOnCore(i32),
}

/// A task the scheduler can run: one call processes one batch and reports
/// how many packets it handled.
pub trait Executable {
    /// Process one batch; the result is the number of packets handled.
    fn execute(&mut self) -> usize;

    /// Indices of tasks this one depends on; unused by the round-robin
    /// scheduler.
    fn dependencies(&mut self) -> Vec<usize>;
}

/// A task on the run queue, with its accounting.
pub struct Runnable<T: Executable> {
    pub task: T,
    pub cycles: u64,
    pub last_run: u64,
}

impl<T: Executable> Runnable<T> {
    /// Wrap a task with zeroed counters.
    pub fn from_task(task: T) -> (r: Runnable<T>)
        ensures
            r.cycles == 0,
            r.last_run == 0,
    {
        Runnable { task, cycles: 0, last_run: 0 }
    }

    /// Wrap an already-boxed task with zeroed counters.
    pub fn from_boxed_task(task: Box<T>) -> (r: Runnable<T>)
        ensures
            r.cycles == 0,
            r.last_run == 0,
    {
        Runnable { task: *task, cycles: 0, last_run: 0 }
    }
}

/// Messages that drive a scheduler: add a task, start executing, or shut
/// down.
pub enum SchedulerCommand<T: Executable> {
    /// Put a task on the run queue.
    Add(Box<T>),
    /// Start the execution loop.
    Execute,
    /// Stop executing.
    Shutdown,
}

/// A round-robin scheduler over a single run queue.
pub struct StandaloneScheduler<T: Executable> {
    pub run_q: Vec<Runnable<T>>,
    pub next_task: usize,
    pub looping: bool,
    pub npkts: u64,
    pub tol_pkts: u64,
}

impl<T: Executable> StandaloneScheduler<T> {
    /// The cursor always points at a task while the queue is non-empty.
    pub open spec fn wf(&self) -> bool {
        self.next_task < self.run_q@.len() || (self.next_task == 0 && self.run_q@.len() == 0)
    }

    /// An empty scheduler with a packet budget.
    pub fn new(tol_pkts: u64) -> (r: StandaloneScheduler<T>)
        ensures
            r.wf(),
            r.run_q@.len() == 0,
            r.next_task == 0,
            !r.looping,
            r.npkts == 0,
            r.tol_pkts == tol_pkts,
    {
        StandaloneScheduler { run_q: Vec::new(), next_task: 0, looping: false, npkts: 0, tol_pkts }
    }

    /// Put a task at the end of the run queue; the result is the new queue
    /// length.
    pub fn add_task(&mut self, task: T) -> (r: Result<usize, SchedulerError>)
        requires
            old(self).wf(),
        ensures
            final(self).wf(),
            final(self).run_q@.len() == old(self).run_q@.len() + 1,
            final(self).next_task == old(self).next_task,
            r matches Ok(n) && n == final(self).run_q@.len(),
    {
        self.run_q.push(Runnable::from_task(task));
        Ok(self.run_q.len())
    }

    /// Run the task under the cursor and advance the cursor round-robin,
    /// wrapping at the end of the queue.
    pub fn execute_internal(&mut self)
        requires
            old(self).wf(),
            old(self).run_q@.len() > 0,
        ensures
            final(self).wf(),
            final(self).run_q@.len() == old(self).run_q@.len(),
            final(self).next_task == if old(self).next_task + 1 == old(self).run_q@.len() {
                0
            } else {
                (old(self).next_task + 1) as int
            },
            final(self).npkts >= old(self).npkts,
            final(self).looping == old(self).looping,
            final(self).tol_pkts == old(self).tol_pkts,
    {
        let idx = self.next_task;
        let runnable = &mut self.run_q[idx];
        let processed = runnable.task.execute();
        let processed64 = processed as u64;
        if self.npkts <= u64::MAX - processed64 {
            self.npkts = self.npkts + processed64;
        }
        let len = self.run_q.len();
        let next = self.next_task + 1;
        if next == len {
            self.next_task = 0;
        } else {
            self.next_task = next;
        }
    }

    /// Hand the scheduler to an installer, which typically adds its
    /// pipeline tasks to the run queue.
    pub fn run<F: FnOnce(StandaloneScheduler<T>) -> StandaloneScheduler<T>>(self, f: F) -> (r:
        StandaloneScheduler<T>)
        requires
            call_requires(f, (self,)),
        ensures
            call_ensures(f, (self,), r),
    {
        f(self)
    }

    /// Run tasks round-robin until the packet budget is met, taking at
    /// most one task turn per unit of budget (the loop is bounded by the
    /// budget, never unbounded).  With an empty run queue nothing happens.
    pub fn execute_loop(&mut self)
        requires
            old(self).wf(),
        ensures
            final(self).wf(),
            final(self).run_q@.len() == old(self).run_q@.len(),
            final(self).looping,
            final(self).npkts >= old(self).npkts,
            final(self).tol_pkts == old(self).tol_pkts,
            old(self).run_q@.len() == 0 ==> final(self).npkts == old(self).npkts && final(self).next_task == old(self).next_task && final(self).run_q == old(self).run_q,
    {
        self.looping = true;
        if self.run_q.len() != 0 {
            let mut turns: u64 = self.tol_pkts;
            while turns > 0 && self.looping && self.npkts < self.tol_pkts
                invariant
                    self.wf(),
                    self.run_q@.len() == old(self).run_q@.len(),
                    self.run_q@.len() > 0,
                    self.looping,
                    self.npkts >= old(self).npkts,
                    self.tol_pkts == old(self).tol_pkts,
                decreases turns,
            {
                self.execute_internal();
                turns = turns - 1;
            }
        }
    }
}

} // verus!
