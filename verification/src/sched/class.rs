//! The simplest scheduling class, round robin over a FIFO queue of tasks, and the
//! scheduling decisions built on it. Tasks are named by handles, 0 standing for none.
use vstd::prelude::*;

verus! {

/// A FIFO queue of runnable tasks.
pub struct RrQueue {
    tasks: Vec<usize>,
}

impl View for RrQueue {
    type V = Seq<usize>;

    closed spec fn view(&self) -> Seq<usize> {
        self.tasks@
    }
}

impl RrQueue {
    /// An empty queue.
    pub fn new() -> (r: Self)
        ensures
            r@ == Seq::<usize>::empty(),
    {
        RrQueue { tasks: Vec::new() }
    }

    /// Number of queued tasks.
    pub fn count(&self) -> (r: usize)
        ensures
            r == self@.len(),
    {
        self.tasks.len()
    }

    /// Queue `task` at the tail.
    pub fn enqueue(&mut self, task: usize)
        ensures
            final(self)@ == old(self)@.push(task),
    {
        self.tasks.push(task);
    }

    /// The task at the head (0 when empty).
    pub fn peek(&self) -> (r: usize)
        ensures
            r == if self@.len() > 0 {
                self@[0]
            } else {
                0
            },
    {
        if self.tasks.len() > 0 {
            self.tasks[0]
        } else {
            0
        }
    }

    /// Take out the first occurrence of `task`; whether there was one.
    pub fn remove(&mut self, task: usize) -> (r: bool)
        ensures
            r == old(self)@.contains(task),
            r ==> exists|i: int|
                0 <= i < old(self)@.len() && old(self)@[i] == task && (forall|j: int| 0 <= j < i ==> old(self)@[j] != task)
                    && final(self)@ == old(self)@.remove(i),
            !r ==> final(self)@ == old(self)@,
    {
        let mut i: usize = 0;
        while i < self.tasks.len()
            invariant
                i <= self.tasks@.len(),
                self.tasks@ == old(self)@,
                forall|j: int| 0 <= j < i ==> self.tasks@[j] != task,
            decreases self.tasks@.len() - i,
        {
            if self.tasks[i] == task {
                self.tasks.remove(i);
                return true;
            }
            i = i + 1;
        }
        false
    }
}

/// A scheduling class: how tasks enter and leave a queue, which runs next, and what
/// a timer tick does to the running one.
pub trait SchedClass {
    fn enqueue(&self, rq: &mut RrQueue, task: usize);

    fn dequeue(&self, rq: &mut RrQueue, task: usize);

    fn pick_next_task(&self, rq: &mut RrQueue) -> usize;

    fn task_tick(&self, rq: &mut RrQueue, task: usize);
}

/// Round robin: tasks run in arrival order, and a task whose quantum ends goes to
/// the tail when others wait.
pub struct BasicRrClass;

impl SchedClass for BasicRrClass {
    fn enqueue(&self, rq: &mut RrQueue, task: usize)
        ensures
            final(rq)@ == old(rq)@.push(task),
    {
        rq.enqueue(task);
    }

    fn dequeue(&self, rq: &mut RrQueue, task: usize)
        ensures
            old(rq)@.contains(task) ==> exists|i: int|
                0 <= i < old(rq)@.len() && old(rq)@[i] == task && (forall|j: int| 0 <= j < i ==> old(rq)@[j] != task)
                    && final(rq)@ == old(rq)@.remove(i),
            !old(rq)@.contains(task) ==> final(rq)@ == old(rq)@,
    {
        let _ = rq.remove(task);
    }

    fn pick_next_task(&self, rq: &mut RrQueue) -> (r: usize)
        ensures
            r == if old(rq)@.len() > 0 {
                old(rq)@[0]
            } else {
                0
            },
            final(rq)@ == old(rq)@,
    {
        rq.peek()
    }

    fn task_tick(&self, rq: &mut RrQueue, task: usize)
        ensures
            task == 0 || old(rq)@.len() <= 1 ==> final(rq)@ == old(rq)@,
            task != 0 && old(rq)@.len() > 1 && !old(rq)@.contains(task) ==> final(rq)@ == old(rq)@.push(task),
            task != 0 && old(rq)@.len() > 1 && old(rq)@.contains(task) ==> exists|i: int|
                0 <= i < old(rq)@.len() && old(rq)@[i] == task && final(rq)@ == old(rq)@.remove(i).push(task),
    {
        round_robin_tick(rq, task);
    }
}

/// End `task`'s quantum: when it exists and others wait, it moves to the tail.
pub fn round_robin_tick(rq: &mut RrQueue, task: usize)
    ensures
        task == 0 || old(rq)@.len() <= 1 ==> final(rq)@ == old(rq)@,
        task != 0 && old(rq)@.len() > 1 && !old(rq)@.contains(task) ==> final(rq)@ == old(rq)@.push(task),
        task != 0 && old(rq)@.len() > 1 && old(rq)@.contains(task) ==> exists|i: int|
            0 <= i < old(rq)@.len() && old(rq)@[i] == task && final(rq)@ == old(rq)@.remove(i).push(task),
{
    if task != 0 && rq.count() > 1 {
        let _ = rq.remove(task);
        rq.enqueue(task);
    }
}

/// The task to switch to from `prev`: the queue's head when there is one and it is
/// another task.
pub fn schedule(rq: &RrQueue, prev: usize) -> (r: Option<usize>)
    ensures
        r == if rq@.len() > 0 && rq@[0] != prev && rq@[0] != 0 {
            Some(rq@[0])
        } else {
            None::<usize>
        },
{
    if rq.count() == 0 {
        return None;
    }
    let next = rq.peek();
    if prev != next && next != 0 {
        Some(next)
    } else {
        None
    }
}

/// A timer tick for the running task `curr` under round robin.
pub fn scheduler_tick(rq: &mut RrQueue, curr: usize)
    ensures
        curr == 0 || old(rq)@.len() <= 1 ==> final(rq)@ == old(rq)@,
        curr != 0 && old(rq)@.len() > 1 && !old(rq)@.contains(curr) ==> final(rq)@ == old(rq)@.push(curr),
        curr != 0 && old(rq)@.len() > 1 && old(rq)@.contains(curr) ==> exists|i: int|
            0 <= i < old(rq)@.len() && old(rq)@[i] == curr && final(rq)@ == old(rq)@.remove(i).push(curr),
{
    if curr != 0 {
        round_robin_tick(rq, curr);
    }
}

} // verus!
