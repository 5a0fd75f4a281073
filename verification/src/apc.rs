//! The task dispatch contract: how work is handed to whatever runs it.
//!
//! The driver knows one operation, [`AsyncProcedureCall::submit`]. It takes
//! an input and the client that goes with it, and returns at once; the
//! procedure for that input runs later, on a thread pool, on a worker, or
//! between two frames on the caller's own thread. What the procedure finds
//! out comes back as messages, never as a return value, and a procedure
//! that was submitted cannot be called back.
//!
//! [`TaskQueue`] is the substrate for an environment without threads: it
//! keeps what was submitted, and the frame loop takes one task at a time
//! from it and runs it. [`SchedulerAsyncProcedureCall`] hands each task at
//! once to a function of the platform: one that sends it to a thread pool,
//! or spawns it on an executor.

use crate::transfer::{Input, InputView};
use std::collections::VecDeque;
use vstd::prelude::*;

verus! {

/// An input together with what its procedure needs to run.
#[derive(Debug)]
pub struct Task<C> {
    pub input: Input,
    pub client: C,
}

/// What a [`Task`] holds: what its input says, and its client.
pub struct Submission<C> {
    pub input: InputView,
    pub client: C,
}

impl<C> View for Task<C> {
    type V = Submission<C>;

    open spec fn view(&self) -> Submission<C> {
        Submission { input: self.input@, client: self.client }
    }
}

/// What each of `tasks` holds.
pub open spec fn task_views<C>(tasks: Seq<Task<C>>) -> Seq<Submission<C>> {
    tasks.map_values(|task: Task<C>| task@)
}

/// An execution substrate. `C` is what each procedure needs besides its
/// input, such as the client for the data source.
pub trait AsyncProcedureCall<C>: Sized {
    /// Everything accepted so far, oldest first.
    spec fn submitted(&self) -> Seq<Submission<C>>;

    /// Whether `after` is `before` but for what was submitted in between:
    /// nothing left the substrate, and nothing else about it changed.
    spec fn only_submitted(before: Self, after: Self) -> bool;

    /// A substrate to which nothing happened differs from itself in
    /// nothing.
    proof fn lemma_nothing_submitted(substrate: Self)
        ensures
            Self::only_submitted(substrate, substrate),
    ;

    /// Submissions after submissions are submissions.
    proof fn lemma_submitted_in_turn(first: Self, second: Self, third: Self)
        requires
            Self::only_submitted(first, second),
            Self::only_submitted(second, third),
        ensures
            Self::only_submitted(first, third),
    ;

    /// Accepts `input` with `client` for execution and returns without
    /// waiting for it.
    fn submit(&mut self, input: Input, client: C)
        ensures
            final(self).submitted() == old(self).submitted().push(
                Submission { input: input@, client },
            ),
            Self::only_submitted(*old(self), *final(self)),
    ;
}

/// A substrate that runs nothing by itself: it queues the tasks, first in,
/// first out, until someone takes them.
pub struct TaskQueue<C> {
    waiting: VecDeque<Task<C>>,
    accepted: Ghost<Seq<Submission<C>>>,
}

impl<C> TaskQueue<C> {
    #[verifier::type_invariant]
    spec fn waiting_ends_accepted(&self) -> bool {
        &&& self.waiting@.len() <= self.accepted@.len()
        &&& task_views(self.waiting@) == self.accepted@.skip(
            self.accepted@.len() - self.waiting@.len(),
        )
    }

    /// The tasks that wait, the next one first.
    pub closed spec fn waiting(&self) -> Seq<Submission<C>> {
        task_views(self.waiting@)
    }

    /// Number of tasks that were taken from the queue.
    pub closed spec fn taken(&self) -> nat {
        (self.accepted@.len() - self.waiting@.len()) as nat
    }

    /// A queue to which nothing was submitted yet.
    pub fn new() -> (queue: Self)
        ensures
            queue.submitted() == Seq::<Submission<C>>::empty(),
            queue.waiting() == Seq::<Submission<C>>::empty(),
            queue.taken() == 0,
    {
        let waiting: VecDeque<Task<C>> = VecDeque::new();
        assert(task_views(waiting@) =~= Seq::<Submission<C>>::empty());
        assert(Seq::<Submission<C>>::empty().skip(0) =~= Seq::<Submission<C>>::empty());
        TaskQueue { waiting, accepted: Ghost(Seq::empty()) }
    }

    /// Number of tasks that wait. What waits is what was submitted and not
    /// taken yet, in the order of submission.
    pub fn len(&self) -> (n: usize)
        ensures
            n == self.waiting().len(),
            self.taken() + self.waiting().len() == self.submitted().len(),
            self.waiting() == self.submitted().skip(self.taken() as int),
    {
        proof {
            use_type_invariant(self);
        }
        self.waiting.len()
    }

    /// Takes the task that has waited longest, if any waits.
    pub fn next_task(&mut self) -> (task: Option<Task<C>>)
        ensures
            final(self).submitted() == old(self).submitted(),
            match task {
                Some(task) => {
                    &&& old(self).waiting().len() > 0
                    &&& task@ == old(self).waiting()[0]
                    &&& final(self).waiting() == old(self).waiting().skip(1)
                    &&& final(self).taken() == old(self).taken() + 1
                },
                None => {
                    &&& old(self).waiting().len() == 0
                    &&& final(self).waiting() == old(self).waiting()
                    &&& final(self).taken() == old(self).taken()
                },
            },
    {
        proof {
            use_type_invariant(&*self);
        }
        let mut waiting: VecDeque<Task<C>> = VecDeque::new();
        let ghost accepted = self.accepted@;
        if self.waiting.len() == 0 {
            return None;
        }
        assert(task_views(waiting@) =~= Seq::<Submission<C>>::empty());
        assert(accepted.skip(accepted.len() as int) =~= Seq::<Submission<C>>::empty());
        core::mem::swap(&mut self.waiting, &mut waiting);
        let ghost before = waiting@;
        let task = waiting.pop_front();
        assert(task_views(waiting@) =~= task_views(before).skip(1));
        assert(accepted.skip(accepted.len() - before.len()).skip(1) =~= accepted.skip(
            accepted.len() - before.len() + 1,
        ));
        core::mem::swap(&mut self.waiting, &mut waiting);
        task
    }
}

impl<C> AsyncProcedureCall<C> for TaskQueue<C> {
    closed spec fn submitted(&self) -> Seq<Submission<C>> {
        self.accepted@
    }

    /// What was taken from the queue before is what was taken after.
    open spec fn only_submitted(before: Self, after: Self) -> bool {
        after.taken() == before.taken()
    }

    proof fn lemma_nothing_submitted(substrate: Self) {
    }

    proof fn lemma_submitted_in_turn(first: Self, second: Self, third: Self) {
    }

    fn submit(&mut self, input: Input, client: C)
        ensures
            final(self).waiting() == old(self).waiting().push(
                Submission { input: input@, client },
            ),
    {
        proof {
            use_type_invariant(&*self);
        }
        let ghost accepted = self.accepted@;
        let ghost submission = Submission { input: input@, client };
        let ghost pushed = accepted.push(submission);
        let mut waiting: VecDeque<Task<C>> = VecDeque::new();
        assert(task_views(waiting@) =~= Seq::<Submission<C>>::empty());
        assert(accepted.skip(accepted.len() as int) =~= Seq::<Submission<C>>::empty());
        assert(pushed.skip(pushed.len() as int) =~= Seq::<Submission<C>>::empty());
        core::mem::swap(&mut self.waiting, &mut waiting);
        self.accepted = Ghost(pushed);
        let ghost before = waiting@;
        waiting.push_back(Task { input, client });
        assert(task_views(waiting@) =~= task_views(before).push(submission));
        assert(accepted.skip(accepted.len() - before.len()).push(submission) =~= pushed.skip(
            pushed.len() - before.len() - 1,
        ));
        core::mem::swap(&mut self.waiting, &mut waiting);
    }
}

/// A substrate that keeps nothing: it hands every task at once to
/// `schedule`, a function of the platform that sees to it that the task
/// runs.
pub struct SchedulerAsyncProcedureCall<C, F: Fn(Task<C>)> {
    schedule: F,
    accepted: Ghost<Seq<Submission<C>>>,
}

impl<C, F: Fn(Task<C>)> SchedulerAsyncProcedureCall<C, F> {
    #[verifier::type_invariant]
    spec fn takes_every_task(&self) -> bool {
        forall|task: Task<C>| #[trigger] call_requires(self.schedule, (task,))
    }

    /// The function that is given the tasks.
    pub closed spec fn schedule_view(&self) -> F {
        self.schedule
    }

    /// A substrate on top of `schedule`, which must take any task, and to
    /// which nothing was submitted yet.
    pub fn new(schedule: F) -> (apc: Self)
        requires
            forall|task: Task<C>| #[trigger] call_requires(schedule, (task,)),
        ensures
            apc.submitted() == Seq::<Submission<C>>::empty(),
            apc.schedule_view() == schedule,
    {
        SchedulerAsyncProcedureCall { schedule, accepted: Ghost(Seq::empty()) }
    }

    /// Gives the function back.
    pub fn into_schedule(self) -> (schedule: F)
        ensures
            schedule == self.schedule_view(),
    {
        self.schedule
    }
}

impl<C, F: Fn(Task<C>)> AsyncProcedureCall<C> for SchedulerAsyncProcedureCall<C, F> {
    closed spec fn submitted(&self) -> Seq<Submission<C>> {
        self.accepted@
    }

    /// The function that is given the tasks is the same.
    open spec fn only_submitted(before: Self, after: Self) -> bool {
        after.schedule_view() == before.schedule_view()
    }

    proof fn lemma_nothing_submitted(substrate: Self) {
    }

    proof fn lemma_submitted_in_turn(first: Self, second: Self, third: Self) {
    }

    /// The task made of `input` and `client` is what `schedule` was called
    /// with.
    fn submit(&mut self, input: Input, client: C)
        ensures
            call_ensures(old(self).schedule_view(), (Task { input, client },), ()),
    {
        proof {
            use_type_invariant(&*self);
        }
        let task = Task { input, client };
        self.accepted = Ghost(self.accepted@.push(task@));
        (self.schedule)(task);
    }
}

} // verus!
