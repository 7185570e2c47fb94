//! Tasks: units of work with a remaining duration.
use vstd::prelude::*;
use crate::context::Context;
use crate::text::{lower_of, lowercase};

verus! {

/// Remaining duration given to a task created without one: 25 minutes.
pub const DEFAULT_DURATION_SECS: u64 = 1500;

/// A description of a thing to do.
///
/// `duration_secs` is the work that remains, in seconds; it never goes below zero.
/// `created` is the moment of creation, in seconds since the Unix epoch (UTC).
pub struct Task {
    pub name: String,
    pub description: String,
    pub priority: i32,
    pub done: bool,
    pub duration_secs: u64,
    pub context: Option<String>,
    pub created: i64,
}

impl Clone for Task {
    fn clone(&self) -> (r: Task)
        ensures
            r == *self,
    {
        Task {
            name: self.name.clone(),
            description: self.description.clone(),
            priority: self.priority,
            done: self.done,
            duration_secs: self.duration_secs,
            context: match &self.context {
                Some(c) => Some(c.clone()),
                None => None,
            },
            created: self.created,
        }
    }
}

/// Relies on chrono's `Utc::now`: the current time in seconds since the Unix epoch.
#[verifier::external_body]
fn now_timestamp() -> (r: i64) {
    chrono::Utc::now().timestamp()
}

impl Task {
    /// The task after `secs` seconds of work: its remaining duration less
    /// `secs`, or zero if it was shorter.
    pub open spec fn worked(self, secs: int) -> Task {
        Task {
            duration_secs: if self.duration_secs < secs { 0 } else { (self.duration_secs - secs) as u64 },
            ..self
        }
    }

    /// Whether the task is open and attached to the context named
    /// `context_name` (names are equal up to case).
    pub open spec fn belongs_to(self, context_name: Seq<char>) -> bool {
        &&& self.context matches Some(c)
        &&& !self.done
        &&& lower_of(self.context->Some_0@) == lower_of(context_name)
    }

    /// Whether a task is kept for a context, given the lower-case form of the
    /// task's context name (if any) and that of the context's name: it is open
    /// and the two are equal.
    pub fn open_in_folded_context(done: bool, context_lower: &Option<String>, key_lower: &String) -> (r: bool)
        ensures
            r == (!done && context_lower is Some && context_lower->Some_0@ == key_lower@),
    {
        match context_lower {
            Some(c) => !done && *c == *key_lower,
            None => false,
        }
    }

    /// A task with the default duration of 25 minutes.
    pub fn new(name: String, description: String, priority: i32, done: bool, context: Option<String>) -> (r: Task)
        ensures
            r.name == name,
            r.description == description,
            r.priority == priority,
            r.done == done,
            r.duration_secs == DEFAULT_DURATION_SECS,
            r.context == context,
    {
        Task {
            name,
            description,
            priority,
            done,
            duration_secs: DEFAULT_DURATION_SECS,
            context,
            created: now_timestamp(),
        }
    }

    /// A task with a remaining duration of `duration_secs` seconds.
    pub fn new_with_duration(
        name: String,
        description: String,
        priority: i32,
        done: bool,
        duration_secs: u64,
        context: Option<String>,
    ) -> (r: Task)
        ensures
            r.name == name,
            r.description == description,
            r.priority == priority,
            r.done == done,
            r.duration_secs == duration_secs,
            r.context == context,
    {
        Task { name, description, priority, done, duration_secs, context, created: now_timestamp() }
    }

    /// The tasks of `tasks`, in their order, that are open and attached to `context`.
    pub fn filter_context_tasks(context: &Context, tasks: Vec<Task>) -> (r: Vec<Task>)
        ensures
            r@ == tasks@.filter(|t: Task| t.belongs_to(context.name@)),
    {
        let mut filtered: Vec<Task> = Vec::new();
        let key = lowercase(context.name.as_str());
        let mut i: usize = 0;
        while i < tasks.len()
            invariant
                i <= tasks@.len(),
                key@ == lower_of(context.name@),
                filtered@ == tasks@.subrange(0, i as int).filter(|t: Task| t.belongs_to(context.name@)),
            decreases tasks@.len() - i,
        {
            let task = &tasks[i];
            let folded = match &task.context {
                Some(c) => Some(lowercase(c.as_str())),
                None => None,
            };
            let keep = Task::open_in_folded_context(task.done, &folded, &key);
            proof {
                let f = |t: Task| t.belongs_to(context.name@);
                assert(tasks@.subrange(0, i + 1) == tasks@.subrange(0, i as int).push(tasks@[i as int]));
                reveal(Seq::filter);
                assert(tasks@.subrange(0, i + 1).drop_last() == tasks@.subrange(0, i as int));
            }
            if keep {
                filtered.push(task.clone());
            }
            i = i + 1;
        }
        assert(tasks@.subrange(0, tasks@.len() as int) == tasks@);
        filtered
    }

    /// Applies `secs` seconds of work: the remaining duration drops by `secs`,
    /// and to zero where less than that remained.
    pub fn do_work(&mut self, secs: u64)
        ensures
            *final(self) == old(self).worked(secs as int),
    {
        if self.duration_secs < secs {
            self.duration_secs = 0;
        } else {
            self.duration_secs = self.duration_secs - secs;
        }
    }

    /// Whether any work remains.
    pub fn has_work_remaining(&self) -> (r: bool)
        ensures
            r == (self.duration_secs > 0),
    {
        self.duration_secs > 0
    }
}

} // verus!
