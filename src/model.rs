//! The task and context lists, and the day's schedule over them.
use vstd::prelude::*;
use crate::context::Context;
use crate::schedule::{build_schedule, day_plan};
use crate::task::Task;
use crate::text::{lower_of, same_name};
use crate::time::{Date, TimeOfDay, MAX_CE_DAY, MIN_CE_DAY};
use crate::timeblock::{blocks_view, TimeBlock};

verus! {

/// Whether `s` names `name`, without regard to case.
pub open spec fn names_match(s: Seq<char>, name: Seq<char>) -> bool {
    lower_of(s) == lower_of(name)
}

/// Whether some task of `tasks` is named `name`, without regard to case.
pub open spec fn has_task(tasks: Seq<Task>, name: Seq<char>) -> bool {
    exists|i: int| 0 <= i < tasks.len() && names_match(#[trigger] tasks[i].name@, name)
}

/// Whether some context of `contexts` is named `name`, without regard to case.
pub open spec fn has_context(contexts: Seq<Context>, name: Seq<char>) -> bool {
    exists|i: int| 0 <= i < contexts.len() && names_match(#[trigger] contexts[i].name@, name)
}

/// Relies on chrono's `Utc::now` and `Datelike::num_days_from_ce`: today's
/// date in UTC, a `NaiveDate` and so within the calendar's range.
#[verifier::external_body]
fn today() -> (r: Date)
    ensures
        MIN_CE_DAY <= r.days_from_ce <= MAX_CE_DAY,
{
    Date { days_from_ce: chrono::Datelike::num_days_from_ce(&chrono::Utc::now().date_naive()) }
}

/// The tasks and contexts of one user. Names are unique without regard to case.
pub struct PreemptApp {
    pub tasks: Vec<Task>,
    pub contexts: Vec<Context>,
}

impl PreemptApp {
    pub fn new() -> (r: PreemptApp)
        ensures
            r.tasks@.len() == 0,
            r.contexts@.len() == 0,
    {
        PreemptApp { tasks: Vec::new(), contexts: Vec::new() }
    }

    /// Adds `task`, unless a task of the same name is there already.
    pub fn add_task(&mut self, task: Task) -> (r: Result<(), &'static str>)
        ensures
            r is Ok <==> !has_task(old(self).tasks@, task.name@),
            r is Ok ==> final(self).tasks@ == old(self).tasks@.push(task),
            r is Err ==> r == Err::<(), &'static str>("Task already exists") && final(self).tasks@ == old(
                self,
            ).tasks@,
            final(self).contexts@ == old(self).contexts@,
    {
        if self.get_task(&task.name).is_none() {
            self.tasks.push(task);
            Ok(())
        } else {
            Err("Task already exists")
        }
    }

    /// The first task named `name`, without regard to case.
    pub fn get_task(&self, name: &String) -> (r: Option<&Task>)
        ensures
            r is None <==> !has_task(self.tasks@, name@),
            r matches Some(t) ==> exists|i: int|
                0 <= i < self.tasks@.len() && self.tasks@[i] == *t && names_match(t.name@, name@)
                && forall|j: int| 0 <= j < i ==> !names_match(#[trigger] self.tasks@[j].name@, name@),
    {
        let mut i: usize = 0;
        while i < self.tasks.len()
            invariant
                i <= self.tasks@.len(),
                forall|j: int| 0 <= j < i ==> !names_match(#[trigger] self.tasks@[j].name@, name@),
            decreases self.tasks@.len() - i,
        {
            if same_name(&self.tasks[i].name, name) {
                return Some(&self.tasks[i]);
            }
            i = i + 1;
        }
        None
    }

    /// Adds `context`, unless a context of the same name is there already.
    pub fn add_context(&mut self, context: Context) -> (r: Result<(), &'static str>)
        ensures
            r is Ok <==> !has_context(old(self).contexts@, context.name@),
            r is Ok ==> final(self).contexts@ == old(self).contexts@.push(context),
            r is Err ==> r == Err::<(), &'static str>("Context already exists") && final(self).contexts@ == old(
                self,
            ).contexts@,
            final(self).tasks@ == old(self).tasks@,
    {
        if self.get_context(&context.name).is_none() {
            self.contexts.push(context);
            Ok(())
        } else {
            Err("Context already exists")
        }
    }

    /// The first context named `name`, without regard to case.
    pub fn get_context(&self, name: &String) -> (r: Option<&Context>)
        ensures
            r is None <==> !has_context(self.contexts@, name@),
            r matches Some(c) ==> exists|i: int|
                0 <= i < self.contexts@.len() && self.contexts@[i] == *c && names_match(c.name@, name@)
                && forall|j: int| 0 <= j < i ==> !names_match(#[trigger] self.contexts@[j].name@, name@),
    {
        let mut i: usize = 0;
        while i < self.contexts.len()
            invariant
                i <= self.contexts@.len(),
                forall|j: int| 0 <= j < i ==> !names_match(#[trigger] self.contexts@[j].name@, name@),
            decreases self.contexts@.len() - i,
        {
            if same_name(&self.contexts[i].name, name) {
                return Some(&self.contexts[i]);
            }
            i = i + 1;
        }
        None
    }

    /// The schedule of the whole of `day`, from 00:00:00 to 23:59:59.
    pub fn build_schedule_on(&self, day: Date) -> (r: Vec<TimeBlock>)
        ensures
            blocks_view(r@) == day_plan(self.contexts@, self.tasks@, day),
    {
        let start = TimeOfDay { secs: 0 };
        let end = TimeOfDay { secs: 86399 };
        build_schedule(&self.contexts, &self.tasks, TimeBlock::new(start, end, day, day))
    }

    /// The schedule of today, in UTC.
    pub fn build_schedule(&self) -> (r: Vec<TimeBlock>)
        ensures
            exists|day: Date|
                day.weekday_index() is Some && blocks_view(r@) == day_plan(self.contexts@, self.tasks@, day),
    {
        self.build_schedule_on(today())
    }
}

} // verus!
