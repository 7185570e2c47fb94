//! Multilevel-queue scheduling of tasks into pomodoro slices and rests.
use vstd::prelude::*;
use std::collections::VecDeque;
use crate::context::Context;
use crate::task::Task;
use crate::time::{Date, TimeOfDay};
use crate::timeblock::{blocks_view, BlockView, TimeBlock};

verus! {

/// Length of one work slice: 25 minutes.
pub const POMODORO_SECS: u64 = 1500;

/// Length of a short rest: 5 minutes.
pub const SHORT_REST_SECS: u64 = 300;

/// Length of a long rest, after every fourth step: 20 minutes.
pub const LONG_REST_SECS: u64 = 1200;

/// A low-priority slice is forced in after this many high or medium ones.
pub const FORCED_LOW_PERIOD: u64 = 4;

/// One of the three levels of the multilevel queue.
#[derive(Clone, Copy, Debug, PartialEq, Eq, Structural)]
pub enum PriorityClass {
    High,
    Medium,
    Low,
}

/// The class of a numeric priority: 10 and above is high, 3 to 6 is medium,
/// every other value is low.
pub open spec fn class_of(priority: int) -> PriorityClass {
    if priority >= 10 {
        PriorityClass::High
    } else if 3 <= priority <= 6 {
        PriorityClass::Medium
    } else {
        PriorityClass::Low
    }
}

/// The class of a task's priority.
pub fn get_task_priority(task: &Task) -> (r: PriorityClass)
    ensures
        r == class_of(task.priority as int),
{
    if task.priority >= 10 {
        PriorityClass::High
    } else if task.priority <= 6 && task.priority >= 3 {
        PriorityClass::Medium
    } else {
        PriorityClass::Low
    }
}

/// The queue of one class: the tasks of that class, in reverse order, so that
/// the first of them stands at the back.
pub open spec fn class_queue(tasks: Seq<Task>, class: PriorityClass) -> Seq<Task>
    decreases tasks.len(),
{
    if tasks.len() == 0 {
        Seq::empty()
    } else {
        let t = tasks.last();
        let rest = class_queue(tasks.drop_last(), class);
        if class_of(t.priority as int) == class {
            seq![t] + rest
        } else {
            rest
        }
    }
}

/// A class queue is the tasks of the class, reversed.
pub proof fn lemma_class_queue_reversed(tasks: Seq<Task>, class: PriorityClass)
    ensures
        class_queue(tasks, class) == tasks.filter(|t: Task| class_of(t.priority as int) == class).reverse(),
    decreases tasks.len(),
{
    let f = |t: Task| class_of(t.priority as int) == class;
    if tasks.len() > 0 {
        let d = tasks.drop_last();
        lemma_class_queue_reversed(d, class);
        reveal(Seq::filter);
        let fd = d.filter(f);
        if f(tasks.last()) {
            assert(tasks.filter(f) == fd.push(tasks.last()));
            assert(fd.push(tasks.last()).reverse() =~= seq![tasks.last()] + fd.reverse());
        } else {
            assert(tasks.filter(f) == fd);
        }
    } else {
        assert(tasks.filter(f) =~= Seq::<Task>::empty());
    }
}

/// Builds the queue of `class` from `tasks`: the tasks of that class, in
/// reverse order (see `class_queue`).
pub fn get_priority_queue(tasks: &Vec<Task>, class: PriorityClass) -> (r: VecDeque<Task>)
    ensures
        r@ == class_queue(tasks@, class),
        r@ == tasks@.filter(|t: Task| class_of(t.priority as int) == class).reverse(),
{
    let mut queue: VecDeque<Task> = VecDeque::new();
    let mut i: usize = 0;
    while i < tasks.len()
        invariant
            i <= tasks@.len(),
            queue@ == class_queue(tasks@.subrange(0, i as int), class),
        decreases tasks@.len() - i,
    {
        let task = &tasks[i];
        proof {
            let next = tasks@.subrange(0, i + 1);
            assert(next.drop_last() == tasks@.subrange(0, i as int));
            assert(next.last() == tasks@[i as int]);
        }
        if get_task_priority(task) == class {
            queue.push_front(task.clone());
        }
        i = i + 1;
    }
    assert(tasks@.subrange(0, tasks@.len() as int) == tasks@);
    proof {
        lemma_class_queue_reversed(tasks@, class);
    }
    queue
}

/// The tasks with work remaining, in order.
pub open spec fn with_work(tasks: Seq<Task>) -> Seq<Task> {
    tasks.filter(|t: Task| t.duration_secs > 0)
}

/// Keeps the tasks with work remaining, in order.
fn tasks_with_work(tasks: &Vec<Task>) -> (r: Vec<Task>)
    ensures
        r@ == with_work(tasks@),
{
    let mut out: Vec<Task> = Vec::new();
    let mut i: usize = 0;
    while i < tasks.len()
        invariant
            i <= tasks@.len(),
            out@ == with_work(tasks@.subrange(0, i as int)),
        decreases tasks@.len() - i,
    {
        proof {
            assert(tasks@.subrange(0, i + 1) == tasks@.subrange(0, i as int).push(tasks@[i as int]));
            reveal(Seq::filter);
            assert(tasks@.subrange(0, i + 1).drop_last() == tasks@.subrange(0, i as int));
        }
        if tasks[i].duration_secs > 0 {
            out.push(tasks[i].clone());
        }
        i = i + 1;
    }
    assert(tasks@.subrange(0, tasks@.len() as int) == tasks@);
    out
}

/// The label of a work slice: "Task - " and the task's name.
pub open spec fn work_label(name: Seq<char>) -> Seq<char> {
    seq!['T', 'a', 's', 'k', ' ', '-', ' '] + name
}

/// The label of a rest: "Break (20 minutes)" for a long one, else "Break (5 minutes)".
pub open spec fn rest_label(secs: int) -> Seq<char> {
    if secs == LONG_REST_SECS {
        seq!['B', 'r', 'e', 'a', 'k', ' ', '(', '2', '0', ' ', 'm', 'i', 'n', 'u', 't', 'e', 's', ')']
    } else {
        seq!['B', 'r', 'e', 'a', 'k', ' ', '(', '5', ' ', 'm', 'i', 'n', 'u', 't', 'e', 's', ')']
    }
}

/// The time of day of a scheduler clock, which counts seconds from the
/// midnight that starts the scheduled day and does not wrap.
pub open spec fn clock_time(clock: int) -> TimeOfDay {
    TimeOfDay { secs: (clock % 86400) as u32 }
}

/// The work slice of the task `name` that starts at `clock` on `date`.
pub open spec fn work_block(name: Seq<char>, clock: int, date: Date) -> BlockView {
    BlockView {
        name: Some(work_label(name)),
        start_time: clock_time(clock),
        end_time: clock_time(clock + POMODORO_SECS),
        start_date: date,
        end_date: date,
    }
}

/// The rest of `secs` seconds that starts at `clock` on `date`.
pub open spec fn rest_block(secs: int, clock: int, date: Date) -> BlockView {
    BlockView {
        name: Some(rest_label(secs)),
        start_time: clock_time(clock),
        end_time: clock_time(clock + secs),
        start_date: date,
        end_date: date,
    }
}

/// The queue after one slice is taken from it: the back task receives a
/// slice of work and, where work remains, goes to the front. An empty queue
/// stays as it is.
pub open spec fn sliced_queue(queue: Seq<Task>) -> Seq<Task> {
    if queue.len() == 0 {
        queue
    } else {
        let t = queue.last().worked(POMODORO_SECS as int);
        if t.duration_secs > 0 {
            seq![t] + queue.drop_last()
        } else {
            queue.drop_last()
        }
    }
}

/// The blocks that one slice from `queue` emits: the back task's work slice,
/// or nothing for an empty queue.
pub open spec fn slice_blocks(queue: Seq<Task>, clock: int, date: Date) -> Seq<BlockView> {
    if queue.len() == 0 {
        Seq::empty()
    } else {
        seq![work_block(queue.last().name@, clock, date)]
    }
}

/// The state of the scheduler of one window.
pub ghost struct SchedState {
    pub high: Seq<Task>,
    pub medium: Seq<Task>,
    pub low: Seq<Task>,
    /// Seconds since the midnight that starts the day.
    pub clock: int,
    /// High or medium slices so far.
    pub high_med_count: int,
    /// Whether the last step forced a low-priority slice.
    pub forced_low: bool,
    /// Steps so far, the last one included.
    pub steps: int,
    pub out: Seq<BlockView>,
    pub finished: bool,
}

/// The state before the first step on `tasks`, with the clock at `start`.
/// Tasks with no work remaining stay out of the queues, and so get no slice.
pub open spec fn initial_state(tasks: Seq<Task>, start: int) -> SchedState {
    SchedState {
        high: class_queue(with_work(tasks), PriorityClass::High),
        medium: class_queue(with_work(tasks), PriorityClass::Medium),
        low: class_queue(with_work(tasks), PriorityClass::Low),
        clock: start,
        high_med_count: 0,
        forced_low: false,
        steps: 0,
        out: Seq::empty(),
        finished: false,
    }
}

/// Whether a low-priority slice is due: the low queue holds work, a positive
/// multiple of four high or medium slices has run, and the last step forced
/// none.
pub open spec fn forced_low_due(s: SchedState) -> bool {
    &&& s.low.len() > 0
    &&& s.high_med_count >= 1
    &&& s.high_med_count % (FORCED_LOW_PERIOD as int) == 0
    &&& !s.forced_low
}

/// The first half of a step: one slice, or the end of the run where every
/// queue is empty. The clock advances by a slice in any case but the last.
pub open spec fn allocation(s: SchedState, date: Date) -> SchedState {
    if s.high.len() > 0 || s.medium.len() > 0 {
        if forced_low_due(s) {
            SchedState {
                low: sliced_queue(s.low),
                out: s.out + slice_blocks(s.low, s.clock, date),
                forced_low: true,
                clock: s.clock + POMODORO_SECS,
                ..s
            }
        } else if s.high.len() > 0 {
            SchedState {
                high: sliced_queue(s.high),
                out: s.out + slice_blocks(s.high, s.clock, date),
                high_med_count: s.high_med_count + 1,
                forced_low: false,
                clock: s.clock + POMODORO_SECS,
                ..s
            }
        } else {
            SchedState {
                medium: sliced_queue(s.medium),
                out: s.out + slice_blocks(s.medium, s.clock, date),
                high_med_count: s.high_med_count + 1,
                forced_low: false,
                clock: s.clock + POMODORO_SECS,
                ..s
            }
        }
    } else if s.low.len() > 0 {
        SchedState {
            low: sliced_queue(s.low),
            out: s.out + slice_blocks(s.low, s.clock, date),
            clock: s.clock + POMODORO_SECS,
            ..s
        }
    } else {
        SchedState { finished: true, ..s }
    }
}

/// The length of the rest after step number `steps`: long after every fourth.
pub open spec fn rest_secs(steps: int) -> int {
    if steps % 4 == 0 {
        LONG_REST_SECS as int
    } else {
        SHORT_REST_SECS as int
    }
}

/// One step of the scheduler of a window that ends at `end`: a slice, then a
/// stop where the clock has reached `end`, else a rest.
pub open spec fn step(s: SchedState, end: int, date: Date) -> SchedState {
    let a = allocation(s, date);
    let steps = s.steps + 1;
    if a.clock >= end {
        SchedState { steps, finished: true, ..a }
    } else if a.finished {
        SchedState { steps, ..a }
    } else {
        SchedState {
            steps,
            out: a.out.push(rest_block(rest_secs(steps), a.clock, date)),
            clock: a.clock + rest_secs(steps),
            ..a
        }
    }
}

/// The state in which the scheduler stops, starting from `s`.
pub open spec fn run(s: SchedState, end: int, date: Date) -> SchedState
    decreases end + 2 * POMODORO_SECS - s.clock,
{
    if s.finished {
        s
    } else {
        let n = step(s, end, date);
        if n.finished {
            n
        } else {
            run(n, end, date)
        }
    }
}

/// The plan for a window: the blocks that the scheduler emits for `tasks`.
pub open spec fn window_plan(tasks: Seq<Task>, window: BlockView) -> Seq<BlockView> {
    run(
        initial_state(tasks, window.start_time.secs as int),
        window.end_time.secs as int,
        window.start_date,
    ).out
}

/// The time of day of the clock value `clock`.
fn clock_to_time(clock: u64) -> (r: TimeOfDay)
    ensures
        r == clock_time(clock as int),
{
    TimeOfDay { secs: (clock % 86400) as u32 }
}

/// The work slice of `task` that starts at `clock` on `date`.
fn create_pomodoro_block(task: &Task, clock: u64, date: Date) -> (r: TimeBlock)
    requires
        clock + POMODORO_SECS <= u64::MAX,
    ensures
        r@ == work_block(task.name@, clock as int, date),
{
    let mut label = String::from_str("Task - ");
    proof {
        reveal_strlit("Task - ");
    }
    label.append(task.name.as_str());
    assert(label@ =~= work_label(task.name@));
    TimeBlock::new_named(label, clock_to_time(clock), clock_to_time(clock + POMODORO_SECS), date, date)
}

/// The rest of `secs` seconds that starts at `clock` on `date`.
fn create_pomodoro_rest(clock: u64, date: Date, secs: u64) -> (r: TimeBlock)
    requires
        secs == SHORT_REST_SECS || secs == LONG_REST_SECS,
        clock + secs <= u64::MAX,
    ensures
        r@ == rest_block(secs as int, clock as int, date),
{
    let label = if secs == LONG_REST_SECS {
        proof {
            reveal_strlit("Break (20 minutes)");
        }
        let l = String::from_str("Break (20 minutes)");
        assert(l@ == rest_label(secs as int));
        l
    } else {
        proof {
            reveal_strlit("Break (5 minutes)");
        }
        let l = String::from_str("Break (5 minutes)");
        assert(l@ == rest_label(secs as int));
        l
    };
    TimeBlock::new_named(label, clock_to_time(clock), clock_to_time(clock + secs), date, date)
}

/// Takes one slice from `queue`: the back task's work slice starting at
/// `clock` goes to `out`, and the task, after a slice of work, goes to the
/// front where work remains. An empty queue leaves both as they are.
fn handle_task(queue: &mut VecDeque<Task>, clock: u64, date: Date, out: &mut Vec<TimeBlock>)
    requires
        clock + POMODORO_SECS <= u64::MAX,
    ensures
        final(queue)@ == sliced_queue(old(queue)@),
        blocks_view(final(out)@) == blocks_view(old(out)@) + slice_blocks(old(queue)@, clock as int, date),
{
    let ghost q0 = queue@;
    let ghost o0 = out@;
    match queue.pop_back() {
        Some(mut task) => {
            let b = create_pomodoro_block(&task, clock, date);
            out.push(b);
            task.do_work(POMODORO_SECS);
            if task.has_work_remaining() {
                queue.push_front(task);
            }
            assert(blocks_view(out@) =~= blocks_view(o0) + slice_blocks(q0, clock as int, date));
        },
        None => {
            assert(blocks_view(out@) =~= blocks_view(o0) + slice_blocks(q0, clock as int, date));
        },
    }
}

/// The scheduler of one window: three queues, the counters and the clock.
struct WindowScheduler {
    high: VecDeque<Task>,
    medium: VecDeque<Task>,
    low: VecDeque<Task>,
    clock: u64,
    high_med_count: u64,
    forced_low: bool,
    steps: u64,
    out: Vec<TimeBlock>,
    finished: bool,
    start: u64,
    end: u64,
    date: Date,
}

impl View for WindowScheduler {
    type V = SchedState;

    closed spec fn view(&self) -> SchedState {
        SchedState {
            high: self.high@,
            medium: self.medium@,
            low: self.low@,
            clock: self.clock as int,
            high_med_count: self.high_med_count as int,
            forced_low: self.forced_low,
            steps: self.steps as int,
            out: blocks_view(self.out@),
            finished: self.finished,
        }
    }
}

impl WindowScheduler {
    /// Bounds that keep the counters and the clock far from overflow.
    closed spec fn inv(&self) -> bool {
        &&& self.start <= u32::MAX
        &&& self.end <= u32::MAX
        &&& self.start <= self.clock
        &&& POMODORO_SECS * self.steps <= self.clock - self.start + POMODORO_SECS
        &&& !self.finished ==> POMODORO_SECS * self.steps <= self.clock - self.start
        &&& self.high_med_count <= self.steps
        &&& !self.finished ==> (self.clock == self.start || self.clock < self.end + LONG_REST_SECS)
        &&& self.clock <= self.start + self.end + 2 * POMODORO_SECS
    }

    fn new(tasks: &Vec<Task>, window: &TimeBlock) -> (r: WindowScheduler)
        ensures
            r.inv(),
            r@ == initial_state(tasks@, window.start_time.secs as int),
            r.end == window.end_time.secs,
            r.date == window.start_date,
    {
        let start = window.start_time.secs as u64;
        let pending = tasks_with_work(tasks);
        let out: Vec<TimeBlock> = Vec::new();
        assert(blocks_view(out@) =~= Seq::empty());
        WindowScheduler {
            high: get_priority_queue(&pending, PriorityClass::High),
            medium: get_priority_queue(&pending, PriorityClass::Medium),
            low: get_priority_queue(&pending, PriorityClass::Low),
            clock: start,
            high_med_count: 0,
            forced_low: false,
            steps: 0,
            out,
            finished: false,
            start,
            end: window.end_time.secs as u64,
            date: window.start_date,
        }
    }

    /// One step (see `step`).
    fn step(&mut self)
        requires
            old(self).inv(),
            !old(self).finished,
        ensures
            final(self).inv(),
            final(self)@ == step(old(self)@, old(self).end as int, old(self).date),
            final(self).start == old(self).start,
            final(self).end == old(self).end,
            final(self).date == old(self).date,
            final(self).clock > old(self).clock || final(self).finished,
    {
        let clock = self.clock;
        if self.high.len() > 0 || self.medium.len() > 0 {
            if self.low.len() > 0 && self.high_med_count >= 1 && self.high_med_count % FORCED_LOW_PERIOD == 0
                && !self.forced_low {
                handle_task(&mut self.low, clock, self.date, &mut self.out);
                self.forced_low = true;
            } else {
                if self.high.len() > 0 {
                    handle_task(&mut self.high, clock, self.date, &mut self.out);
                } else {
                    handle_task(&mut self.medium, clock, self.date, &mut self.out);
                }
                self.high_med_count = self.high_med_count + 1;
                self.forced_low = false;
            }
            self.clock = clock + POMODORO_SECS;
        } else if self.low.len() > 0 {
            handle_task(&mut self.low, clock, self.date, &mut self.out);
            self.clock = clock + POMODORO_SECS;
        } else {
            self.finished = true;
        }
        self.steps = self.steps + 1;
        if self.clock >= self.end {
            self.finished = true;
        } else if !self.finished {
            let rest = if self.steps % 4 == 0 {
                LONG_REST_SECS
            } else {
                SHORT_REST_SECS
            };
            let ghost o0 = self.out@;
            let b = create_pomodoro_rest(self.clock, self.date, rest);
            self.out.push(b);
            assert(blocks_view(self.out@) =~= blocks_view(o0).push(b@));
            self.clock = self.clock + rest;
        }
    }
}

/// Fills one window with the slices and rests of `tasks`.
pub fn populate_time_block(tasks: Vec<Task>, schedule_block: TimeBlock) -> (r: Vec<TimeBlock>)
    ensures
        blocks_view(r@) == window_plan(tasks@, schedule_block@),
{
    let mut s = WindowScheduler::new(&tasks, &schedule_block);
    let ghost end = s.end as int;
    let ghost date = s.date;
    let ghost init = s@;
    while !s.finished
        invariant
            s.inv(),
            s.end == end,
            s.date == date,
            run(s@, end, date) == run(init, end, date),
        decreases s.start + s.end + 2 * POMODORO_SECS - s.clock + (if s.finished { 0int } else { 1int }),
    {
        s.step();
    }
    s.out
}

/// The window that a context spans on `day`.
pub open spec fn context_window(context: Context, day: Date) -> BlockView {
    BlockView { name: None, start_time: context.start, end_time: context.end, start_date: day, end_date: day }
}

/// The plan for `day`: for each context active then, in the order of
/// `contexts`, the plan of its window for the open tasks attached to it.
pub open spec fn day_plan(contexts: Seq<Context>, tasks: Seq<Task>, day: Date) -> Seq<BlockView>
    decreases contexts.len(),
{
    if contexts.len() == 0 {
        Seq::empty()
    } else {
        let c = contexts.last();
        let part = if c.active_on(day) {
            window_plan(tasks.filter(|t: Task| t.belongs_to(c.name@)), context_window(c, day))
        } else {
            Seq::empty()
        };
        day_plan(contexts.drop_last(), tasks, day) + part
    }
}

/// A copy of each task, in order.
fn clone_tasks(tasks: &Vec<Task>) -> (r: Vec<Task>)
    ensures
        r@ == tasks@,
{
    let mut out: Vec<Task> = Vec::new();
    let mut i: usize = 0;
    while i < tasks.len()
        invariant
            i <= tasks@.len(),
            out@ == tasks@.subrange(0, i as int),
        decreases tasks@.len() - i,
    {
        out.push(tasks[i].clone());
        i = i + 1;
        assert(out@ =~= tasks@.subrange(0, i as int));
    }
    assert(out@ =~= tasks@);
    out
}

/// The schedule of the day on which `schedule_block` starts, over every
/// context active that day.
pub fn build_schedule(contexts: &Vec<Context>, tasks: &Vec<Task>, schedule_block: TimeBlock) -> (r: Vec<TimeBlock>)
    ensures
        blocks_view(r@) == day_plan(contexts@, tasks@, schedule_block.start_date),
{
    let day = schedule_block.start_date;
    let mut schedule: Vec<TimeBlock> = Vec::new();
    let mut i: usize = 0;
    assert(blocks_view(schedule@) =~= Seq::empty());
    while i < contexts.len()
        invariant
            i <= contexts@.len(),
            blocks_view(schedule@) == day_plan(contexts@.subrange(0, i as int), tasks@, day),
        decreases contexts@.len() - i,
    {
        let context = &contexts[i];
        let ghost before = schedule@;
        proof {
            let next = contexts@.subrange(0, i + 1);
            assert(next.drop_last() == contexts@.subrange(0, i as int));
            assert(next.last() == contexts@[i as int]);
        }
        match context.get_timeblock(day) {
            Some(window) => {
                let mut part = populate_time_block(Task::filter_context_tasks(context, clone_tasks(tasks)), window);
                let ghost p = part@;
                schedule.append(&mut part);
                assert(blocks_view(schedule@) =~= blocks_view(before) + blocks_view(p));
            },
            None => {},
        }
        i = i + 1;
    }
    assert(contexts@.subrange(0, contexts@.len() as int) == contexts@);
    schedule
}

} // verus!
