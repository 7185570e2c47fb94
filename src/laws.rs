//! Properties of the scheduler that hold of every input.
use vstd::prelude::*;
use crate::schedule::{
    allocation, class_of, class_queue, day_plan, forced_low_due, initial_state, rest_label, rest_secs, run,
    rest_block, sliced_queue, step, with_work, work_block, work_label, PriorityClass, SchedState, LONG_REST_SECS, POMODORO_SECS,
    SHORT_REST_SECS,
};
use crate::context::Context;
use crate::task::Task;
use crate::time::Date;
use crate::timeblock::{blocks_view, BlockView, TimeBlock};

verus! {

/// A task after `n` slices of work.
pub open spec fn worked_times(t: Task, n: nat) -> Task
    decreases n,
{
    if n == 0 {
        t
    } else {
        worked_times(t, (n - 1) as nat).worked(POMODORO_SECS as int)
    }
}

/// After `n` slices of 25 minutes a task's remaining duration is its
/// starting one less 25 minutes for each slice, and never below zero.
pub proof fn lemma_remaining_after_slices(t: Task, n: nat)
    ensures
        worked_times(t, n).duration_secs == if t.duration_secs >= POMODORO_SECS * n {
            t.duration_secs - POMODORO_SECS * n
        } else {
            0
        },
    decreases n,
{
    if n > 0 {
        lemma_remaining_after_slices(t, (n - 1) as nat);
        assert(POMODORO_SECS * n == POMODORO_SECS * (n - 1) + POMODORO_SECS) by (nonlinear_arith);
    }
}

/// The state after `k` steps from `s`; a finished state stays as it is.
pub open spec fn states(s: SchedState, end: int, date: Date, k: nat) -> SchedState
    decreases k,
{
    if k == 0 {
        s
    } else {
        let p = states(s, end, date, (k - 1) as nat);
        if p.finished {
            p
        } else {
            step(p, end, date)
        }
    }
}

/// Stepping from a state that goes on is stepping `k` times from the state after it.
proof fn lemma_states_shift(s: SchedState, end: int, date: Date, k: nat)
    requires
        !s.finished,
    ensures
        states(step(s, end, date), end, date, k) == states(s, end, date, k + 1),
    decreases k,
{
    assert(states(s, end, date, 0) == s);
    if k > 0 {
        lemma_states_shift(s, end, date, (k - 1) as nat);
        assert(((k + 1) - 1) as nat == k);
    }
}

/// The state after `k + 1` steps is one step after the state after `k`,
/// where that one goes on.
proof fn lemma_states_next(s: SchedState, end: int, date: Date, k: nat)
    requires
        !states(s, end, date, k).finished,
    ensures
        states(s, end, date, k + 1) == step(states(s, end, date, k), end, date),
{
}

/// A step that finds no low-priority slice due, with high or medium work
/// left, takes a high or medium slice.
proof fn lemma_high_med_step(p: SchedState, end: int, date: Date)
    requires
        p.high.len() > 0 || p.medium.len() > 0,
        !forced_low_due(p),
    ensures
        step(p, end, date).high_med_count == p.high_med_count + 1,
        !step(p, end, date).forced_low,
{
}

/// The state in which a run stops is reached after some number of steps.
pub proof fn lemma_run_reached(s: SchedState, end: int, date: Date)
    ensures
        exists|k: nat| states(s, end, date, k) == run(s, end, date),
    decreases end + 2 * POMODORO_SECS - s.clock,
{
    if s.finished {
        assert(states(s, end, date, 0) == run(s, end, date));
    } else {
        let n = step(s, end, date);
        if n.finished {
                assert(states(s, end, date, 0) == s);
            assert(states(s, end, date, 1) == run(s, end, date));
        } else {
            lemma_run_reached(n, end, date);
            let k = choose|k: nat| states(n, end, date, k) == run(n, end, date);
            lemma_states_shift(s, end, date, k);
            assert(states(s, end, date, k + 1) == run(s, end, date));
        }
    }
}

/// Where no task has a priority outside the high class, the low and medium
/// queues start empty.
proof fn lemma_high_only_queues(tasks: Seq<Task>)
    requires
        forall|i: int| 0 <= i < tasks.len() ==> class_of(#[trigger] tasks[i].priority as int) == PriorityClass::High,
    ensures
        class_queue(tasks, PriorityClass::Low).len() == 0,
        class_queue(tasks, PriorityClass::Medium).len() == 0,
    decreases tasks.len(),
{
    if tasks.len() > 0 {
        let d = tasks.drop_last();
        assert forall|i: int| 0 <= i < d.len() implies class_of(#[trigger] d[i].priority as int) == PriorityClass::High by {
            assert(d[i] == tasks[i]);
        }
        lemma_high_only_queues(d);
        assert(class_of(tasks[tasks.len() - 1].priority as int) == PriorityClass::High);
    }
}

/// Each task with work remaining is a task of the list.
proof fn lemma_with_work_from(tasks: Seq<Task>)
    ensures
        forall|k: int| 0 <= k < with_work(tasks).len()
            ==> exists|j: int| 0 <= j < tasks.len() && tasks[j] == #[trigger] with_work(tasks)[k],
    decreases tasks.len(),
{
    if tasks.len() > 0 {
        let d = tasks.drop_last();
        lemma_with_work_from(d);
        reveal(Seq::filter);
        let w = with_work(tasks);
        let wd = with_work(d);
        assert forall|k: int| 0 <= k < w.len() implies exists|j: int| 0 <= j < tasks.len() && tasks[j] == #[trigger] w[k] by {
            if k < wd.len() {
                assert(w[k] == wd[k]);
                let j = choose|j: int| 0 <= j < d.len() && d[j] == #[trigger] wd[k];
                assert(tasks[j] == d[j]);
            } else {
                assert(w[k] == tasks[tasks.len() - 1]);
            }
        }
    }
}

/// Where every task is of the high class, so is every task with work remaining.
proof fn lemma_with_work_high(tasks: Seq<Task>)
    requires
        forall|i: int| 0 <= i < tasks.len() ==> class_of(#[trigger] tasks[i].priority as int) == PriorityClass::High,
    ensures
        forall|i: int| 0 <= i < with_work(tasks).len()
            ==> class_of(#[trigger] with_work(tasks)[i].priority as int) == PriorityClass::High,
        forall|i: int| 0 <= i < with_work(tasks).len() ==> names_a_task(tasks, (#[trigger] with_work(tasks)[i]).name@),
{
    lemma_with_work_from(tasks);
    let w = with_work(tasks);
    assert forall|i: int| 0 <= i < w.len() implies class_of(#[trigger] w[i].priority as int) == PriorityClass::High
        && names_a_task(tasks, w[i].name@) by {
        let j = choose|j: int| 0 <= j < tasks.len() && tasks[j] == #[trigger] w[i];
        assert(class_of(tasks[j].priority as int) == PriorityClass::High);
    }
}

/// With high-priority tasks only, the low and medium queues stay empty at
/// every step: no slice is ever taken from them, and a due low-priority
/// slice emits nothing.
pub proof fn lemma_high_only_never_low(tasks: Seq<Task>, start: int, end: int, date: Date, k: nat)
    requires
        forall|i: int| 0 <= i < tasks.len() ==> class_of(#[trigger] tasks[i].priority as int) == PriorityClass::High,
    ensures
        states(initial_state(tasks, start), end, date, k).low.len() == 0,
        states(initial_state(tasks, start), end, date, k).medium.len() == 0,
    decreases k,
{
    if k == 0 {
        lemma_with_work_high(tasks);
        lemma_high_only_queues(with_work(tasks));
    } else {
        lemma_high_only_never_low(tasks, start, end, date, (k - 1) as nat);
    }
}

/// With high-priority tasks only, the low and medium queues are still empty
/// where the run stops.
pub proof fn lemma_high_only_run(tasks: Seq<Task>, start: int, end: int, date: Date)
    requires
        forall|i: int| 0 <= i < tasks.len() ==> class_of(#[trigger] tasks[i].priority as int) == PriorityClass::High,
    ensures
        run(initial_state(tasks, start), end, date).low.len() == 0,
        run(initial_state(tasks, start), end, date).medium.len() == 0,
{
    let s = initial_state(tasks, start);
    lemma_run_reached(s, end, date);
    let k = choose|k: nat| states(s, end, date, k) == run(s, end, date);
    lemma_high_only_never_low(tasks, start, end, date, k);
}

/// A low-priority slice is due after each fourth high or medium slice where
/// the low queue holds work: the step then emits the work slice of the low
/// queue's back task and leaves the other queues as they are.
pub proof fn lemma_forced_low_slice(s: SchedState, end: int, date: Date)
    requires
        !s.finished,
        s.high.len() > 0 || s.medium.len() > 0,
        forced_low_due(s),
    ensures
        step(s, end, date).high == s.high,
        step(s, end, date).medium == s.medium,
        step(s, end, date).low == sliced_queue(s.low),
        step(s, end, date).high_med_count == s.high_med_count,
        step(s, end, date).out[s.out.len() as int] == work_block(
            s.low.last().name@,
            s.clock,
            date,
        ),
{
}

/// Counting alone: where each of four states that finds no low-priority
/// slice due is followed by one more high or medium slice, one of five
/// states with low work finds one due.
proof fn lemma_count_chain(s0: SchedState, s1: SchedState, s2: SchedState, s3: SchedState, s4: SchedState)
    requires
        s0.high_med_count >= 0,
        s0.low.len() > 0 && s1.low.len() > 0 && s2.low.len() > 0 && s3.low.len() > 0 && s4.low.len() > 0,
        !forced_low_due(s0) ==> s1.high_med_count == s0.high_med_count + 1 && !s1.forced_low,
        !forced_low_due(s1) ==> s2.high_med_count == s1.high_med_count + 1 && !s2.forced_low,
        !forced_low_due(s2) ==> s3.high_med_count == s2.high_med_count + 1 && !s3.forced_low,
        !forced_low_due(s3) ==> s4.high_med_count == s3.high_med_count + 1 && !s4.forced_low,
    ensures
        forced_low_due(s0) || forced_low_due(s1) || forced_low_due(s2) || forced_low_due(s3) || forced_low_due(s4),
{
}

/// Among five consecutive steps that each start with work in the low queue
/// and in the high or medium queue, one finds a low-priority slice due.
#[verifier::spinoff_prover]
proof fn lemma_due_within_five_steps(s: SchedState, end: int, date: Date)
    requires
        s.high_med_count >= 0,
        forall|j: nat| j < 5 ==> !(#[trigger] states(s, end, date, j)).finished,
        forall|j: nat| j < 5 ==> (#[trigger] states(s, end, date, j)).high.len() > 0
            || states(s, end, date, j).medium.len() > 0,
        forall|j: nat| j < 5 ==> (#[trigger] states(s, end, date, j)).low.len() > 0,
    ensures
        exists|j: nat| j < 5 && forced_low_due(#[trigger] states(s, end, date, j)),
{
    let s0 = states(s, end, date, 0);
    let s1 = states(s, end, date, 1);
    let s2 = states(s, end, date, 2);
    let s3 = states(s, end, date, 3);
    let s4 = states(s, end, date, 4);
    assert(s0 == s);
    lemma_states_next(s, end, date, 0);
    lemma_states_next(s, end, date, 1);
    lemma_states_next(s, end, date, 2);
    lemma_states_next(s, end, date, 3);
    if !forced_low_due(s0) {
        lemma_high_med_step(s0, end, date);
    }
    if !forced_low_due(s1) {
        lemma_high_med_step(s1, end, date);
    }
    if !forced_low_due(s2) {
        lemma_high_med_step(s2, end, date);
    }
    if !forced_low_due(s3) {
        lemma_high_med_step(s3, end, date);
    }
    assert(s0.low.len() > 0 && s1.low.len() > 0 && s2.low.len() > 0 && s3.low.len() > 0 && s4.low.len() > 0);
    lemma_count_chain(s0, s1, s2, s3, s4);
}

/// Among any five consecutive steps that each start with work left both in
/// the high or medium queue and in the low queue, one is a due low-priority
/// slice, which emits the work slice of the low queue's back task: no more
/// than four high or medium slices come in a row.
pub proof fn lemma_low_within_five_steps(s: SchedState, end: int, date: Date)
    requires
        s.high_med_count >= 0,
        forall|j: nat| j < 5 ==> !(#[trigger] states(s, end, date, j)).finished,
        forall|j: nat| j < 5 ==> (#[trigger] states(s, end, date, j)).high.len() > 0
            || states(s, end, date, j).medium.len() > 0,
        forall|j: nat| j < 5 ==> (#[trigger] states(s, end, date, j)).low.len() > 0,
    ensures
        exists|j: nat|
            j < 5 && forced_low_due(#[trigger] states(s, end, date, j))
                && step(states(s, end, date, j), end, date).out[states(s, end, date, j).out.len() as int]
                == work_block(states(s, end, date, j).low.last().name@, states(s, end, date, j).clock, date),
{
    lemma_due_within_five_steps(s, end, date);
    let j = choose|j: nat| j < 5 && forced_low_due(#[trigger] states(s, end, date, j));
    let sj = states(s, end, date, j);
    assert(!sj.finished);
    assert(sj.high.len() > 0 || sj.medium.len() > 0);
    lemma_forced_low_slice(sj, end, date);
}

/// Where a slice brings the clock to the end of the window or past it, the
/// step ends the run with that slice and adds no rest.
pub proof fn lemma_stop_at_window_end(s: SchedState, end: int, date: Date)
    requires
        !s.finished,
        allocation(s, date).clock >= end,
    ensures
        step(s, end, date).finished,
        step(s, end, date).out == allocation(s, date).out,
        step(s, end, date).clock == allocation(s, date).clock,
{
}

/// Two schedules computed from the same contexts, tasks and day are the same.
pub proof fn lemma_schedule_deterministic(
    contexts: Seq<Context>,
    tasks: Seq<Task>,
    day: Date,
    first: Seq<TimeBlock>,
    second: Seq<TimeBlock>,
)
    requires
        blocks_view(first) == day_plan(contexts, tasks, day),
        blocks_view(second) == day_plan(contexts, tasks, day),
    ensures
        blocks_view(first) == blocks_view(second),
{
}


/// Whether `name` is the name of some task of `tasks`.
pub open spec fn names_a_task(tasks: Seq<Task>, name: Seq<char>) -> bool {
    exists|i: int| 0 <= i < tasks.len() && (#[trigger] tasks[i]).name@ == name
}

/// Whether a block is a rest, or the work slice of some task of `tasks`.
pub open spec fn rest_or_slice_of(tasks: Seq<Task>, b: BlockView) -> bool {
    ||| b.name == Some(rest_label(SHORT_REST_SECS as int))
    ||| b.name == Some(rest_label(LONG_REST_SECS as int))
    ||| exists|i: int| 0 <= i < tasks.len() && b.name == Some(work_label((#[trigger] tasks[i]).name@))
}

/// Every task of a class queue is a task of the list it was built from.
proof fn lemma_class_queue_from(tasks: Seq<Task>, class: PriorityClass)
    ensures
        forall|k: int| 0 <= k < class_queue(tasks, class).len()
            ==> names_a_task(tasks, (#[trigger] class_queue(tasks, class)[k]).name@),
    decreases tasks.len(),
{
    if tasks.len() > 0 {
        let d = tasks.drop_last();
        lemma_class_queue_from(d, class);
        let q = class_queue(tasks, class);
        assert forall|k: int| 0 <= k < q.len() implies names_a_task(tasks, (#[trigger] q[k]).name@) by {
            let qd = class_queue(d, class);
            if q.len() == qd.len() {
                assert(q[k] == qd[k]);
                let i = choose|i: int| 0 <= i < d.len() && (#[trigger] d[i]).name@ == qd[k].name@;
                assert(tasks[i] == d[i]);
            } else if k == 0 {
                assert(tasks[tasks.len() - 1] == q[0]);
            } else {
                assert(q[k] == qd[k - 1]);
                let i = choose|i: int| 0 <= i < d.len() && (#[trigger] d[i]).name@ == qd[k - 1].name@;
                assert(tasks[i] == d[i]);
            }
        }
    }
}

/// The state invariant behind `lemma_high_only_blocks`.
pub open spec fn high_only_inv(tasks: Seq<Task>, s: SchedState) -> bool {
    &&& s.low.len() == 0
    &&& s.medium.len() == 0
    &&& forall|k: int| 0 <= k < s.high.len() ==> names_a_task(tasks, (#[trigger] s.high[k]).name@)
    &&& forall|k: int| 0 <= k < s.out.len() ==> rest_or_slice_of(tasks, #[trigger] s.out[k])
}

/// One step keeps `high_only_inv`.
proof fn lemma_high_only_step(tasks: Seq<Task>, s: SchedState, end: int, date: Date)
    requires
        high_only_inv(tasks, s),
    ensures
        high_only_inv(tasks, step(s, end, date)),
{
    let n = step(s, end, date);
    if s.high.len() > 0 {
        let q = s.high;
        let last = q.last();
        assert(names_a_task(tasks, q[q.len() - 1].name@));
        let sq = sliced_queue(q);
        assert forall|k: int| 0 <= k < sq.len() implies names_a_task(tasks, (#[trigger] sq[k]).name@) by {
            if sq.len() == q.len() {
                if k > 0 {
                    assert(sq[k] == q[k - 1]);
                }
            } else {
                assert(sq[k] == q[k]);
            }
        }
        let i = choose|i: int| 0 <= i < tasks.len() && (#[trigger] tasks[i]).name@ == last.name@;
        assert(rest_or_slice_of(tasks, work_block(last.name@, s.clock, date)));
    }
    assert forall|k: int| 0 <= k < n.out.len() implies rest_or_slice_of(tasks, #[trigger] n.out[k]) by {
        if k < s.out.len() {
            assert(n.out[k] == s.out[k]);
        }
    }
}

/// `high_only_inv` holds at every step from the start.
proof fn lemma_high_only_states(tasks: Seq<Task>, start: int, end: int, date: Date, k: nat)
    requires
        forall|i: int| 0 <= i < tasks.len() ==> class_of(#[trigger] tasks[i].priority as int) == PriorityClass::High,
    ensures
        high_only_inv(tasks, states(initial_state(tasks, start), end, date, k)),
    decreases k,
{
    if k == 0 {
        let w = with_work(tasks);
        lemma_with_work_high(tasks);
        lemma_high_only_queues(w);
        lemma_class_queue_from(w, PriorityClass::High);
        let q = class_queue(w, PriorityClass::High);
        assert forall|k: int| 0 <= k < q.len() implies names_a_task(tasks, (#[trigger] q[k]).name@) by {
            let i = choose|i: int| 0 <= i < w.len() && (#[trigger] w[i]).name@ == q[k].name@;
            assert(names_a_task(tasks, w[i].name@));
        }
    } else {
        lemma_high_only_states(tasks, start, end, date, (k - 1) as nat);
        let p = states(initial_state(tasks, start), end, date, (k - 1) as nat);
        if !p.finished {
            lemma_high_only_step(tasks, p, end, date);
        }
    }
}

/// With high-priority tasks only, every block of a window's plan is a rest or
/// a work slice of one of those tasks: nothing is taken from the low class.
pub proof fn lemma_high_only_blocks(tasks: Seq<Task>, start: int, end: int, date: Date)
    requires
        forall|i: int| 0 <= i < tasks.len() ==> class_of(#[trigger] tasks[i].priority as int) == PriorityClass::High,
    ensures
        forall|k: int|
            0 <= k < run(initial_state(tasks, start), end, date).out.len() ==> rest_or_slice_of(
                tasks,
                #[trigger] run(initial_state(tasks, start), end, date).out[k],
            ),
{
    let s = initial_state(tasks, start);
    lemma_run_reached(s, end, date);
    let k = choose|k: nat| states(s, end, date, k) == run(s, end, date);
    lemma_high_only_states(tasks, start, end, date, k);
}


/// Whether a block is a rest.
pub open spec fn is_rest_block(b: BlockView) -> bool {
    b.name == Some(rest_label(SHORT_REST_SECS as int)) || b.name == Some(rest_label(LONG_REST_SECS as int))
}

/// The first half of a step either ends the run with nothing emitted, or
/// emits one work slice at the clock and advances the clock by a slice.
proof fn lemma_allocation_shape(s: SchedState, date: Date)
    requires
        !s.finished,
    ensures
        ({
            let a = allocation(s, date);
            ||| a.finished && a.out == s.out && a.clock == s.clock
            ||| !a.finished && a.clock == s.clock + POMODORO_SECS && exists|name: Seq<char>|
                a.out == s.out.push(#[trigger] work_block(name, s.clock, date))
        }),
{
    let a = allocation(s, date);
    if s.high.len() > 0 || s.medium.len() > 0 {
        let q = if forced_low_due(s) {
            s.low
        } else if s.high.len() > 0 {
            s.high
        } else {
            s.medium
        };
        assert(a.out =~= s.out.push(work_block(q.last().name@, s.clock, date)));
    } else if s.low.len() > 0 {
        assert(a.out =~= s.out.push(work_block(s.low.last().name@, s.clock, date)));
    }
}

/// No work slice is a rest.
proof fn lemma_slice_not_rest(name: Seq<char>, clock: int, date: Date)
    ensures
        !is_rest_block(work_block(name, clock, date)),
{
    let l = work_label(name);
    assert(l[0] == 'T');
    assert(rest_label(SHORT_REST_SECS as int)[0] == 'B');
    assert(rest_label(LONG_REST_SECS as int)[0] == 'B');
}

/// The state invariant behind `lemma_stop_at_end_of_plan`.
pub open spec fn boundary_inv(s: SchedState, end: int) -> bool {
    &&& 0 <= s.clock
    &&& !s.finished ==> s.clock < end + LONG_REST_SECS
    &&& forall|k: int|
        0 <= k < s.out.len() && !is_rest_block(#[trigger] s.out[k]) && s.out[k].end_time.secs >= end
            ==> k == s.out.len() - 1 && s.finished
    &&& forall|k: int| 0 <= k < s.out.len() && is_rest_block(#[trigger] s.out[k]) ==> s.out[k].start_time.secs < end
}

/// One step keeps `boundary_inv` on a window that ends by 23:15.
proof fn lemma_boundary_step(s: SchedState, end: int, date: Date)
    requires
        0 <= end <= 83700,
        !s.finished,
        boundary_inv(s, end),
    ensures
        boundary_inv(step(s, end, date), end),
{
    let a = allocation(s, date);
    let n = step(s, end, date);
    lemma_allocation_shape(s, date);
    if !a.finished {
        let name = choose|name: Seq<char>| a.out == s.out.push(#[trigger] work_block(name, s.clock, date));
        let wb = work_block(name, s.clock, date);
        lemma_slice_not_rest(name, s.clock, date);
        assert(wb.end_time.secs == s.clock + POMODORO_SECS);
        if a.clock < end {
            let rb = rest_block(rest_secs(s.steps + 1), a.clock, date);
            assert(n.out == a.out.push(rb));
            assert(rb.start_time.secs == a.clock);
            assert(is_rest_block(rb));
            assert forall|k: int| 0 <= k < n.out.len() && !is_rest_block(#[trigger] n.out[k]) implies n.out[k].end_time.secs < end by {
                if k < s.out.len() {
                    assert(n.out[k] == s.out[k]);
                } else if k == s.out.len() {
                    assert(n.out[k] == wb);
                }
            }
            assert forall|k: int| 0 <= k < n.out.len() && is_rest_block(#[trigger] n.out[k]) implies n.out[k].start_time.secs < end by {
                if k < s.out.len() {
                    assert(n.out[k] == s.out[k]);
                } else if k == s.out.len() {
                    assert(n.out[k] == wb);
                }
            }
        } else {
            assert(n.out == a.out);
            assert forall|k: int| 0 <= k < n.out.len() && !is_rest_block(#[trigger] n.out[k]) && n.out[k].end_time.secs >= end implies k == n.out.len() - 1 && n.finished by {
                if k < s.out.len() {
                    assert(n.out[k] == s.out[k]);
                }
            }
            assert forall|k: int| 0 <= k < n.out.len() && is_rest_block(#[trigger] n.out[k]) implies n.out[k].start_time.secs < end by {
                if k < s.out.len() {
                    assert(n.out[k] == s.out[k]);
                } else {
                    assert(n.out[k] == wb);
                }
            }
        }
    } else {
        assert(n.out == s.out);
    }
}

/// `boundary_inv` holds at every step from the start.
proof fn lemma_boundary_states(tasks: Seq<Task>, start: int, end: int, date: Date, k: nat)
    requires
        0 <= start <= end <= 83700,
    ensures
        boundary_inv(states(initial_state(tasks, start), end, date, k), end),
    decreases k,
{
    if k > 0 {
        lemma_boundary_states(tasks, start, end, date, (k - 1) as nat);
        let p = states(initial_state(tasks, start), end, date, (k - 1) as nat);
        if !p.finished {
            lemma_boundary_step(p, end, date);
        }
    }
}

/// On a window that starts no later than it ends, and ends by 23:15, a work
/// slice that reaches the end of the window is the last block of the plan,
/// and every rest starts before the end of the window.
pub proof fn lemma_stop_at_end_of_plan(tasks: Seq<Task>, start: int, end: int, date: Date)
    requires
        0 <= start <= end <= 83700,
    ensures
        forall|k: int|
            0 <= k < run(initial_state(tasks, start), end, date).out.len() && !is_rest_block(
                #[trigger] run(initial_state(tasks, start), end, date).out[k],
            ) && run(initial_state(tasks, start), end, date).out[k].end_time.secs >= end ==> k == run(
                initial_state(tasks, start),
                end,
                date,
            ).out.len() - 1,
        forall|k: int|
            0 <= k < run(initial_state(tasks, start), end, date).out.len() && is_rest_block(
                #[trigger] run(initial_state(tasks, start), end, date).out[k],
            ) ==> run(initial_state(tasks, start), end, date).out[k].start_time.secs < end,
{
    let s = initial_state(tasks, start);
    lemma_run_reached(s, end, date);
    let k = choose|k: nat| states(s, end, date, k) == run(s, end, date);
    lemma_boundary_states(tasks, start, end, date, k);
}


/// Every task lands in exactly one of the three class queues: together they
/// hold as many tasks as the list, each queue holding the tasks of its class.
pub proof fn lemma_queues_split_tasks(tasks: Seq<Task>)
    ensures
        class_queue(tasks, PriorityClass::High).len() + class_queue(tasks, PriorityClass::Medium).len()
            + class_queue(tasks, PriorityClass::Low).len() == tasks.len(),
        forall|c: PriorityClass, k: int|
            0 <= k < class_queue(tasks, c).len() ==> class_of((#[trigger] class_queue(tasks, c)[k]).priority as int) == c,
    decreases tasks.len(),
{
    if tasks.len() > 0 {
        let d = tasks.drop_last();
        lemma_queues_split_tasks(d);
        assert forall|c: PriorityClass, k: int|
            0 <= k < class_queue(tasks, c).len() implies class_of((#[trigger] class_queue(tasks, c)[k]).priority as int) == c by {
            let q = class_queue(tasks, c);
            let qd = class_queue(d, c);
            if q.len() != qd.len() && k > 0 {
                assert(q[k] == qd[k - 1]);
            } else if q.len() == qd.len() {
                assert(q[k] == qd[k]);
            }
        }
    }
}


/// The state invariant behind `lemma_plan_back_to_back`.
pub open spec fn contiguity_inv(s: SchedState, start: int, end: int) -> bool {
    &&& start <= s.clock < 86400
    &&& !s.finished ==> s.clock < end + LONG_REST_SECS
    &&& s.out.len() == 0 ==> s.clock == start
    &&& s.out.len() > 0 ==> s.out[0].start_time.secs == start && s.out.last().end_time.secs == s.clock
    &&& forall|i: int| 0 < i < s.out.len() ==> (#[trigger] s.out[i]).start_time.secs == s.out[i - 1].end_time.secs
    &&& forall|i: int| 0 < i < s.out.len() ==> !(is_rest_block(#[trigger] s.out[i]) && is_rest_block(s.out[i - 1]))
}

/// One step keeps `contiguity_inv` on a window that ends by 23:15.
proof fn lemma_contiguity_step(s: SchedState, start: int, end: int, date: Date)
    requires
        0 <= start <= end <= 83700,
        !s.finished,
        contiguity_inv(s, start, end),
    ensures
        contiguity_inv(step(s, end, date), start, end),
{
    let a = allocation(s, date);
    let n = step(s, end, date);
    lemma_allocation_shape(s, date);
    if !a.finished {
        let name = choose|name: Seq<char>| a.out == s.out.push(#[trigger] work_block(name, s.clock, date));
        let wb = work_block(name, s.clock, date);
        lemma_slice_not_rest(name, s.clock, date);
        assert(wb.start_time.secs == s.clock);
        assert(wb.end_time.secs == s.clock + POMODORO_SECS);
        if a.clock < end {
            let rb = rest_block(rest_secs(s.steps + 1), a.clock, date);
            assert(n.out == a.out.push(rb));
            assert(rb.start_time.secs == a.clock);
            assert(rb.end_time.secs == n.clock);
            assert forall|i: int| 0 < i < n.out.len() implies (#[trigger] n.out[i]).start_time.secs == n.out[i
                - 1].end_time.secs && !(is_rest_block(n.out[i]) && is_rest_block(n.out[i - 1])) by {
                if i < s.out.len() {
                    assert(n.out[i] == s.out[i] && n.out[i - 1] == s.out[i - 1]);
                } else if i == s.out.len() {
                    assert(n.out[i] == wb);
                    assert(n.out[i - 1] == s.out.last());
                } else {
                    assert(n.out[i] == rb && n.out[i - 1] == wb);
                }
            }
        } else {
            assert(n.out == a.out);
            assert forall|i: int| 0 < i < n.out.len() implies (#[trigger] n.out[i]).start_time.secs == n.out[i
                - 1].end_time.secs && !(is_rest_block(n.out[i]) && is_rest_block(n.out[i - 1])) by {
                if i < s.out.len() {
                    assert(n.out[i] == s.out[i] && n.out[i - 1] == s.out[i - 1]);
                } else {
                    assert(n.out[i] == wb);
                    assert(n.out[i - 1] == s.out.last());
                }
            }
        }
    } else {
        assert(n.out == s.out);
    }
}

/// `contiguity_inv` holds at every step from the start.
proof fn lemma_contiguity_states(tasks: Seq<Task>, start: int, end: int, date: Date, k: nat)
    requires
        0 <= start <= end <= 83700,
    ensures
        contiguity_inv(states(initial_state(tasks, start), end, date, k), start, end),
    decreases k,
{
    if k > 0 {
        lemma_contiguity_states(tasks, start, end, date, (k - 1) as nat);
        let p = states(initial_state(tasks, start), end, date, (k - 1) as nat);
        if !p.finished {
            lemma_contiguity_step(p, start, end, date);
        }
    }
}

/// On a window that starts no later than it ends, and ends by 23:15, the
/// plan starts at the start of the window and its blocks follow one another
/// without a gap, with no two rests in a row: no slot stays idle.
pub proof fn lemma_plan_back_to_back(tasks: Seq<Task>, start: int, end: int, date: Date)
    requires
        0 <= start <= end <= 83700,
    ensures
        ({
            let out = run(initial_state(tasks, start), end, date).out;
            &&& out.len() > 0 ==> out[0].start_time.secs == start
            &&& forall|i: int| 0 < i < out.len() ==> (#[trigger] out[i]).start_time.secs == out[i - 1].end_time.secs
            &&& forall|i: int| 0 < i < out.len() ==> !(is_rest_block(#[trigger] out[i]) && is_rest_block(out[i - 1]))
        }),
{
    let s = initial_state(tasks, start);
    lemma_run_reached(s, end, date);
    let k = choose|k: nat| states(s, end, date, k) == run(s, end, date);
    lemma_contiguity_states(tasks, start, end, date, k);
}

} // verus!
