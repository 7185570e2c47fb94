//! Contexts: recurring daily windows that tasks attach to.
use vstd::prelude::*;
use crate::time::{Date, TimeOfDay, Weekday};
use crate::timeblock::{BlockView, TimeBlock};

verus! {

/// A date on which a context keeps other hours.
pub struct ContextException {
    date: Date,
    start_time: TimeOfDay,
    end_time: TimeOfDay,
    transition_secs: i64,
}

impl ContextException {
    pub fn new(date: Date, start_time: TimeOfDay, end_time: TimeOfDay, transition_secs: i64) -> (r: Self)
        ensures
            r.date() == date,
            r.start_time() == start_time,
            r.end_time() == end_time,
            r.transition_secs() == transition_secs,
    {
        ContextException { date, start_time, end_time, transition_secs }
    }

    pub closed spec fn date(self) -> Date {
        self.date
    }

    pub closed spec fn start_time(self) -> TimeOfDay {
        self.start_time
    }

    pub closed spec fn end_time(self) -> TimeOfDay {
        self.end_time
    }

    pub closed spec fn transition_secs(self) -> i64 {
        self.transition_secs
    }

    pub fn get_date(&self) -> (r: Date)
        ensures
            r == self.date(),
    {
        self.date
    }

    pub fn get_start_time(&self) -> (r: TimeOfDay)
        ensures
            r == self.start_time(),
    {
        self.start_time
    }

    pub fn get_end_time(&self) -> (r: TimeOfDay)
        ensures
            r == self.end_time(),
    {
        self.end_time
    }

    pub fn get_transition_secs(&self) -> (r: i64)
        ensures
            r == self.transition_secs(),
    {
        self.transition_secs
    }
}

/// A recurring daily window, active on a set of weekdays from `start` to `end`.
///
/// Times carry no time zone. `transition_secs` is informational.
pub struct Context {
    pub name: String,
    pub days: Vec<Weekday>,
    pub start: TimeOfDay,
    pub end: TimeOfDay,
    pub transition_secs: i64,
    pub exceptions: Vec<ContextException>,
}

/// The days of `days` whose index is below `k`, grouped by index in rising
/// order, each group in the order of `days`.
pub open spec fn days_below(days: Seq<Weekday>, k: int) -> Seq<Weekday>
    decreases k,
{
    if k <= 0 {
        Seq::empty()
    } else {
        days_below(days, k - 1) + days.filter(|w: Weekday| w.index() == k - 1)
    }
}

impl Context {
    /// Whether this context is active on `day`.
    pub open spec fn active_on(self, day: Date) -> bool {
        exists|i: int| 0 <= i < self.days@.len() && day.weekday_index() == Some(#[trigger] self.days@[i].index())
    }

    pub fn new(name: &str, days: Vec<Weekday>, start: TimeOfDay, end: TimeOfDay, transition_secs: i64) -> (r: Self)
        ensures
            r.name@ == name@,
            r.days == days,
            r.start == start,
            r.end == end,
            r.transition_secs == transition_secs,
            r.exceptions@.len() == 0,
    {
        Context { name: name.to_string(), days, start, end, transition_secs, exceptions: Vec::new() }
    }

    /// The active weekdays sorted from Monday to Sunday.
    pub fn get_days(&self) -> (r: Vec<Weekday>)
        ensures
            r@ == days_below(self.days@, 7),
    {
        let mut out: Vec<Weekday> = Vec::new();
        let mut k: u8 = 0;
        while k < 7
            invariant
                k <= 7,
                out@ == days_below(self.days@, k as int),
            decreases 7 - k,
        {
            let ghost before = out@;
            let mut i: usize = 0;
            while i < self.days.len()
                invariant
                    k < 7,
                    i <= self.days@.len(),
                    out@ == before + self.days@.subrange(0, i as int).filter(|w: Weekday| w.index() == k),
                decreases self.days@.len() - i,
            {
                let w = self.days[i];
                proof {
                    assert(self.days@.subrange(0, i + 1) == self.days@.subrange(0, i as int).push(w));
                    reveal(Seq::filter);
                    assert(self.days@.subrange(0, i + 1).drop_last() == self.days@.subrange(0, i as int));
                }
                if w.num_days_from_monday() == k {
                    out.push(w);
                }
                i = i + 1;
            }
            assert(self.days@.subrange(0, self.days@.len() as int) == self.days@);
            k = k + 1;
        }
        out
    }

    /// The window of this context on `day`, where the context is active then.
    pub fn get_timeblock(&self, day: Date) -> (r: Option<TimeBlock>)
        ensures
            r is Some <==> self.active_on(day),
            r matches Some(b) ==> b@ == (BlockView {
                name: None,
                start_time: self.start,
                end_time: self.end,
                start_date: day,
                end_date: day,
            }),
    {
        let wd = match day.weekday() {
            Some(w) => w,
            None => {
                return None;
            },
        };
        let mut i: usize = 0;
        while i < self.days.len()
            invariant
                i <= self.days@.len(),
                day.weekday_index() == Some(wd.index()),
                forall|j: int| 0 <= j < i ==> self.days@[j] != wd,
            decreases self.days@.len() - i,
        {
            if self.days[i] == wd {
                return Some(TimeBlock::new(self.start, self.end, day, day));
            }
            i = i + 1;
        }
        proof {
            assert forall|j: int| 0 <= j < self.days@.len() implies day.weekday_index() != Some(#[trigger] self.days@[j].index()) by {
                let w = self.days@[j];
                assert(w != wd);
                assert(w.index() != wd.index());
            }
        }
        None
    }
}

} // verus!
