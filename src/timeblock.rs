//! Labelled blocks of time on a calendar day.
use vstd::prelude::*;
use crate::time::{hms_text, Date, TimeOfDay};

verus! {

/// A concrete block of time: a schedule item, or a window to be filled.
pub struct TimeBlock {
    pub name: Option<String>,
    pub start_time: TimeOfDay,
    pub end_time: TimeOfDay,
    pub start_date: Date,
    pub end_date: Date,
}

/// What a block is, with its label as a sequence of characters.
pub ghost struct BlockView {
    pub name: Option<Seq<char>>,
    pub start_time: TimeOfDay,
    pub end_time: TimeOfDay,
    pub start_date: Date,
    pub end_date: Date,
}

impl View for TimeBlock {
    type V = BlockView;

    open spec fn view(&self) -> BlockView {
        BlockView {
            name: match self.name {
                Some(s) => Some(s@),
                None => None,
            },
            start_time: self.start_time,
            end_time: self.end_time,
            start_date: self.start_date,
            end_date: self.end_date,
        }
    }
}

/// The label of a block, "Unnamed item" where it has none.
pub open spec fn label_of(b: BlockView) -> Seq<char> {
    match b.name {
        Some(n) => n,
        None => seq!['U', 'n', 'n', 'a', 'm', 'e', 'd', ' ', 'i', 't', 'e', 'm'],
    }
}

/// A block as one line of a schedule: "start - end | label".
pub open spec fn schedule_line_of(b: BlockView) -> Seq<char> {
    hms_text(b.start_time.secs as int) + seq![' ', '-', ' '] + hms_text(b.end_time.secs as int) + seq![
        ' ',
        '|',
        ' ',
    ] + label_of(b)
}

/// The views of a sequence of blocks.
pub open spec fn blocks_view(s: Seq<TimeBlock>) -> Seq<BlockView> {
    s.map_values(|b: TimeBlock| b@)
}

impl TimeBlock {
    /// An unnamed block.
    pub fn new(start_time: TimeOfDay, end_time: TimeOfDay, start_date: Date, end_date: Date) -> (r: TimeBlock)
        ensures
            r@ == (BlockView { name: None, start_time, end_time, start_date, end_date }),
    {
        TimeBlock { name: None, start_time, end_time, start_date, end_date }
    }

    /// A block labelled `name`.
    pub fn new_named(
        name: String,
        start_time: TimeOfDay,
        end_time: TimeOfDay,
        start_date: Date,
        end_date: Date,
    ) -> (r: TimeBlock)
        ensures
            r@ == (BlockView { name: Some(name@), start_time, end_time, start_date, end_date }),
    {
        TimeBlock { name: Some(name), start_time, end_time, start_date, end_date }
    }

    /// The label of this block, "Unnamed item" where it has none.
    pub fn label(&self) -> (r: String)
        ensures
            r@ == label_of(self@),
    {
        match &self.name {
            Some(n) => n.clone(),
            None => {
                proof {
                    reveal_strlit("Unnamed item");
                }
                let r = String::from_str("Unnamed item");
                assert(r@ =~= label_of(self@));
                r
            },
        }
    }

    /// This block written as one line of a schedule: "start - end | label".
    pub fn schedule_line(&self) -> (r: String)
        requires
            self.start_time.wf(),
            self.end_time.wf(),
        ensures
            r@ == schedule_line_of(self@),
    {
        let mut line = self.start_time.to_text();
        proof {
            reveal_strlit(" - ");
            reveal_strlit(" | ");
        }
        line.append(" - ");
        line.append(self.end_time.to_text().as_str());
        line.append(" | ");
        line.append(self.label().as_str());
        assert(line@ =~= schedule_line_of(self@));
        line
    }

    /// Overlap of two blocks is not modelled: every pair is taken to intersect.
    pub fn intersects(&self, other: TimeBlock) -> (r: bool)
        ensures
            r,
    {
        true
    }
}

} // verus!
