//! The context window: which lines around a match are shown, decided one
//! line at a time from whether each line is selected.

use vstd::prelude::*;

verus! {

/// The first line not yet written when the last reported match is `last`
/// and lines before `i` have been read.
pub open spec fn written_upto(last: Option<usize>, i: int, after: nat) -> int {
    match last {
        None => 0,
        Some(r) => if r + after + 1 < i {
            r + after + 1
        } else {
            i
        },
    }
}

/// What to do with the line just read.
#[derive(Clone, Copy, Debug, PartialEq, Eq, Structural)]
pub enum LineDecision {
    /// The match limit is exceeded: stop reading.
    Stop,
    /// Show nothing for this line.
    Hide,
    /// Show this line as after-context.
    Context,
    /// A reported match: show the lines from the given index up to this one
    /// as before-context, then this line.
    Window(usize),
}

/// The state of the context window while a file is read: its widths, the
/// match limit, the matches reported so far and the last of them.
#[derive(Clone, Copy, Debug, PartialEq, Eq, Structural)]
pub struct ContextWindow {
    pub before: usize,
    pub after: usize,
    pub max_count: Option<usize>,
    pub count: usize,
    pub last_match: Option<usize>,
}

impl ContextWindow {
    /// Whether `max_count` matches have been reported.
    pub open spec fn limit_reached(&self) -> bool {
        match self.max_count {
            Some(k) => self.count >= k,
            None => false,
        }
    }

    /// Whether line `i` falls within the after-context of the last match.
    pub open spec fn in_after_context(&self, i: int) -> bool {
        match self.last_match {
            Some(r) => i - r <= self.after,
            None => false,
        }
    }

    /// The first before-context line of a match at `i`: `before` lines back,
    /// but never a line already written.
    pub open spec fn window_start(&self, i: int) -> int {
        let u = written_upto(self.last_match, i, self.after as nat);
        if i - self.before > u {
            i - self.before
        } else {
            u
        }
    }

    /// A window before any line is read.
    pub fn new(before: usize, after: usize, max_count: Option<usize>) -> (r: ContextWindow)
        ensures
            r.before == before,
            r.after == after,
            r.max_count == max_count,
            r.count == 0,
            r.last_match is None,
    {
        ContextWindow { before, after, max_count, count: 0, last_match: None }
    }

    /// Decides line `i`, given whether it is selected. A selected line past
    /// the limit stops the search; another selected line is reported with its
    /// before-context; an unselected line is shown when it falls within the
    /// after-context of the last match.
    pub fn advance(&mut self, i: usize, selected: bool) -> (d: LineDecision)
        requires
            old(self).last_match matches Some(r) ==> r < i,
            old(self).count < usize::MAX,
        ensures
            selected && old(self).limit_reached() ==> d == LineDecision::Stop && *final(self) == *old(self),
            selected && !old(self).limit_reached() ==> {
                &&& d == LineDecision::Window(old(self).window_start(i as int) as usize)
                &&& final(self).before == old(self).before
                &&& final(self).after == old(self).after
                &&& final(self).max_count == old(self).max_count
                &&& final(self).count == old(self).count + 1
                &&& final(self).last_match == Some(i)
            },
            !selected && old(self).in_after_context(i as int) ==> d == LineDecision::Context && *final(self)
                == *old(self),
            !selected && !old(self).in_after_context(i as int) ==> d == LineDecision::Hide && *final(self)
                == *old(self),
            d matches LineDecision::Window(lo) ==> lo <= i,
    {
        if selected {
            let reached = match self.max_count {
                Some(k) => self.count >= k,
                None => false,
            };
            if reached {
                return LineDecision::Stop;
            }
            let upto: usize = match self.last_match {
                None => 0,
                Some(r) => if i - r > self.after {
                    r + self.after + 1
                } else {
                    i
                },
            };
            let lo: usize = if i >= self.before && i - self.before > upto {
                i - self.before
            } else {
                upto
            };
            self.count = self.count + 1;
            self.last_match = Some(i);
            LineDecision::Window(lo)
        } else {
            let show = match self.last_match {
                None => false,
                Some(r) => i - r <= self.after,
            };
            if show {
                LineDecision::Context
            } else {
                LineDecision::Hide
            }
        }
    }
}

} // verus!
