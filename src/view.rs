//! The scrollback buffer and the cursor over it: a capped window of recent
//! lines, a category filter, and a scroll offset counted from the bottom.
//! The same addressing serves rendering and pointer hit-testing.
use vstd::prelude::*;

use std::collections::VecDeque;

use crate::parser::LogLine;
use crate::text::{chars_of, opt_view, string_of};

verus! {

/// How many lines the scrollback keeps by default.
pub const SCROLLBACK_CAP: usize = 20000;

/// A rectangle of terminal cells.
#[derive(Clone, Copy, Debug, PartialEq, Eq, Structural)]
pub struct Area {
    pub x: u16,
    pub y: u16,
    pub width: u16,
    pub height: u16,
}

/// `s` with `x` appended, then cut to its last `cap` items.
pub open spec fn capped_push<T>(s: Seq<T>, x: T, cap: nat) -> Seq<T> {
    let t = s.push(x);
    if t.len() > cap {
        t.skip(t.len() - cap)
    } else {
        t
    }
}

/// `s` after appending each item of `xs` in turn, with the cap.
pub open spec fn capped_push_all<T>(s: Seq<T>, xs: Seq<T>, cap: nat) -> Seq<T>
    decreases xs.len(),
{
    if xs.len() == 0 {
        s
    } else {
        capped_push(capped_push_all(s, xs.drop_last(), cap), xs.last(), cap)
    }
}

/// How many items appending one item to `len` items evicts.
pub open spec fn overflow(len: nat, cap: nat) -> nat {
    if len + 1 > cap {
        (len + 1 - cap) as nat
    } else {
        0
    }
}

/// `a - b`, or zero when `b` is larger; a scroll offset after `b` lines
/// left the top, or after scrolling `b` lines down.
pub open spec fn saturating_diff(a: nat, b: nat) -> nat {
    if a > b {
        (a - b) as nat
    } else {
        0
    }
}

/// Whether line `l` passes the filter.
pub open spec fn passes(l: LogLine, filter: Option<Seq<char>>) -> bool {
    match filter {
        None => true,
        Some(f) => opt_view(l.category) == Some(f),
    }
}

/// Indices of the lines that pass the filter, in order.
pub open spec fn filtered(lines: Seq<LogLine>, filter: Option<Seq<char>>) -> Seq<int>
    decreases lines.len(),
{
    if lines.len() == 0 {
        seq![]
    } else if passes(lines.last(), filter) {
        filtered(lines.drop_last(), filter).push(lines.len() - 1)
    } else {
        filtered(lines.drop_last(), filter)
    }
}

/// The window `[start, end)` of a sequence of `total` items shown in
/// `height` rows, `scroll` items up from the bottom.
pub open spec fn visible_range(total: int, height: int, scroll: int) -> (int, int) {
    let end = if total > scroll {
        total - scroll
    } else {
        0
    };
    let start = if end > height {
        end - height
    } else {
        0
    };
    (start, end)
}

/// The columns `[start, end)`, counted from the left of the content area,
/// that a line's category token `Category:` occupies when rendered.
pub open spec fn category_span(l: LogLine, show_timestamp: bool) -> Option<(int, int)> {
    match l.category {
        None => None,
        Some(cat) => {
            let ts_len: int = match l.timestamp {
                Some(ts) => if show_timestamp {
                    ts@.len() + 3int
                } else {
                    0
                },
                None => 0,
            };
            Some((ts_len, ts_len + cat@.len() + 1))
        },
    }
}

/// Whether the cell `(col, row)` lies inside `a` but off its border.
pub open spec fn inside_content(a: Area, col: int, row: int) -> bool {
    a.x + 1 <= col < a.x + a.width - 1 && a.y + 1 <= row < a.y + a.height - 1
}

/// The category whose rendered token holds the cell `(col, row)`, if any.
pub open spec fn clicked_category(
    lines: Seq<LogLine>,
    filter: Option<Seq<char>>,
    scroll: int,
    a: Area,
    col: int,
    row: int,
    show_timestamp: bool,
) -> Option<Seq<char>> {
    if !inside_content(a, col, row) {
        None
    } else {
        let idx = filtered(lines, filter);
        let (start, end) = visible_range(idx.len() as int, a.height - 2, scroll);
        let k = start + (row - (a.y + 1));
        if k < end {
            let l = lines[idx[k]];
            match category_span(l, show_timestamp) {
                Some((from, to)) => {
                    let x = col - (a.x + 1);
                    if from <= x < to {
                        opt_view(l.category)
                    } else {
                        None
                    }
                },
                None => None,
            }
        } else {
            None
        }
    }
}

/// Scrollback lines, category filter and scroll offset of one view.
pub struct ViewState {
    lines: VecDeque<LogLine>,
    cap: usize,
    scroll_from_bottom: usize,
    category_filter: Option<String>,
}

impl ViewState {
    pub closed spec fn lines_view(&self) -> Seq<LogLine> {
        self.lines@
    }

    pub closed spec fn cap_view(&self) -> nat {
        self.cap as nat
    }

    pub closed spec fn scroll_view(&self) -> nat {
        self.scroll_from_bottom as nat
    }

    pub closed spec fn filter_view(&self) -> Option<Seq<char>> {
        opt_view(self.category_filter)
    }

    /// The buffer never holds more lines than its cap.
    pub closed spec fn wf(&self) -> bool {
        self.lines@.len() <= self.cap
    }

    /// An empty view keeping at most `cap` lines.
    pub fn with_cap(cap: usize) -> (r: ViewState)
        ensures
            r.wf(),
            r.lines_view() == Seq::<LogLine>::empty(),
            r.cap_view() == cap,
            r.scroll_view() == 0,
            r.filter_view() is None,
    {
        ViewState { lines: VecDeque::new(), cap, scroll_from_bottom: 0, category_filter: None }
    }

    /// An empty view with the default cap.
    pub fn new() -> (r: ViewState)
        ensures
            r.wf(),
            r.lines_view() == Seq::<LogLine>::empty(),
            r.cap_view() == SCROLLBACK_CAP,
            r.scroll_view() == 0,
            r.filter_view() is None,
    {
        ViewState::with_cap(SCROLLBACK_CAP)
    }

    pub fn len(&self) -> (r: usize)
        ensures
            r == self.lines_view().len(),
    {
        self.lines.len()
    }

    pub fn line(&self, i: usize) -> (r: &LogLine)
        requires
            i < self.lines_view().len(),
        ensures
            *r == self.lines_view()[i as int],
    {
        &self.lines[i]
    }

    pub fn scroll_from_bottom(&self) -> (r: usize)
        ensures
            r == self.scroll_view(),
    {
        self.scroll_from_bottom
    }

    pub fn category_filter(&self) -> (r: &Option<String>)
        ensures
            opt_view(*r) == self.filter_view(),
    {
        &self.category_filter
    }

    /// Appends a line. When the buffer goes over its cap the oldest lines
    /// are evicted, and a scrolled-back offset goes down by their number (not
    /// below zero) so that the window stays on the same lines.
    pub fn push_line(&mut self, line: LogLine)
        requires
            old(self).wf(),
        ensures
            final(self).wf(),
            final(self).lines_view() == capped_push(
                old(self).lines_view(),
                line,
                old(self).cap_view(),
            ),
            final(self).scroll_view() == saturating_diff(
                old(self).scroll_view(),
                overflow(old(self).lines_view().len(), old(self).cap_view()),
            ),
            final(self).cap_view() == old(self).cap_view(),
            final(self).filter_view() == old(self).filter_view(),
    {
        self.lines.push_back(line);
        if self.lines.len() > self.cap {
            let excess = self.lines.len() - self.cap;
            let ghost t = self.lines@;
            self.lines.pop_front();
            assert(self.lines@ =~= t.skip(1));
            if self.scroll_from_bottom > excess {
                self.scroll_from_bottom = self.scroll_from_bottom - excess;
            } else {
                self.scroll_from_bottom = 0;
            }
        }
    }

    /// Empties the buffer and returns to the bottom.
    pub fn clear(&mut self)
        requires
            old(self).wf(),
        ensures
            final(self).wf(),
            final(self).lines_view() == Seq::<LogLine>::empty(),
            final(self).scroll_view() == 0,
            final(self).cap_view() == old(self).cap_view(),
            final(self).filter_view() == old(self).filter_view(),
    {
        self.lines = VecDeque::new();
        self.scroll_from_bottom = 0;
    }

    /// Scrolls `n` lines back in history, at most to the first line.
    pub fn scroll_up(&mut self, n: usize)
        requires
            old(self).wf(),
        ensures
            final(self).wf(),
            final(self).scroll_view() == if old(self).scroll_view() + n < old(
                self,
            ).lines_view().len() {
                old(self).scroll_view() + n
            } else {
                old(self).lines_view().len() as int
            },
            final(self).lines_view() == old(self).lines_view(),
            final(self).cap_view() == old(self).cap_view(),
            final(self).filter_view() == old(self).filter_view(),
    {
        let len = self.lines.len();
        if self.scroll_from_bottom < len && n < len - self.scroll_from_bottom {
            self.scroll_from_bottom = self.scroll_from_bottom + n;
        } else {
            self.scroll_from_bottom = len;
        }
    }

    /// Scrolls `n` lines towards the bottom, not past it.
    pub fn scroll_down(&mut self, n: usize)
        requires
            old(self).wf(),
        ensures
            final(self).wf(),
            final(self).scroll_view() == saturating_diff(old(self).scroll_view(), n as nat),
            final(self).lines_view() == old(self).lines_view(),
            final(self).cap_view() == old(self).cap_view(),
            final(self).filter_view() == old(self).filter_view(),
    {
        self.scroll_from_bottom = self.scroll_from_bottom.saturating_sub(n);
    }

    /// Jumps to the first line.
    pub fn scroll_to_top(&mut self)
        requires
            old(self).wf(),
        ensures
            final(self).wf(),
            final(self).scroll_view() == old(self).lines_view().len(),
            final(self).lines_view() == old(self).lines_view(),
            final(self).cap_view() == old(self).cap_view(),
            final(self).filter_view() == old(self).filter_view(),
    {
        self.scroll_from_bottom = self.lines.len();
    }

    /// Jumps back to the live tail.
    pub fn scroll_to_bottom(&mut self)
        requires
            old(self).wf(),
        ensures
            final(self).wf(),
            final(self).scroll_view() == 0,
            final(self).lines_view() == old(self).lines_view(),
            final(self).cap_view() == old(self).cap_view(),
            final(self).filter_view() == old(self).filter_view(),
    {
        self.scroll_from_bottom = 0;
    }

    /// Sets or clears the category filter.
    pub fn set_filter(&mut self, filter: Option<String>)
        requires
            old(self).wf(),
        ensures
            final(self).wf(),
            final(self).filter_view() == opt_view(filter),
            final(self).scroll_view() == old(self).scroll_view(),
            final(self).lines_view() == old(self).lines_view(),
            final(self).cap_view() == old(self).cap_view(),
    {
        self.category_filter = filter;
    }

    /// Indices of the lines that pass the filter, in order.
    pub fn filtered_indices(&self) -> (r: Vec<usize>)
        ensures
            r@.map_values(|i: usize| i as int) == filtered(self.lines_view(), self.filter_view()),
    {
        let mut out: Vec<usize> = Vec::new();
        let mut i: usize = 0;
        while i < self.lines.len()
            invariant
                i <= self.lines@.len(),
                out@.map_values(|i: usize| i as int) == filtered(
                    self.lines@.take(i as int),
                    opt_view(self.category_filter),
                ),
            decreases self.lines@.len() - i,
        {
            let ghost before = out@;
            assert(self.lines@.take(i + 1).drop_last() =~= self.lines@.take(i as int));
            assert(self.lines@.take(i + 1).last() == self.lines@[i as int]);
            if line_passes(&self.lines[i], &self.category_filter) {
                out.push(i);
                assert(out@.map_values(|i: usize| i as int) =~= before.map_values(
                    |i: usize| i as int,
                ).push(i as int));
            }
            i = i + 1;
        }
        assert(self.lines@.take(self.lines@.len() as int) =~= self.lines@);
        out
    }

    /// Indices of the lines shown in a content area `height` rows tall, top
    /// to bottom.
    pub fn visible_indices(&self, height: usize) -> (r: Vec<usize>)
        ensures
            ({
                let idx = filtered(self.lines_view(), self.filter_view());
                let (start, end) = visible_range(
                    idx.len() as int,
                    height as int,
                    self.scroll_view() as int,
                );
                r@.map_values(|i: usize| i as int) == idx.subrange(start, end)
            }),
            forall|k: int| 0 <= k < r@.len() ==> #[trigger] r@[k] < self.lines_view().len(),
    {
        let idx = self.filtered_indices();
        proof {
            lemma_filtered_in_bounds(self.lines@, opt_view(self.category_filter));
        }
        let (start, end) = visible_window(idx.len(), height, self.scroll_from_bottom);
        let mut out: Vec<usize> = Vec::new();
        let mut k: usize = start;
        let ghost iv = idx@.map_values(|i: usize| i as int);
        while k < end
            invariant
                start <= k <= end <= idx@.len(),
                iv == idx@.map_values(|i: usize| i as int),
                out@.map_values(|i: usize| i as int) == iv.subrange(start as int, k as int),
                forall|m: int| 0 <= m < iv.len() ==> 0 <= #[trigger] iv[m] < self.lines@.len(),
                forall|m: int| 0 <= m < out@.len() ==> #[trigger] out@[m] < self.lines@.len(),
            decreases end - k,
        {
            let ghost before = out@;
            out.push(idx[k]);
            assert(iv[k as int] == idx@[k as int] as int);
            assert(out@.map_values(|i: usize| i as int) =~= before.map_values(|i: usize| i as int).push(
                iv[k as int],
            ));
            assert(out@.map_values(|i: usize| i as int) =~= iv.subrange(start as int, k + 1));
            k = k + 1;
        }
        out
    }

    /// Reacts to a click on the cell `(col, row)` of the log area `a`: a
    /// click on a rendered category token filters on that category and
    /// returns to the bottom; any other click changes nothing. Returns
    /// whether the filter was set.
    pub fn click(&mut self, a: Area, col: u16, row: u16, show_timestamp: bool) -> (r: bool)
        requires
            old(self).wf(),
        ensures
            final(self).wf(),
            r == clicked_category(
                old(self).lines_view(),
                old(self).filter_view(),
                old(self).scroll_view() as int,
                a,
                col as int,
                row as int,
                show_timestamp,
            ) is Some,
            match clicked_category(
                old(self).lines_view(),
                old(self).filter_view(),
                old(self).scroll_view() as int,
                a,
                col as int,
                row as int,
                show_timestamp,
            ) {
                Some(c) => final(self).filter_view() == Some(c) && final(self).scroll_view() == 0,
                None => final(self).filter_view() == old(self).filter_view()
                    && final(self).scroll_view() == old(self).scroll_view(),
            },
            final(self).lines_view() == old(self).lines_view(),
            final(self).cap_view() == old(self).cap_view(),
    {
        let x0 = a.x as u32;
        let y0 = a.y as u32;
        let c = col as u32;
        let rw = row as u32;
        if !(c >= x0 + 1 && c + 1 < x0 + a.width as u32 && rw >= y0 + 1 && rw + 1 < y0
            + a.height as u32) {
            return false;
        }
        let idx = self.filtered_indices();
        let h = (a.height - 2) as usize;
        let (start, end) = visible_window(idx.len(), h, self.scroll_from_bottom);
        let offset_row = (rw - (y0 + 1)) as usize;
        if offset_row >= end - start {
            return false;
        }
        let k = start + offset_row;
        proof {
            lemma_filtered_in_bounds(self.lines@, opt_view(self.category_filter));
        }
        let li = idx[k];
        assert(idx@.map_values(|i: usize| i as int)[k as int] == idx@[k as int] as int);
        let x = (c - (x0 + 1)) as usize;
        if !on_category_token(&self.lines[li], show_timestamp, x) {
            return false;
        }
        let cat = match &self.lines[li].category {
            Some(s) => s.clone(),
            None => {
                return false;
            },
        };
        self.category_filter = Some(cat);
        self.scroll_from_bottom = 0;
        true
    }
}

/// The window `[start, end)` of `total` items shown in `height` rows,
/// `scroll` items up from the bottom.
pub fn visible_window(total: usize, height: usize, scroll: usize) -> (r: (usize, usize))
    ensures
        r.0 as int == visible_range(total as int, height as int, scroll as int).0,
        r.1 as int == visible_range(total as int, height as int, scroll as int).1,
        r.0 <= r.1 <= total,
{
    let end = total.saturating_sub(scroll);
    let start = end.saturating_sub(height);
    (start, end)
}

/// Whether column `x` of the content area falls on the rendered category
/// token of `l`.
pub fn on_category_token(l: &LogLine, show_timestamp: bool, x: usize) -> (r: bool)
    ensures
        r == (category_span(*l, show_timestamp) matches Some((from, to)) && from <= x < to),
{
    match &l.category {
        None => false,
        Some(cat) => {
            let mut rel = x;
            if show_timestamp {
                if let Some(ts) = &l.timestamp {
                    let tl = char_count(ts);
                    if x < 3 || x - 3 < tl {
                        return false;
                    }
                    rel = x - 3 - tl;
                }
            }
            rel <= char_count(cat)
        },
    }
}

fn char_count(s: &String) -> (r: usize)
    ensures
        r == s@.len(),
{
    let cs = chars_of(s.as_str());
    cs.len()
}

fn line_passes(l: &LogLine, filter: &Option<String>) -> (r: bool)
    ensures
        r == passes(*l, opt_view(*filter)),
{
    match filter {
        None => true,
        Some(f) => match &l.category {
            Some(c) => *c == *f,
            None => false,
        },
    }
}

proof fn lemma_filtered_in_bounds(lines: Seq<LogLine>, filter: Option<Seq<char>>)
    ensures
        forall|k: int|
            0 <= k < filtered(lines, filter).len() ==> 0 <= #[trigger] filtered(lines, filter)[k]
                < lines.len(),
    decreases lines.len(),
{
    if lines.len() > 0 {
        lemma_filtered_in_bounds(lines.drop_last(), filter);
        let prev = filtered(lines.drop_last(), filter);
        assert forall|k: int| 0 <= k < filtered(lines, filter).len() implies 0
            <= #[trigger] filtered(lines, filter)[k] < lines.len() by {
            if k < prev.len() {
                assert(filtered(lines, filter)[k] == prev[k]);
            }
        }
    }
}

/// Filter hit-test: on a content row that shows a line with a category, a
/// click whose column falls within the rendered `Category:` token selects
/// that category, and a click on any other column of the row selects none.
/// (`click` then sets the filter and returns to the bottom, or changes
/// nothing.)
pub proof fn lemma_click_on_token(
    lines: Seq<LogLine>,
    filter: Option<Seq<char>>,
    scroll: int,
    a: Area,
    col: int,
    row: int,
    show_timestamp: bool,
)
    requires
        inside_content(a, col, row),
        ({
            let idx = filtered(lines, filter);
            let (start, end) = visible_range(idx.len() as int, a.height - 2, scroll);
            start + (row - (a.y + 1)) < end && lines[idx[start + (row - (a.y + 1))]].category is Some
        }),
    ensures
        ({
            let idx = filtered(lines, filter);
            let (start, end) = visible_range(idx.len() as int, a.height - 2, scroll);
            let l = lines[idx[start + (row - (a.y + 1))]];
            let (from, to) = category_span(l, show_timestamp)->Some_0;
            let x = col - (a.x + 1);
            &&& from <= x < to ==> clicked_category(lines, filter, scroll, a, col, row, show_timestamp)
                == Some(l.category->Some_0@)
            &&& !(from <= x < to) ==> clicked_category(
                lines,
                filter,
                scroll,
                a,
                col,
                row,
                show_timestamp,
            ) is None
        }),
{
}

/// Capacity invariant: appending any sequence of lines to a buffer within
/// its cap keeps it within the cap, and what it holds is exactly the last
/// `cap` of the old contents followed by the new lines, in arrival order.
pub proof fn lemma_capacity<T>(s: Seq<T>, xs: Seq<T>, cap: nat)
    requires
        s.len() <= cap,
    ensures
        capped_push_all(s, xs, cap).len() <= cap,
        capped_push_all(s, xs, cap) == if s.len() + xs.len() > cap {
            (s + xs).skip(s.len() + xs.len() - cap)
        } else {
            s + xs
        },
    decreases xs.len(),
{
    if xs.len() == 0 {
        assert(s + xs =~= s);
    } else {
        lemma_capacity(s, xs.drop_last(), cap);
        let prev = capped_push_all(s, xs.drop_last(), cap);
        assert((s + xs.drop_last()).push(xs.last()) =~= s + xs);
        if s.len() + xs.len() - 1 > cap {
            assert(prev.push(xs.last()).skip(1) =~= (s + xs).skip(s.len() + xs.len() - cap));
        } else if s.len() + xs.len() > cap {
            assert(prev.push(xs.last()).skip(1) =~= (s + xs).skip(s.len() + xs.len() - cap));
        }
    }
}

/// A message cut to fit `width - prefix_len` columns: one that is too long
/// keeps its first characters and ends in `...`, within the room when there
/// are at least three columns.
pub open spec fn fitted(msg: Seq<char>, width: int, prefix_len: int) -> Seq<char> {
    let room = if width > prefix_len {
        width - prefix_len
    } else {
        0
    };
    if msg.len() > room {
        let keep = if room >= 3 {
            room - 3
        } else {
            room
        };
        msg.take(keep) + "..."@
    } else {
        msg
    }
}

/// Cuts a message for display without wrapping.
pub fn fit_message(msg: &str, width: usize, prefix_len: usize) -> (r: String)
    ensures
        r@ == fitted(msg@, width as int, prefix_len as int),
{
    let cs = chars_of(msg);
    let room = width.saturating_sub(prefix_len);
    if cs.len() > room {
        let keep = if room >= 3 {
            room - 3
        } else {
            room
        };
        let head = string_of(cs.as_slice(), 0, keep);
        crate::text::concat_str(head.as_str(), "...")
    } else {
        msg.to_owned()
    }
}

} // verus!
