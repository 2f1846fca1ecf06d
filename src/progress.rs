//! Tracks whether a cook operation is running, and its last reported
//! counters, from the raw text of log lines.
use vstd::prelude::*;

use crate::text::{chars_of, contains, find, find_in, is_digit, lower_all, lower_seq, skip_spaces, skip_ws};

verus! {

#[derive(Clone, Copy, Debug, PartialEq, Eq, Structural)]
pub struct ProgressState {
    pub active: bool,
    pub completed: u64,
    pub remaining: u64,
    pub total: u64,
}

/// The first index at or after `j` that does not hold an ASCII digit.
pub open spec fn digit_end(s: Seq<char>, j: int) -> int
    decreases s.len() - j,
{
    if j < 0 || j >= s.len() || !is_digit(s[j]) {
        j
    } else {
        digit_end(s, j + 1)
    }
}

/// The decimal value of a run of ASCII digits.
pub open spec fn digits_value(s: Seq<char>) -> nat
    decreases s.len(),
{
    if s.len() == 0 {
        0
    } else {
        digits_value(s.drop_last()) * 10 + ((s.last() as u32) - ('0' as u32)) as nat
    }
}

/// The number written right after the first `key` in `hay`, whitespace
/// skipped; none when no digit follows or the value does not fit in `u64`.
pub open spec fn number_after(hay: Seq<char>, key: Seq<char>) -> Option<u64> {
    match find(hay, key) {
        None => None,
        Some(i) => {
            let j = skip_ws(hay, i + key.len());
            let d = digit_end(hay, j);
            if d == j || digits_value(hay.subrange(j, d)) > u64::MAX {
                None
            } else {
                Some(digits_value(hay.subrange(j, d)) as u64)
            }
        },
    }
}

/// Counters of a progress line: completed, remaining and total, each 0 when
/// its label is absent or its number unreadable.
pub open spec fn cook_progress_of(s: Seq<char>) -> Option<(u64, u64, u64)> {
    let l = lower_seq(s);
    let c = number_after(l, "cooked packages "@);
    let r = number_after(l, "packages remain "@);
    let t = number_after(l, "total "@);
    if c is None && r is None {
        None
    } else {
        let cv: u64 = match c {
            Some(v) => v,
            None => 0,
        };
        let rv: u64 = match r {
            Some(v) => v,
            None => 0,
        };
        let tv: u64 = match t {
            Some(v) => v,
            None => 0,
        };
        Some((cv, rv, tv))
    }
}

/// `a + b`, or `u64::MAX` when the sum does not fit.
pub open spec fn saturating_sum(a: u64, b: u64) -> u64 {
    if a + b > u64::MAX {
        u64::MAX
    } else {
        (a + b) as u64
    }
}

/// The tracker's state after seeing the line `s`. Without a readable total
/// on the line, the total is taken as completed plus remaining.
pub open spec fn progress_step(p: ProgressState, s: Seq<char>) -> ProgressState {
    let l = lower_seq(s);
    if contains(l, "cook command completed"@) {
        ProgressState { active: false, ..p }
    } else if contains(l, "cook command started"@) {
        ProgressState { active: true, completed: 0, remaining: 0, total: 0 }
    } else {
        match cook_progress_of(s) {
            Some((c, r, t)) => ProgressState {
                active: true,
                completed: c,
                remaining: r,
                total: if number_after(l, "total "@) is Some {
                    t
                } else {
                    saturating_sum(c, r)
                },
            },
            None => p,
        }
    }
}

proof fn lemma_digit_end_bounds(s: Seq<char>, j: int)
    requires
        0 <= j <= s.len(),
    ensures
        j <= digit_end(s, j) <= s.len(),
        forall|k: int| j <= k < digit_end(s, j) ==> is_digit(#[trigger] s[k]),
    decreases s.len() - j,
{
    if j < s.len() && is_digit(s[j]) {
        lemma_digit_end_bounds(s, j + 1);
    }
}

proof fn lemma_digits_prefix_le(s: Seq<char>, k: int)
    requires
        0 <= k <= s.len(),
        forall|m: int| 0 <= m < s.len() ==> is_digit(#[trigger] s[m]),
    ensures
        digits_value(s.take(k)) <= digits_value(s),
    decreases s.len() - k,
{
    if k < s.len() {
        lemma_digits_prefix_le(s, k + 1);
        assert(s.take(k + 1).drop_last() =~= s.take(k));
    } else {
        assert(s.take(k) =~= s);
    }
}

/// The number right after the first `key` in `hay`.
fn find_number_after(hay: &Vec<char>, key: &Vec<char>) -> (r: Option<u64>)
    ensures
        r == number_after(hay@, key@),
{
    let i = match find_in(hay, key) {
        None => {
            return None;
        },
        Some(i) => i,
    };
    proof {
        crate::text::lemma_find_bounds(hay@, key@);
    }
    assert(find(hay@, key@) == Some(i as int));
    assert(i + key.len() <= hay.len());
    let j = skip_spaces(hay, i + key.len());
    proof {
        lemma_digit_end_bounds(hay@, j as int);
    }
    let ghost d = digit_end(hay@, j as int);
    let ghost run = hay@.subrange(j as int, d);
    assert forall|m: int| 0 <= m < run.len() implies is_digit(#[trigger] run[m]) by {
        assert(run[m] == hay@[j + m]);
    }
    let mut k: usize = j;
    let mut value: u64 = 0;
    while k < hay.len() && '0' <= hay[k] && hay[k] <= '9'
        invariant
            j <= k <= d <= hay@.len(),
            run == hay@.subrange(j as int, d),
            find(hay@, key@) == Some(i as int),
            j == skip_ws(hay@, i + key@.len()),
            forall|m: int| 0 <= m < run.len() ==> is_digit(#[trigger] run[m]),
            digit_end(hay@, j as int) == d,
            digit_end(hay@, j as int) == digit_end(hay@, k as int),
            value as nat == digits_value(run.take(k - j)),
        decreases hay@.len() - k,
    {
        proof {
            lemma_digit_end_bounds(hay@, k + 1);
        }
        assert(digit_end(hay@, k as int) == digit_end(hay@, k + 1));
        let digit = (hay[k] as u32 - '0' as u32) as u64;
        assert(run.take(k + 1 - j).drop_last() =~= run.take(k - j));
        assert(run.take(k + 1 - j).last() == hay@[k as int]);
        if value > (u64::MAX - digit) / 10 {
            assert(value * 10 + digit > u64::MAX) by (nonlinear_arith)
                requires
                    value > (u64::MAX - digit) / 10,
                    digit <= 9,
            ;
            assert(digits_value(run.take(k + 1 - j)) == digits_value(run.take(k - j)) * 10 + digit);
            proof {
                lemma_digits_prefix_le(run, k + 1 - j);
            }
            return None;
        }
        value = value * 10 + digit;
        k = k + 1;
    }
    if k == j {
        return None;
    }
    assert(run.take(k - j) =~= run);
    Some(value)
}

/// Counters of a progress line such as
/// `Cooked packages 816 Packages Remain 4532 Total 5348`; none when neither
/// the completed nor the remaining count is there. A missing count is 0.
pub fn parse_cook_progress_line(s: &str) -> (r: Option<(u64, u64, u64)>)
    ensures
        r == cook_progress_of(s@),
{
    let cs = chars_of(s);
    let l = lower_all(&cs);
    let cooked = find_number_after(&l, &chars_of("cooked packages "));
    let remain = find_number_after(&l, &chars_of("packages remain "));
    let total = find_number_after(&l, &chars_of("total "));
    if cooked.is_none() && remain.is_none() {
        return None;
    }
    let c: u64 = match cooked {
        Some(v) => v,
        None => 0,
    };
    let rm: u64 = match remain {
        Some(v) => v,
        None => 0,
    };
    let t: u64 = match total {
        Some(v) => v,
        None => 0,
    };
    Some((c, rm, t))
}

impl ProgressState {
    pub fn new() -> (r: ProgressState)
        ensures
            r == (ProgressState { active: false, completed: 0, remaining: 0, total: 0 }),
    {
        ProgressState { active: false, completed: 0, remaining: 0, total: 0 }
    }

    /// Updates the state from the raw text of one line.
    pub fn update_cook_state(&mut self, text: &str)
        ensures
            *final(self) == progress_step(*old(self), text@),
    {
        let cs = chars_of(text);
        let lower = lower_all(&cs);
        if find_in(&lower, &chars_of("cook command completed")).is_some() {
            self.active = false;
            return;
        }
        if find_in(&lower, &chars_of("cook command started")).is_some() {
            self.active = true;
            self.completed = 0;
            self.remaining = 0;
            self.total = 0;
            return;
        }
        if let Some((c, r, t)) = parse_cook_progress_line(text) {
            let explicit = find_number_after(&lower, &chars_of("total ")).is_some();
            self.active = true;
            self.completed = c;
            self.remaining = r;
            self.total = if explicit {
                t
            } else {
                c.saturating_add(r)
            };
        }
    }
}

} // verus!
