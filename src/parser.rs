//! Splits one log line into its timestamp, category and message, and
//! classifies its severity.
use vstd::prelude::*;

use crate::text::{
    chars_of, contains, find_in, index_of, index_of_from, lower_all, lower_seq, opt_view,
    skip_ascii_spaces, skip_ascii_ws, skip_spaces, skip_ws, string_of,
};

verus! {

#[derive(Clone, Copy, Debug, PartialEq, Eq, Structural)]
pub enum Severity {
    Normal,
    Warning,
    Error,
}

/// One parsed log record.
#[derive(Clone, Debug)]
pub struct LogLine {
    /// The line as read, without its line terminator.
    pub text: String,
    pub severity: Severity,
    /// Content of a leading `[...]` group.
    pub timestamp: Option<String>,
    /// A leading token without spaces, followed by `:`.
    pub category: Option<String>,
    /// The rest of the line after the timestamp and category.
    pub message: String,
}

/// Case-insensitive severity: "error" wins over "warning".
pub open spec fn severity_of(s: Seq<char>) -> Severity {
    if contains(lower_seq(s), "error"@) {
        Severity::Error
    } else if contains(lower_seq(s), "warning"@) {
        Severity::Warning
    } else {
        Severity::Normal
    }
}

/// The index of the `]` that closes a leading timestamp group.
pub open spec fn ts_close(s: Seq<char>) -> Option<int> {
    if s.len() > 0 && s[0] == '[' {
        index_of_from(s, ']', 0)
    } else {
        None
    }
}

pub open spec fn timestamp_of(s: Seq<char>) -> Option<Seq<char>> {
    match ts_close(s) {
        Some(e) => Some(s.subrange(1, e)),
        None => None,
    }
}

/// Where the remaining text begins: after the timestamp, the optional
/// second bracket group and the whitespace after each; at the start of the
/// line when there is no timestamp.
pub open spec fn after_brackets(s: Seq<char>) -> int {
    match ts_close(s) {
        None => 0,
        Some(e) => {
            let p = skip_ascii_ws(s, e + 1);
            if p < s.len() && s[p] == '[' {
                match index_of_from(s, ']', p) {
                    Some(e2) => skip_ascii_ws(s, e2 + 1),
                    None => p,
                }
            } else {
                p
            }
        },
    }
}

pub open spec fn space_free(s: Seq<char>, from: int, to: int) -> bool {
    forall|k: int| from <= k < to ==> s[k] != ' '
}

/// The colon that ends the category, when the remaining text has one.
pub open spec fn category_colon(s: Seq<char>) -> Option<int> {
    match index_of_from(s, ':', after_brackets(s)) {
        Some(c) => if c > after_brackets(s) && space_free(s, after_brackets(s), c) {
            Some(c)
        } else {
            None
        },
        None => None,
    }
}

pub open spec fn category_of(s: Seq<char>) -> Option<Seq<char>> {
    match category_colon(s) {
        Some(c) => Some(s.subrange(after_brackets(s), c)),
        None => None,
    }
}

/// Where the message begins: after the category's colon and the whitespace
/// that follows it; else where the remaining text begins, which is the
/// start of the line when there is no timestamp.
pub open spec fn msg_start(s: Seq<char>) -> int {
    match category_colon(s) {
        Some(c) => skip_ws(s, c + 1),
        None => after_brackets(s),
    }
}

pub open spec fn message_of(s: Seq<char>) -> Seq<char> {
    s.subrange(msg_start(s), s.len() as int)
}

/// The record that `parse_line` builds from the text `s`.
pub open spec fn parsed(s: Seq<char>) -> (Option<Seq<char>>, Option<Seq<char>>, Seq<char>) {
    (timestamp_of(s), category_of(s), message_of(s))
}

/// Whether `l` is the record that parsing `s` gives.
pub open spec fn parses_to(s: Seq<char>, l: LogLine) -> bool {
    &&& l.text@ == s
    &&& l.severity == severity_of(s)
    &&& opt_view(l.timestamp) == timestamp_of(s)
    &&& opt_view(l.category) == category_of(s)
    &&& l.message@ == message_of(s)
}

proof fn lemma_skip_ascii_bounds(s: Seq<char>, i: int)
    requires
        0 <= i <= s.len(),
    ensures
        i <= skip_ascii_ws(s, i) <= s.len(),
    decreases s.len() - i,
{
    if i < s.len() && crate::text::is_ascii_ws(s[i]) {
        lemma_skip_ascii_bounds(s, i + 1);
    }
}

proof fn lemma_skip_ws_bounds(s: Seq<char>, i: int)
    requires
        0 <= i <= s.len(),
    ensures
        i <= skip_ws(s, i) <= s.len(),
    decreases s.len() - i,
{
    if i < s.len() && crate::text::is_ws(s[i]) {
        lemma_skip_ws_bounds(s, i + 1);
    }
}

proof fn lemma_index_of_bounds(s: Seq<char>, c: char, i: int)
    requires
        0 <= i,
    ensures
        index_of_from(s, c, i) matches Some(k) ==> i <= k < s.len() && s[k] == c,
    decreases s.len() - i,
{
    if i < s.len() && s[i] != c {
        lemma_index_of_bounds(s, c, i + 1);
    }
}

/// The positions that the parse works with all lie within the line, in order.
pub proof fn lemma_positions(s: Seq<char>)
    ensures
        0 <= after_brackets(s) <= s.len(),
        ts_close(s) matches Some(e) ==> 1 <= e < after_brackets(s),
        category_colon(s) matches Some(c) ==> after_brackets(s) < c < msg_start(s) <= s.len(),
        category_colon(s) is None ==> 0 <= msg_start(s) <= s.len(),
{
    lemma_index_of_bounds(s, ']', 0);
    match ts_close(s) {
        None => {},
        Some(e) => {
            lemma_skip_ascii_bounds(s, e + 1);
            let p = skip_ascii_ws(s, e + 1);
            lemma_index_of_bounds(s, ']', p);
            if p < s.len() && s[p] == '[' {
                match index_of_from(s, ']', p) {
                    Some(e2) => lemma_skip_ascii_bounds(s, e2 + 1),
                    None => {},
                }
            }
        },
    }
    lemma_index_of_bounds(s, ':', after_brackets(s));
    match category_colon(s) {
        Some(c) => {
            lemma_skip_ws_bounds(s, c + 1);
        },
        None => {},
    }
}

/// A category is never empty and never holds a space.
pub proof fn lemma_category_shape(s: Seq<char>)
    ensures
        category_of(s) matches Some(c) ==> c.len() > 0 && forall|i: int|
            0 <= i < c.len() ==> #[trigger] c[i] != ' ',
{
    lemma_positions(s);
    if let Some(c) = category_colon(s) {
        let cat = s.subrange(after_brackets(s), c);
        assert forall|i: int| 0 <= i < cat.len() implies #[trigger] cat[i] != ' ' by {
            assert(cat[i] == s[after_brackets(s) + i]);
        }
    }
}

/// Parsing the message again strips nothing twice. The message is the part
/// of the line after every token that the first parse extracted, so a second
/// parse can only find tokens that followed them in the line; and a line from
/// which nothing was extracted is its own message and parses the same again.
pub proof fn lemma_reparse_message(s: Seq<char>)
    ensures
        0 <= msg_start(s) <= s.len(),
        message_of(s) == s.subrange(msg_start(s), s.len() as int),
        ts_close(s) matches Some(e) ==> e < msg_start(s),
        category_colon(s) matches Some(c) ==> c < msg_start(s),
        timestamp_of(s) is None && category_of(s) is None ==> message_of(s) == s && parsed(
            message_of(s),
        ) == parsed(s),
{
    lemma_positions(s);
    if timestamp_of(s) is None && category_of(s) is None {
        assert(s.subrange(0, s.len() as int) =~= s);
    }
}

/// Whether `s[from..to]` holds no space.
fn no_space(s: &Vec<char>, from: usize, to: usize) -> (r: bool)
    requires
        from <= to <= s@.len(),
    ensures
        r == space_free(s@, from as int, to as int),
{
    let mut k: usize = from;
    while k < to
        invariant
            from <= k <= to <= s@.len(),
            space_free(s@, from as int, k as int),
        decreases to - k,
    {
        if s[k] == ' ' {
            return false;
        }
        k = k + 1;
    }
    true
}

/// Severity of a line: "error" anywhere, in any ASCII case, makes it an
/// error; otherwise "warning" makes it a warning.
pub fn classify_line(s: &str) -> (r: Severity)
    ensures
        r == severity_of(s@),
{
    let cs = chars_of(s);
    let lower = lower_all(&cs);
    let error = chars_of("error");
    let warning = chars_of("warning");
    if find_in(&lower, &error).is_some() {
        Severity::Error
    } else if find_in(&lower, &warning).is_some() {
        Severity::Warning
    } else {
        Severity::Normal
    }
}

/// Timestamp, category and message of a line.
pub fn parse_log_components(s: &str) -> (r: (Option<String>, Option<String>, String))
    ensures
        opt_view(r.0) == timestamp_of(s@),
        opt_view(r.1) == category_of(s@),
        r.2@ == message_of(s@),
{
    let cs = chars_of(s);
    let ghost v = cs@;
    proof {
        lemma_positions(v);
        lemma_index_of_bounds(v, ']', 0);
    }
    let mut ts: Option<String> = None;
    let mut pos: usize = 0;
    if cs.len() > 0 && cs[0] == '[' {
        if let Some(end) = index_of(&cs, ']', 0) {
            ts = Some(string_of(cs.as_slice(), 1, end));
            proof {
                lemma_skip_ascii_bounds(v, end + 1);
            }
            pos = skip_ascii_spaces(&cs, end + 1);
            if pos < cs.len() && cs[pos] == '[' {
                proof {
                    lemma_index_of_bounds(v, ']', pos as int);
                }
                if let Some(end2) = index_of(&cs, ']', pos) {
                    proof {
                        lemma_skip_ascii_bounds(v, end2 + 1);
                    }
                    pos = skip_ascii_spaces(&cs, end2 + 1);
                }
            }
        }
    }
    assert(pos == after_brackets(v));
    let body = pos;
    let mut category: Option<String> = None;
    let mut message = string_of(cs.as_slice(), body, cs.len());
    proof {
        lemma_index_of_bounds(v, ':', body as int);
    }
    if let Some(colon) = index_of(&cs, ':', body) {
        if colon > body && no_space(&cs, body, colon) {
            category = Some(string_of(cs.as_slice(), body, colon));
            proof {
                lemma_skip_ws_bounds(v, colon + 1);
            }
            let m = skip_spaces(&cs, colon + 1);
            message = string_of(cs.as_slice(), m, cs.len());
        }
    }
    (ts, category, message)
}

/// Parses one line into a record.
pub fn parse_line(s: &str) -> (r: LogLine)
    ensures
        parses_to(s@, r),
{
    let severity = classify_line(s);
    let (timestamp, category, message) = parse_log_components(s);
    LogLine { text: s.to_owned(), severity, timestamp, category, message }
}

impl LogLine {
    /// What the log view shows after the timestamp and category: the message
    /// when either was found, else the whole line.
    pub fn display_text(&self) -> (r: &String)
        ensures
            *r == if self.category.is_some() || self.timestamp.is_some() {
                self.message
            } else {
                self.text
            },
    {
        if self.category.is_some() || self.timestamp.is_some() {
            &self.message
        } else {
            &self.text
        }
    }
}

} // verus!
