//! The decisions of a tail worker: where reading resumes, when the file was
//! rotated or truncated, and which records the appended bytes complete. The
//! caller stats and reads the file and hands the results in.
use vstd::prelude::*;

use crate::decoder::{carry_after, lines_after, LineDecoder};
use crate::parser::{parse_line, parses_to, LogLine};

verus! {

/// What a stat of the watched file reported. Times are nanoseconds since the
/// Unix epoch, when the platform gives them.
#[derive(Clone, Copy, Debug, PartialEq, Eq)]
pub struct FileStat {
    pub len: u64,
    pub created: Option<u128>,
    pub modified: Option<u128>,
}

/// A read the worker asks for: `count` bytes from byte `offset`.
#[derive(Clone, Copy, Debug, PartialEq, Eq, Structural)]
pub struct ReadRequest {
    pub offset: u64,
    pub count: u64,
}

/// The state of a tail worker, as plain values.
pub ghost struct TailModel {
    pub offset: int,
    pub carry: Seq<u8>,
    pub last_created: Option<u128>,
    pub last_modified: Option<u128>,
}

/// The tail worker's state between polls.
pub struct TailState {
    /// Bytes of the file already consumed.
    pub offset: u64,
    pub decoder: LineDecoder,
    pub last_created: Option<u128>,
    pub last_modified: Option<u128>,
}

/// Whether the creation time changed since it was last seen.
pub open spec fn recreated(last: Option<u128>, cur: Option<u128>) -> bool {
    match (last, cur) {
        (Some(p), Some(c)) => c != p,
        _ => false,
    }
}

/// Whether the modification time went backwards.
pub open spec fn went_back(last: Option<u128>, cur: Option<u128>) -> bool {
    match (last, cur) {
        (Some(p), Some(c)) => c < p,
        _ => false,
    }
}

pub open spec fn or_else(cur: Option<u128>, last: Option<u128>) -> Option<u128> {
    match cur {
        Some(c) => Some(c),
        None => last,
    }
}

/// The state after a stat, and the read it calls for.
pub open spec fn stat_step(m: TailModel, stat: Option<FileStat>) -> (TailModel, Option<ReadRequest>) {
    match stat {
        None => (TailModel { last_created: None, last_modified: None, ..m }, None),
        Some(st) => {
            let rotated = recreated(m.last_created, st.created) || went_back(
                m.last_modified,
                st.modified,
            );
            let shrunk = !rotated && m.offset > st.len;
            let m1 = TailModel {
                offset: if rotated || shrunk {
                    0
                } else {
                    m.offset
                },
                carry: if rotated || shrunk {
                    seq![]
                } else {
                    m.carry
                },
                last_created: or_else(st.created, m.last_created),
                last_modified: or_else(st.modified, m.last_modified),
            };
            let req = if st.len > m1.offset {
                Some(ReadRequest { offset: m1.offset as u64, count: (st.len - m1.offset) as u64 })
            } else {
                None
            };
            (m1, req)
        },
    }
}

/// The state after `data` was read at the current offset.
pub open spec fn read_step(m: TailModel, data: Seq<u8>) -> TailModel {
    TailModel { offset: m.offset + data.len(), carry: carry_after(m.carry, data), ..m }
}

/// The texts of the lines that reading `data` completes.
pub open spec fn read_lines(m: TailModel, data: Seq<u8>) -> Seq<Seq<char>> {
    lines_after(m.carry, data)
}

/// Rotation reset: after a stat that reports a file shorter than the bytes
/// already consumed, reading restarts at byte zero with nothing carried
/// over, so reading the new file's bytes completes exactly the lines that a
/// fresh worker reading the whole new file in one go would.
pub proof fn lemma_rotation_reset(m: TailModel, st: FileStat, data: Seq<u8>)
    requires
        m.offset > 0,
        st.len < m.offset,
        data.len() == st.len,
    ensures
        stat_step(m, Some(st)).0.offset == 0,
        stat_step(m, Some(st)).0.carry == Seq::<u8>::empty(),
        st.len > 0 ==> stat_step(m, Some(st)).1 == Some(ReadRequest { offset: 0, count: st.len }),
        st.len == 0 ==> stat_step(m, Some(st)).1 is None,
        read_lines(stat_step(m, Some(st)).0, data) == lines_after(seq![], data),
        read_step(stat_step(m, Some(st)).0, data).offset == st.len,
        read_step(stat_step(m, Some(st)).0, data).carry == carry_after(seq![], data),
{
}

impl TailState {
    pub open spec fn model(&self) -> TailModel {
        TailModel {
            offset: self.offset as int,
            carry: self.decoder.carry@,
            last_created: self.last_created,
            last_modified: self.last_modified,
        }
    }

    /// A worker that starts at the end of the file (`initial_len`), or at its
    /// start when the file does not exist yet.
    pub fn start(initial_len: Option<u64>) -> (r: TailState)
        ensures
            r.model() == (TailModel {
                offset: match initial_len {
                    Some(l) => l as int,
                    None => 0,
                },
                carry: seq![],
                last_created: None,
                last_modified: None,
            }),
    {
        let offset = match initial_len {
            Some(l) => l,
            None => 0,
        };
        TailState { offset, decoder: LineDecoder::new(), last_created: None, last_modified: None }
    }

    /// Skips to the end of the file (`len`, when it could be read) and drops
    /// the pending partial line.
    pub fn reset_to_end(&mut self, len: Option<u64>)
        ensures
            final(self).model() == (TailModel {
                offset: match len {
                    Some(l) => l as int,
                    None => old(self).offset as int,
                },
                carry: seq![],
                ..old(self).model()
            }),
    {
        if let Some(l) = len {
            self.offset = l;
        }
        self.decoder.clear();
    }

    /// Takes in a stat of the file (none when it is absent) and says which
    /// bytes to read next.
    pub fn on_stat(&mut self, stat: Option<FileStat>) -> (r: Option<ReadRequest>)
        ensures
            (final(self).model(), r) == stat_step(old(self).model(), stat),
    {
        match stat {
            None => {
                self.last_created = None;
                self.last_modified = None;
                None
            },
            Some(st) => {
                let recreated = match (self.last_created, st.created) {
                    (Some(p), Some(c)) => c != p,
                    _ => false,
                };
                let went_back = match (self.last_modified, st.modified) {
                    (Some(p), Some(c)) => c < p,
                    _ => false,
                };
                if recreated || went_back || self.offset > st.len {
                    self.offset = 0;
                    self.decoder.clear();
                }
                if st.created.is_some() {
                    self.last_created = st.created;
                }
                if st.modified.is_some() {
                    self.last_modified = st.modified;
                }
                if st.len > self.offset {
                    Some(ReadRequest { offset: self.offset, count: st.len - self.offset })
                } else {
                    None
                }
            },
        }
    }

    /// Takes in the bytes read at the current offset and returns the records
    /// of the lines they complete.
    pub fn on_read(&mut self, data: &[u8]) -> (r: Vec<LogLine>)
        requires
            old(self).offset + data@.len() <= u64::MAX,
        ensures
            final(self).model() == read_step(old(self).model(), data@),
            r@.len() == read_lines(old(self).model(), data@).len(),
            forall|i: int|
                0 <= i < r@.len() ==> parses_to(read_lines(old(self).model(), data@)[i], #[trigger] r@[i]),
    {
        self.offset = self.offset + data.len() as u64;
        let texts = self.decoder.feed(data);
        let mut out: Vec<LogLine> = Vec::new();
        let mut i: usize = 0;
        while i < texts.len()
            invariant
                i <= texts@.len(),
                out@.len() == i,
                forall|k: int| 0 <= k < i ==> parses_to(texts@[k]@, #[trigger] out@[k]),
            decreases texts@.len() - i,
        {
            out.push(parse_line(texts[i].as_str()));
            i = i + 1;
        }
        assert(forall|k: int| 0 <= k < texts@.len() ==> texts@[k]@ == #[trigger] crate::decoder::views(texts@)[k]);
        out
    }
}

} // verus!
