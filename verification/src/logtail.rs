//! Reading the end of a log file backwards in chunks, with a hard cap on
//! how much is read, and turning what was read into the last lines shown.
//!
//! The reader is a state machine: it says which chunk to read next (or
//! that it is done), the caller reads that chunk and hands it back.

use vstd::prelude::*;
use crate::text::{chars_of, string_of, append, append_str, lines, join_lines, lines_of, views};

verus! {

/// Bytes read per step.
pub const TAIL_CHUNK_SIZE: u64 = 8192;

/// The window at the end of the file beyond which reading stops.
pub const TAIL_MAX_BYTES: u64 = 524288;

/// Count of `b` in `s`.
pub open spec fn count_byte(s: Seq<u8>, b: u8) -> nat
    decreases s.len(),
{
    if s.len() == 0 {
        0
    } else {
        count_byte(s.drop_last(), b) + if s.last() == b { 1nat } else { 0nat }
    }
}

proof fn lemma_count_byte_le(s: Seq<u8>, b: u8)
    ensures
        count_byte(s, b) <= s.len(),
    decreases s.len(),
{
    if s.len() > 0 {
        lemma_count_byte_le(s.drop_last(), b);
    }
}

/// The number of `'\n'` bytes in `s`.
pub fn count_newlines(s: &[u8]) -> (r: u64)
    requires
        s.len() <= u64::MAX,
    ensures
        r == count_byte(s@, 10u8),
{
    let mut r: u64 = 0;
    let mut i: usize = 0;
    while i < s.len()
        invariant
            i <= s.len(),
            s.len() <= u64::MAX,
            r == count_byte(s@.take(i as int), 10u8),
        decreases s.len() - i,
    {
        proof {
            assert(s@.take(i + 1).drop_last() =~= s@.take(i as int));
            lemma_count_byte_le(s@.take(i as int), 10u8);
        }
        if s[i] == 10u8 {
            r = r + 1;
        }
        i += 1;
    }
    assert(s@.take(s.len() as int) =~= s@);
    r
}

/// Where a backwards read of a file stands.
pub struct TailReader {
    /// Size of the file.
    pub file_size: u64,
    /// Start of the part read so far; everything from here to the end is read.
    pub pos: u64,
    /// Line breaks in the part read so far.
    pub newlines: u64,
    /// Bytes read so far.
    pub buffered: u64,
    /// Whether reading stopped at the size cap.
    pub truncated: bool,
}

/// What the caller does next.
pub enum TailAction {
    /// Read `len` bytes at `offset` and hand them to `absorb`.
    Read { offset: u64, len: u64 },
    /// Stop reading.
    Finish,
}

/// The size of the next chunk when reading back from `pos`.
pub open spec fn chunk_len(pos: u64) -> u64 {
    if pos < TAIL_CHUNK_SIZE { pos } else { TAIL_CHUNK_SIZE }
}

impl TailReader {
    /// The part read is always a suffix of the file, its line breaks are
    /// among its bytes, and the cap is only ever overshot by one chunk.
    pub open spec fn wf(&self) -> bool {
        &&& self.pos + self.buffered == self.file_size
        &&& self.newlines <= self.buffered
        &&& self.buffered < TAIL_MAX_BYTES + TAIL_CHUNK_SIZE
        &&& self.truncated == (self.buffered >= TAIL_MAX_BYTES)
    }

    /// Whether reading goes on while `lines` lines are wanted: not past the
    /// cap, not at the start of the file, and no more than `lines` breaks seen.
    pub open spec fn wants_more(&self, lines: usize) -> bool {
        !self.truncated && self.pos > 0 && self.newlines <= lines
    }

    /// A reader at the end of a file of `file_size` bytes, nothing read.
    pub fn new(file_size: u64) -> (r: TailReader)
        ensures
            r.wf(),
            r.file_size == file_size,
            r.pos == file_size,
            r.newlines == 0,
            r.buffered == 0,
            !r.truncated,
    {
        TailReader { file_size, pos: file_size, newlines: 0, buffered: 0, truncated: false }
    }

    /// The next step when the last `lines` lines are wanted: the chunk just
    /// before what was read (at most `TAIL_CHUNK_SIZE` bytes), or the end.
    pub fn next_action(&self, lines: usize) -> (a: TailAction)
        requires
            self.wf(),
        ensures
            self.wants_more(lines) ==> a == (TailAction::Read {
                offset: (self.pos - chunk_len(self.pos)) as u64,
                len: chunk_len(self.pos),
            }),
            !self.wants_more(lines) ==> a is Finish,
    {
        if !self.truncated && self.pos > 0 && self.newlines <= lines as u64 {
            let len = if self.pos < TAIL_CHUNK_SIZE { self.pos } else { TAIL_CHUNK_SIZE };
            TailAction::Read { offset: self.pos - len, len }
        } else {
            TailAction::Finish
        }
    }

    /// Takes in the chunk asked for by `next_action`.
    pub fn absorb(&mut self, chunk: &[u8])
        requires
            old(self).wf(),
            !old(self).truncated,
            old(self).pos > 0,
            chunk.len() == chunk_len(old(self).pos),
        ensures
            final(self).wf(),
            final(self).file_size == old(self).file_size,
            final(self).pos == old(self).pos - chunk.len(),
            final(self).buffered == old(self).buffered + chunk.len(),
            final(self).newlines == old(self).newlines + count_byte(chunk@, 10u8),
            final(self).truncated == (final(self).buffered >= TAIL_MAX_BYTES),
    {
        let n = count_newlines(chunk);
        proof {
            lemma_count_byte_le(chunk@, 10u8);
        }
        let len = chunk.len() as u64;
        self.pos = self.pos - len;
        self.newlines = self.newlines + n;
        self.buffered = self.buffered + len;
        self.truncated = self.buffered >= TAIL_MAX_BYTES;
    }
}

/// Each step of the reader shrinks what is left to read, so reading ends;
/// and however many steps it takes, what was read is a suffix of the file
/// and at most one chunk beyond the cap.
pub proof fn law_tail_reader_progress(r: TailReader, chunk: Seq<u8>, lines: usize)
    requires
        r.wf(),
        r.wants_more(lines),
        chunk.len() == chunk_len(r.pos),
    ensures
        chunk.len() > 0,
        r.pos - chunk.len() >= 0,
        r.buffered + chunk.len() <= TAIL_MAX_BYTES + TAIL_CHUNK_SIZE,
{
}

/// The notice put above a tail cut short by the cap.
pub open spec fn tail_cap_notice() -> Seq<char> {
    "[... 日志过大，仅显示末尾 512 KB ...]\n"@
}

/// The last `n` lines of `content`, joined by `'\n'`, under the cap notice
/// when the read was cut short.
pub open spec fn spec_tail_text(content: Seq<char>, n: nat, truncated: bool) -> Seq<char> {
    let all = lines(content);
    let start = if all.len() > n { all.len() - n } else { 0 };
    let body = join_lines(all.skip(start));
    if truncated { tail_cap_notice() + body } else { body }
}

/// What a log tail shows, from the text read.
pub fn tail_text(content: &str, n: usize, truncated: bool) -> (r: String)
    ensures
        r@ == spec_tail_text(content@, n as nat, truncated),
{
    let all = lines_of(&chars_of(content));
    let start: usize = if all.len() > n { all.len() - n } else { 0 };
    let mut kept: Vec<Vec<char>> = Vec::new();
    let mut i: usize = start;
    while i < all.len()
        invariant
            start <= i <= all.len(),
            views(kept@) == views(all@).subrange(start as int, i as int),
        decreases all.len() - i,
    {
        let ghost k0 = views(kept@);
        let line = slice_clone(&all[i]);
        kept.push(line);
        assert(views(kept@) =~= k0.push(all@[i as int]@));
        i += 1;
        assert(views(all@).subrange(start as int, i as int) =~= views(all@).subrange(
            start as int,
            (i - 1) as int,
        ).push(views(all@)[i - 1]));
    }
    assert(views(all@).subrange(start as int, all.len() as int) =~= views(all@).skip(start as int));
    let body = crate::text::join_lines_of(&kept);
    if truncated {
        let mut out: Vec<char> = Vec::new();
        append_str(&mut out, "[... 日志过大，仅显示末尾 512 KB ...]\n");
        append(&mut out, &body);
        string_of(&out)
    } else {
        string_of(&body)
    }
}

fn slice_clone(v: &Vec<char>) -> (r: Vec<char>)
    ensures
        r@ == v@,
{
    crate::text::slice_of(v, 0, v.len())
}

} // verus!
