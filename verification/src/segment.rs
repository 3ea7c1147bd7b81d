//! Bounded, offset-tracked sequential accessors over the fixed segments:
//! a byte-or-bulk reader for the public-input segment and an all-or-nothing
//! writer for the output and logging segments.

use vstd::prelude::*;
use crate::layout::MemoryLayout;
use crate::layout::Segments;

verus! {

/// The bytes a read returns, as a function of the segment contents, the
/// cursor, and the mode: past the end nothing; exhausting yields every
/// remaining byte; otherwise exactly one byte.
pub open spec fn spec_read_result(contents: Seq<u8>, offset: int, exhaust: bool) -> Option<
    Seq<u8>,
> {
    if offset < 0 || offset >= contents.len() {
        None
    } else if exhaust {
        Some(contents.subrange(offset, contents.len() as int))
    } else {
        Some(seq![contents[offset]])
    }
}

/// Where the cursor stands after a read: unchanged past the end, at the end
/// after exhausting, one further after a single-byte read.
pub open spec fn spec_read_next_offset(contents: Seq<u8>, offset: int, exhaust: bool) -> int {
    if 0 <= offset < contents.len() {
        if exhaust {
            contents.len() as int
        } else {
            offset + 1
        }
    } else {
        offset
    }
}

/// A write is accepted exactly when the cursor plus the payload stays
/// strictly below the segment's maximum length; a payload that would fill
/// the segment exactly is refused, so one byte always stays free.
pub open spec fn spec_write_accepted(offset: int, n: int, max_length: int) -> bool {
    offset + n < max_length
}

/// The bytes a segment holds after a write: extended by the payload when the
/// write is accepted, untouched otherwise.
pub open spec fn spec_write_step(written: Seq<u8>, bytes: Seq<u8>, max_length: int) -> Seq<u8> {
    if spec_write_accepted(written.len() as int, bytes.len() as int, max_length) {
        written + bytes
    } else {
        written
    }
}

/// Stateful cursor over the public-input segment. The host populates the
/// segment before the program starts; the caller that binds the reader hands
/// the segment's bytes in.
pub struct SegmentReader {
    /// Base address the reader is bound to.
    pub base: usize,
    /// The segment's contents; its length is the segment's maximum length.
    pub data: Vec<u8>,
    /// Next unconsumed byte position; monotone, never reset.
    pub offset: usize,
}

/// Stateful cursor over the public-output or public-logging segment.
pub struct SegmentWriter {
    /// Base address the writer is bound to.
    pub base: usize,
    /// Maximum length of the segment.
    pub max_length: usize,
    /// Bytes accepted so far; the cursor offset is their count.
    pub written: Vec<u8>,
}

/// Bind the reader for the public-input segment: the cursor starts at zero
/// and `contents` holds the segment's bytes as the host populated them.
pub fn read_segment(layout: &MemoryLayout, contents: Vec<u8>) -> (r: SegmentReader)
    requires
        contents@.len() == layout.input_size,
    ensures
        r.base == layout.input_start,
        r.data@ == contents@,
        r.offset == 0,
{
    SegmentReader { base: layout.input_start, data: contents, offset: 0 }
}

/// Bind the writer for one of the two write segments; the public-input
/// segment is not writable.
pub fn write_segment(layout: &MemoryLayout, segment: Segments) -> (r: SegmentWriter)
    requires
        segment != Segments::PublicInput,
    ensures
        r.base as int == layout.seg_base(segment),
        r.max_length as int == layout.seg_len(segment),
        r.written@ == Seq::<u8>::empty(),
{
    match segment {
        Segments::PublicOutput => SegmentWriter {
            base: layout.output_start,
            max_length: layout.output_size,
            written: Vec::new(),
        },
        Segments::PublicLogging => SegmentWriter {
            base: layout.log_start,
            max_length: layout.log_size,
            written: Vec::new(),
        },
        Segments::PublicInput => unreached(),
    }
}

impl SegmentReader {
    /// Read from the segment. With `exhaust` set, every remaining byte comes
    /// back in one call and the segment is left exhausted; otherwise one
    /// byte comes back and the cursor advances by one. Past the end the call
    /// returns `None` and changes nothing.
    pub fn fetch_at_offset(&mut self, exhaust: bool) -> (r: Option<Vec<u8>>)
        ensures
            r is Some <==> spec_read_result(
                old(self).data@,
                old(self).offset as int,
                exhaust,
            ) is Some,
            r matches Some(v) ==> Some(v@) == spec_read_result(
                old(self).data@,
                old(self).offset as int,
                exhaust,
            ),
            final(self).offset as int == spec_read_next_offset(
                old(self).data@,
                old(self).offset as int,
                exhaust,
            ),
            final(self).data@ == old(self).data@,
            final(self).base == old(self).base,
            final(self).offset >= old(self).offset,
    {
        if self.offset >= self.data.len() {
            return None;
        }
        if exhaust {
            let mut out: Vec<u8> = Vec::new();
            let mut i: usize = self.offset;
            while i < self.data.len()
                invariant
                    old(self).offset <= i <= self.data@.len(),
                    self.data@ == old(self).data@,
                    self.offset == old(self).offset,
                    self.base == old(self).base,
                    out@ == self.data@.subrange(old(self).offset as int, i as int),
                decreases self.data@.len() - i,
            {
                let b: u8 = self.data[i];
                out.push(b);
                i = i + 1;
                proof {
                    assert(out@ =~= self.data@.subrange(old(self).offset as int, i as int));
                }
            }
            self.offset = self.data.len();
            Some(out)
        } else {
            let b: u8 = self.data[self.offset];
            let mut out: Vec<u8> = Vec::new();
            out.push(b);
            self.offset = self.offset + 1;
            proof {
                assert(out@ =~= seq![old(self).data@[old(self).offset as int]]);
            }
            Some(out)
        }
    }
}

impl SegmentWriter {
    /// Write the whole payload at the cursor, or nothing: the payload is
    /// accepted exactly when the cursor plus its length stays strictly below
    /// the segment's maximum length, and then the cursor advances by the
    /// payload's length.
    pub fn set_at_offset(&mut self, bytes: &[u8]) -> (r: bool)
        ensures
            r <==> spec_write_accepted(
                old(self).written@.len() as int,
                bytes@.len() as int,
                old(self).max_length as int,
            ),
            final(self).written@ == spec_write_step(
                old(self).written@,
                bytes@,
                old(self).max_length as int,
            ),
            final(self).base == old(self).base,
            final(self).max_length == old(self).max_length,
            final(self).written@.len() >= old(self).written@.len(),
    {
        if self.written.len() >= self.max_length {
            return false;
        }
        if bytes.len() >= self.max_length - self.written.len() {
            return false;
        }
        let mut i: usize = 0;
        while i < bytes.len()
            invariant
                0 <= i <= bytes@.len(),
                self.base == old(self).base,
                self.max_length == old(self).max_length,
                self.written@ == old(self).written@ + bytes@.subrange(0, i as int),
            decreases bytes@.len() - i,
        {
            let b: u8 = bytes[i];
            self.written.push(b);
            i = i + 1;
            proof {
                assert(self.written@ =~= old(self).written@ + bytes@.subrange(0, i as int));
            }
        }
        proof {
            assert(bytes@.subrange(0, bytes@.len() as int) =~= bytes@);
        }
        true
    }
}

/// The cursor after `n` single-byte reads that start from the beginning of
/// the segment.
pub open spec fn offset_after_byte_reads(contents: Seq<u8>, n: nat) -> int
    decreases n,
{
    if n == 0 {
        0
    } else {
        spec_read_next_offset(contents, offset_after_byte_reads(contents, (n - 1) as nat), false)
    }
}

/// Law: reading byte by byte from the start succeeds exactly `len` times,
/// handing byte `n` back on the `n`-th read, and yields `None` forever after.
pub proof fn lemma_byte_reads_drain(contents: Seq<u8>, n: nat)
    ensures
        offset_after_byte_reads(contents, n) == if n <= contents.len() {
            n as int
        } else {
            contents.len() as int
        },
        n < contents.len() ==> spec_read_result(contents, offset_after_byte_reads(contents, n), false)
            == Some(seq![contents[n as int]]),
        n >= contents.len() ==> spec_read_result(
            contents,
            offset_after_byte_reads(contents, n),
            false,
        ) is None,
    decreases n,
{
    if n > 0 {
        lemma_byte_reads_drain(contents, (n - 1) as nat);
    }
}

/// Law: on a non-empty segment, one exhausting read at the start returns the
/// whole segment in one call, parks the cursor at the end, and any further
/// read, in either mode, yields `None`.
pub proof fn lemma_exhaust_drains(contents: Seq<u8>, again_exhaust: bool)
    requires
        contents.len() > 0,
    ensures
        spec_read_result(contents, 0, true) == Some(contents),
        spec_read_next_offset(contents, 0, true) == contents.len() as int,
        spec_read_result(contents, contents.len() as int, again_exhaust) is None,
{
    assert(contents.subrange(0, contents.len() as int) =~= contents);
}

/// Law: sequential accepted writes accumulate; writing `a` and then `b` into
/// an empty segment leaves exactly `a` followed by `b`, with the cursor at
/// the sum of their lengths — it never resets.
pub proof fn lemma_writes_accumulate(a: Seq<u8>, b: Seq<u8>, max_length: int)
    requires
        a.len() + b.len() < max_length,
    ensures
        spec_write_accepted(0, a.len() as int, max_length),
        spec_write_accepted(a.len() as int, b.len() as int, max_length),
        spec_write_step(spec_write_step(Seq::<u8>::empty(), a, max_length), b, max_length) == a
            + b,
        spec_write_step(
            spec_write_step(Seq::<u8>::empty(), a, max_length),
            b,
            max_length,
        ).len() == a.len() + b.len(),
{
    assert(Seq::<u8>::empty() + a =~= a);
}

} // verus!
