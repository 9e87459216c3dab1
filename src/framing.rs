use vstd::bytes::{spec_u32_from_le_bytes, spec_u64_from_le_bytes, u32_from_le_bytes, u64_from_le_bytes};
use vstd::prelude::*;
use vstd::slice::slice_subrange;

verus! {

/// Length of the fixed record header: checksum, identifier, offset and size.
pub const HEADER_LEN: u32 = 20;

/// The little-endian `u32` stored at `data[p..p + 4]`.
pub open spec fn word_at(data: Seq<u8>, p: int) -> u32 {
    spec_u32_from_le_bytes(data.subrange(p, p + 4))
}

/// The little-endian `u64` stored at `data[p..p + 8]`.
pub open spec fn dword_at(data: Seq<u8>, p: int) -> u64 {
    spec_u64_from_le_bytes(data.subrange(p, p + 8))
}

/// Number of padding bytes that follow a record of `size` bytes, so that the
/// record with its padding ends on a 16-byte boundary.
pub open spec fn padding_len(size: u32) -> int {
    (16 - (size as int % 16)) % 16
}

/// Where the header of the next record starts when reading from `pos`: every
/// 4-byte field that reads as zero is filler and is stepped over.
pub open spec fn header_start(data: Seq<u8>, pos: int) -> int
    decreases data.len() - pos,
{
    if 0 <= pos && pos + 4 <= data.len() && word_at(data, pos) == 0 {
        header_start(data, pos + 4)
    } else {
        pos
    }
}

/// Header fields of one record.
#[derive(Clone, Copy, Debug, PartialEq, Eq, Structural)]
pub struct RecordHeader {
    pub hash: u32,
    pub id: u32,
    pub offset: u64,
    pub size: u32,
}

/// What framing finds at a position of the stream.
#[derive(Clone, Copy, Debug, PartialEq, Eq, Structural)]
pub enum Frame {
    /// A whole record: its header starts at `start`, its body is
    /// `body_start..body_end`, and the next record may start at `next`.
    Record { header: RecordHeader, start: usize, body_start: usize, body_end: usize, next: usize },
    /// No more records: the stream ends at a 4-byte boundary of a header, or
    /// inside the body or padding of the last record.
    End,
    /// The stream ends inside a header field of the record that starts at `at`.
    Truncated { at: usize },
    /// The header that starts at `at` declares a size below the header's own
    /// length.
    SizeUnderflow { at: usize, size: u32 },
}

/// What framing finds when reading from `pos`.
pub open spec fn frame_at(data: Seq<u8>, pos: int) -> Frame {
    let p = header_start(data, pos);
    let rem = data.len() - p;
    if rem < 20 {
        if rem % 4 == 0 {
            Frame::End
        } else {
            Frame::Truncated { at: p as usize }
        }
    } else {
        let size = word_at(data, p + 16);
        if size < 20 {
            Frame::SizeUnderflow { at: p as usize, size }
        } else if rem < size + padding_len(size) {
            Frame::End
        } else {
            Frame::Record {
                header: RecordHeader {
                    hash: word_at(data, p),
                    id: word_at(data, p + 4),
                    offset: dword_at(data, p + 8),
                    size,
                },
                start: p as usize,
                body_start: (p + 20) as usize,
                body_end: (p + size) as usize,
                next: (p + size + padding_len(size)) as usize,
            }
        }
    }
}

/// The bytes that a frame hands to the descriptor decoder: the body of a
/// record, nothing for any other frame.
pub open spec fn body_of(data: Seq<u8>, f: Frame) -> Seq<u8> {
    match f {
        Frame::Record { body_start, body_end, .. } => data.subrange(
            body_start as int,
            body_end as int,
        ),
        _ => Seq::empty(),
    }
}

/// Filler skipping stays inside the stream and moves in whole fields.
pub(crate) proof fn lemma_header_start_bounds(data: Seq<u8>, pos: int)
    requires
        0 <= pos <= data.len(),
    ensures
        pos <= header_start(data, pos) <= data.len(),
        (header_start(data, pos) - pos) % 4 == 0,
    decreases data.len() - pos,
{
    if pos + 4 <= data.len() && word_at(data, pos) == 0 {
        lemma_header_start_bounds(data, pos + 4);
    }
}

/// Padding brings a record of at least the header's length to the next
/// multiple of 16 bytes, and is shorter than 16 bytes.
pub proof fn lemma_padding_aligns(s: u32)
    requires
        s >= 20,
    ensures
        padding_len(s) == (16 - (s % 16)) % 16,
        0 <= padding_len(s) < 16,
        (s + padding_len(s)) % 16 == 0,
{
}

/// Filler fields are skipped one at a time: `n` zero fields at `pos` lead to
/// the same header, and the same frame, as reading from just after them.
pub proof fn lemma_zero_fill_skipped(data: Seq<u8>, pos: int, n: nat)
    requires
        0 <= pos,
        pos + 4 * n <= data.len(),
        forall|i: int| 0 <= i < n ==> #[trigger] word_at(data, pos + 4 * i) == 0,
    ensures
        header_start(data, pos) == header_start(data, pos + 4 * n),
        frame_at(data, pos) == frame_at(data, pos + 4 * n),
    decreases n,
{
    if n > 0 {
        assert(word_at(data, pos + 4 * 0) == 0);
        assert(pos + 4 * 0 == pos);
        assert forall|i: int| 0 <= i < n - 1 implies #[trigger] word_at(data, (pos + 4) + 4 * i)
            == 0 by {
            assert((pos + 4) + 4 * i == pos + 4 * (i + 1));
            assert(word_at(data, pos + 4 * (i + 1)) == 0);
        }
        lemma_zero_fill_skipped(data, pos + 4, (n - 1) as nat);
        assert(pos + 4 + 4 * (n - 1) == pos + 4 * n);
    }
}

/// A stream that stops 0, 4, 8, 12 or 16 bytes after `pos`, that is at a
/// field boundary of a header, ends the sequence with no error.
pub proof fn lemma_end_at_field_boundary(data: Seq<u8>, pos: int)
    requires
        0 <= pos <= data.len(),
        data.len() - pos < 20,
        (data.len() - pos) % 4 == 0,
    ensures
        frame_at(data, pos) == Frame::End,
{
    lemma_header_start_bounds(data, pos);
}

/// Once a whole header that declares more than 20 bytes has been read at
/// `p`, a stream too short for the body and padding ends the sequence with
/// no error.
pub proof fn lemma_end_mid_body(data: Seq<u8>, p: int)
    requires
        0 <= p,
        p + 20 <= data.len(),
        word_at(data, p) != 0,
        word_at(data, p + 16) > 20,
        data.len() < p + word_at(data, p + 16) + padding_len(word_at(data, p + 16)),
    ensures
        frame_at(data, p) == Frame::End,
{
    assert(header_start(data, p) == p);
}

/// A record that declares exactly the header's length hands an empty body to
/// the decoder.
pub proof fn lemma_minimal_record_body_empty(data: Seq<u8>, pos: int)
    requires
        0 <= pos <= data.len(),
        frame_at(data, pos) is Record,
        frame_at(data, pos)->Record_header.size == 20,
    ensures
        body_of(data, frame_at(data, pos)) == Seq::<u8>::empty(),
{
    let p = header_start(data, pos);
    lemma_header_start_bounds(data, pos);
    assert(word_at(data, p + 16) == 20);
    let f = frame_at(data, pos);
    assert(f->Record_body_start == f->Record_body_end);
    assert(body_of(data, f) =~= Seq::<u8>::empty());
}

/// A header at `p` that declares fewer bytes than the header's own length is
/// reported as a size underflow carrying that size.
pub proof fn lemma_declared_size_underflow(data: Seq<u8>, p: int)
    requires
        0 <= p,
        p + 20 <= data.len(),
        word_at(data, p) != 0,
        word_at(data, p + 16) < 20,
    ensures
        frame_at(data, p) == (Frame::SizeUnderflow { at: p as usize, size: word_at(data, p + 16) }),
{
    assert(header_start(data, p) == p);
}

/// Reads the little-endian `u32` at `data[p..p + 4]`.
pub fn read_u32_le(data: &[u8], p: usize) -> (r: u32)
    requires
        p + 4 <= data@.len(),
    ensures
        r == word_at(data@, p as int),
{
    let _n = data.len();
    u32_from_le_bytes(slice_subrange(data, p, p + 4))
}

fn read_u64_le(data: &[u8], p: usize) -> (r: u64)
    requires
        p + 8 <= data@.len(),
    ensures
        r == dword_at(data@, p as int),
{
    let _n = data.len();
    u64_from_le_bytes(slice_subrange(data, p, p + 8))
}

/// Padding that follows a record of `size` bytes.
pub fn padding_for(size: u32) -> (r: u32)
    ensures
        r as int == padding_len(size),
        r < 16,
{
    (16 - size % 16) % 16
}

/// Frames the record that the stream holds from `pos` on.
pub fn next_frame(data: &[u8], pos: usize) -> (r: Frame)
    requires
        pos <= data@.len(),
    ensures
        r == frame_at(data@, pos as int),
        r matches Frame::Record { header, .. } ==> header.hash != 0,
{
    let mut p: usize = pos;
    loop
        invariant
            pos <= p <= data@.len(),
            header_start(data@, p as int) == header_start(data@, pos as int),
        ensures
            pos <= p <= data@.len(),
            header_start(data@, pos as int) == p,
            data@.len() - p >= 4 ==> word_at(data@, p as int) != 0,
        decreases data@.len() - p,
    {
        if data.len() - p < 4 {
            assert(header_start(data@, p as int) == p);
            break;
        }
        let w = read_u32_le(data, p);
        if w != 0 {
            assert(header_start(data@, p as int) == p);
            break;
        }
        p = p + 4;
    }
    let rem: usize = data.len() - p;
    if rem < 20 {
        if rem % 4 == 0 {
            return Frame::End;
        } else {
            return Frame::Truncated { at: p };
        }
    }
    let hash = read_u32_le(data, p);
    let id = read_u32_le(data, p + 4);
    let offset = read_u64_le(data, p + 8);
    let size = read_u32_le(data, p + 16);
    if size < HEADER_LEN {
        return Frame::SizeUnderflow { at: p, size };
    }
    let pad = padding_for(size);
    if (rem as u64) < (size as u64) + (pad as u64) {
        return Frame::End;
    }
    let body_end: usize = p + size as usize;
    Frame::Record {
        header: RecordHeader { hash, id, offset, size },
        start: p,
        body_start: p + 20,
        body_end,
        next: body_end + pad as usize,
    }
}

} // verus!
