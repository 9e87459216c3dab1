use crate::descriptor::{aces_sized, aces_well_sized, decode_descriptor, descriptor_decodes};
use crate::errors::SDSParserError;
use crate::framing::{body_of, lemma_header_start_bounds, frame_at, next_frame, Frame};
use vstd::prelude::*;
use vstd::slice::slice_subrange;
use winstructs::security::SecurityDescriptor;

verus! {

/// An in-memory `$SDS` stream with a read position.
pub struct ByteStream {
    data: Vec<u8>,
    pos: usize,
}

impl ByteStream {
    /// The whole stream.
    pub closed spec fn bytes(&self) -> Seq<u8> {
        self.data@
    }

    /// The read position.
    pub closed spec fn offset(&self) -> int {
        self.pos as int
    }

    #[verifier::type_invariant]
    spec fn inv(&self) -> bool {
        self.pos <= self.data@.len()
    }

    /// A stream over `data`, read from its start.
    pub fn new(data: Vec<u8>) -> (r: ByteStream)
        ensures
            r.bytes() == data@,
            r.offset() == 0,
    {
        ByteStream { data, pos: 0 }
    }

    /// The read position.
    pub fn position(&self) -> (r: usize)
        ensures
            r == self.offset(),
    {
        self.pos
    }
}

/// Where reading goes on after framing `data` from `pos`: past the record
/// (also when its body is rejected), past the header of a size underflow, and
/// at the end of the stream otherwise.
pub open spec fn resume_at(data: Seq<u8>, pos: int) -> int {
    match frame_at(data, pos) {
        Frame::Record { next, .. } => next as int,
        Frame::SizeUnderflow { at, .. } => at + 20,
        _ => data.len() as int,
    }
}

/// Whether `res` is what reading one entry from `pos` gives.
pub open spec fn entry_outcome(data: Seq<u8>, pos: int, res: Result<SDSEntry, SDSParserError>) -> bool {
    match frame_at(data, pos) {
        Frame::End => res == Err::<SDSEntry, SDSParserError>(SDSParserError::EndOfStream),
        Frame::Truncated { .. } => res matches Err(SDSParserError::SDSEntry { .. }),
        Frame::SizeUnderflow { size, .. } => res == Err::<SDSEntry, SDSParserError>(
            SDSParserError::SizeUnderflow { size },
        ),
        Frame::Record { header, .. } => {
            let body = body_of(data, frame_at(data, pos));
            match res {
                Ok(e) => aces_sized(body) && descriptor_decodes(body) && e.hash == header.hash
                    && e.id == header.id && e.offset == header.offset && e.size == header.size,
                Err(err) => (!aces_sized(body) || !descriptor_decodes(body))
                    && err is SecurityDescriptor,
            }
        },
    }
}

/// One security descriptor record of the stream.
pub struct SDSEntry {
    pub hash: u32,
    pub id: u32,
    pub offset: u64,
    pub size: u32,
    pub security_descriptor: SecurityDescriptor,
}

impl SDSEntry {
    /// Reads the entry at the stream's position and moves past it.
    pub fn from_reader(r: &mut ByteStream) -> (res: Result<SDSEntry, SDSParserError>)
        ensures
            final(r).bytes() == old(r).bytes(),
            final(r).offset() == resume_at(old(r).bytes(), old(r).offset()),
            entry_outcome(old(r).bytes(), old(r).offset(), res),
    {
        proof {
            use_type_invariant(&*r);
            lemma_header_start_bounds(r.data@, r.pos as int);
        }
        let len = r.data.len();
        let frame = next_frame(r.data.as_slice(), r.pos);
        match frame {
            Frame::End => {
                r.pos = len;
                Err(SDSParserError::EndOfStream)
            },
            Frame::Truncated { .. } => {
                r.pos = len;
                Err(SDSParserError::SDSEntry { err_msg: "stream ends inside a record header".to_string() })
            },
            Frame::SizeUnderflow { at, size } => {
                r.pos = at + 20;
                Err(SDSParserError::SizeUnderflow { size })
            },
            Frame::Record { header, body_start, body_end, next, .. } => {
                r.pos = next;
                let body = slice_subrange(r.data.as_slice(), body_start, body_end);
                if !aces_well_sized(body) {
                    return Err(SDSParserError::SecurityDescriptor {
                        err_msg: "access control entry shorter than its own header".to_string(),
                    });
                }
                match decode_descriptor(body) {
                    Ok(security_descriptor) => Ok(SDSEntry {
                        hash: header.hash,
                        id: header.id,
                        offset: header.offset,
                        size: header.size,
                        security_descriptor,
                    }),
                    Err(err_msg) => Err(SDSParserError::SecurityDescriptor { err_msg }),
                }
            },
        }
    }
}

/// Reads the entries of a `$SDS` stream one at a time. It stops for good at
/// the end of the stream and after a framing error; after a body that the
/// decoder rejects it goes on with the next record, whose position the
/// rejected record's declared size gives.
pub struct SDSParser {
    reader: ByteStream,
    finished: bool,
}

impl SDSParser {
    /// The whole stream.
    pub closed spec fn stream(&self) -> Seq<u8> {
        self.reader.bytes()
    }

    /// Where the next entry is read from.
    pub closed spec fn cursor(&self) -> int {
        self.reader.offset()
    }

    /// Whether no entry will follow.
    pub closed spec fn is_finished(&self) -> bool {
        self.finished
    }

    /// A parser over the entries of `r` from its position on.
    pub fn from_reader(r: ByteStream) -> (p: SDSParser)
        ensures
            p.stream() == r.bytes(),
            p.cursor() == r.offset(),
            !p.is_finished(),
    {
        SDSParser { reader: r, finished: false }
    }

    /// The next entry, an error, or `None` once the stream holds no more
    /// records.
    pub fn next(&mut self) -> (item: Option<Result<SDSEntry, SDSParserError>>)
        ensures
            final(self).stream() == old(self).stream(),
            old(self).is_finished() ==> item is None && final(self).is_finished()
                && final(self).cursor() == old(self).cursor(),
            !old(self).is_finished() ==> {
                let data = old(self).stream();
                let pos = old(self).cursor();
                &&& final(self).cursor() == resume_at(data, pos)
                &&& (item is None <==> frame_at(data, pos) is End)
                &&& (final(self).is_finished() <==> !(frame_at(data, pos) is Record))
                &&& (item matches Some(res) ==> entry_outcome(data, pos, res))
            },
    {
        if self.finished {
            return None;
        }
        match SDSEntry::from_reader(&mut self.reader) {
            Ok(entry) => Some(Ok(entry)),
            Err(SDSParserError::EndOfStream) => {
                self.finished = true;
                None
            },
            Err(SDSParserError::SecurityDescriptor { err_msg }) => Some(
                Err(SDSParserError::SecurityDescriptor { err_msg }),
            ),
            Err(e) => {
                self.finished = true;
                Some(Err(e))
            },
        }
    }
}

/// Whether an entry with identifier `id` is wanted: every entry when there is
/// no allow-list, else the entries whose identifier the list holds.
pub fn id_selected(id: u32, allow_list: &Option<Vec<u32>>) -> (r: bool)
    ensures
        r == match allow_list {
            None => true,
            Some(ids) => ids@.contains(id),
        },
{
    match allow_list {
        None => true,
        Some(ids) => {
            let mut i: usize = 0;
            while i < ids.len()
                invariant
                    allow_list is Some,
                    allow_list->Some_0@ == ids@,
                    i <= ids@.len(),
                    forall|j: int| 0 <= j < i ==> ids@[j] != id,
                decreases ids@.len() - i,
            {
                if ids[i] == id {
                    assert(ids@[i as int] == id);
                    return true;
                }
                i = i + 1;
            }
            false
        },
    }
}

} // verus!
