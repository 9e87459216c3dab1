//! Framing of the NTFS `$Secure:$SDS` stream: locating each security
//! descriptor record in a flat byte log, skipping filler and alignment
//! padding, and handing each record's body to the descriptor decoder.

mod descriptor;
mod errors;
mod framing;
mod parser;

pub use descriptor::{
    acl_sized, aces_sized, aces_well_sized, descriptor_decodes, entries_sized, half_at,
};
pub use errors::SDSParserError;
pub use framing::{
    body_of, dword_at, frame_at, header_start, lemma_declared_size_underflow,
    lemma_end_at_field_boundary, lemma_end_mid_body, lemma_minimal_record_body_empty,
    lemma_padding_aligns, lemma_zero_fill_skipped, next_frame, padding_for, padding_len,
    read_u32_le, word_at, Frame, RecordHeader, HEADER_LEN,
};
pub use parser::{entry_outcome, id_selected, resume_at, ByteStream, SDSEntry, SDSParser};
