use vstd::prelude::*;

verus! {

/// Why a record could not be produced.
#[derive(Debug)]
pub enum SDSParserError {
    /// The stream ended inside a header field.
    SDSEntry { err_msg: String },
    /// The descriptor decoder rejected the record's body.
    SecurityDescriptor { err_msg: String },
    /// The header declared fewer bytes than the header itself takes.
    SizeUnderflow { size: u32 },
    /// No more records: not a fault of the stream.
    EndOfStream,
}

} // verus!
