use crate::framing::{read_u32_le, word_at};
use vstd::bytes::{spec_u16_from_le_bytes, u16_from_le_bytes};
use vstd::prelude::*;
use vstd::slice::slice_subrange;
use winstructs::security::SecurityDescriptor;

verus! {

/// The descriptor that winstructs decodes, carried through unread.
#[verifier::external_type_specification]
#[verifier::external_body]
pub struct ExSecurityDescriptor(SecurityDescriptor);

/// Whether winstructs decodes `body` as a security descriptor.
pub uninterp spec fn descriptor_decodes(body: Seq<u8>) -> bool;

/// The little-endian `u16` stored at `b[p..p + 2]`.
pub open spec fn half_at(b: Seq<u8>, p: int) -> u16 {
    spec_u16_from_le_bytes(b.subrange(p, p + 2))
}

/// Whether each of `count` access-control entries laid end to end from `p`
/// declares a length of at least four bytes (the length is the `u16` at
/// offset 2 of an entry), as far as the bytes reach.
pub open spec fn entries_sized(b: Seq<u8>, p: int, count: nat) -> bool
    decreases count,
{
    if count == 0 || p + 4 > b.len() {
        true
    } else {
        let len = half_at(b, p + 2);
        len >= 4 && entries_sized(b, p + len, (count - 1) as nat)
    }
}

/// Whether the access-control list at `off` (none when `off` is zero) holds
/// only entries of at least four bytes. The list's header is 8 bytes, with its
/// entry count at offset 4.
pub open spec fn acl_sized(b: Seq<u8>, off: u32) -> bool {
    off == 0 || off + 8 > b.len() || entries_sized(b, off + 8, half_at(b, off + 4) as nat)
}

/// Whether both access-control lists that the descriptor header of `b` points
/// at (the system list at offset 12, the discretionary list at offset 16)
/// hold only entries of at least four bytes.
pub open spec fn aces_sized(b: Seq<u8>) -> bool {
    b.len() < 20 || (acl_sized(b, word_at(b, 12)) && acl_sized(b, word_at(b, 16)))
}

fn entries_well_sized(b: &[u8], start: usize, count: u16) -> (r: bool)
    requires
        start <= b@.len(),
    ensures
        r == entries_sized(b@, start as int, count as nat),
{
    let mut p: usize = start;
    let mut k: u16 = count;
    while k > 0
        invariant
            p <= b@.len(),
            entries_sized(b@, p as int, k as nat) == entries_sized(b@, start as int, count as nat),
        decreases k,
    {
        if b.len() - p < 4 {
            return true;
        }
        let len = u16_from_le_bytes(slice_subrange(b, p + 2, p + 4));
        if len < 4 {
            return false;
        }
        if b.len() - p < len as usize + 4 {
            assert(entries_sized(b@, p + len, (k - 1) as nat));
            return true;
        }
        p = p + len as usize;
        k = k - 1;
    }
    true
}

fn acl_well_sized(b: &[u8], off: u32) -> (r: bool)
    ensures
        r == acl_sized(b@, off),
{
    if off == 0 || b.len() < 8 || off as usize > b.len() - 8 {
        return true;
    }
    let at: usize = off as usize;
    let count = u16_from_le_bytes(slice_subrange(b, at + 4, at + 6));
    entries_well_sized(b, at + 8, count)
}

/// Whether every access-control entry that a decoder of `body` would reach
/// declares a length of at least four bytes.
pub fn aces_well_sized(body: &[u8]) -> (r: bool)
    ensures
        r == aces_sized(body@),
{
    if body.len() < 20 {
        return true;
    }
    let sacl = read_u32_le(body, 12);
    let dacl = read_u32_le(body, 16);
    acl_well_sized(body, sacl) && acl_well_sized(body, dacl)
}

/// Relies on winstructs' `SecurityDescriptor::from_stream`, run on a cursor
/// over exactly `body`: its outcome depends on the bytes alone. It subtracts
/// 4 from each access-control entry's declared length, which overflows below
/// 4; `aces_sized` leaves those inputs out.
#[verifier::external_body]
pub(crate) fn decode_descriptor(body: &[u8]) -> (r: Result<SecurityDescriptor, String>)
    requires
        aces_sized(body@),
    ensures
        r is Ok <==> descriptor_decodes(body@),
{
    let mut stream = std::io::Cursor::new(body);
    match SecurityDescriptor::from_stream(&mut stream) {
        Ok(sd) => Ok(sd),
        Err(e) => Err(e.to_string()),
    }
}

} // verus!
