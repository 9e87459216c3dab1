use sds_parser::{aces_well_sized, ByteStream, SDSEntry, SDSParser, SDSParserError};

fn push_u32(out: &mut Vec<u8>, v: u32) {
    out.extend_from_slice(&v.to_le_bytes());
}

/// A self-relative descriptor whose owner and group are S-1-5-18 and
/// S-1-5-32, followed by `tail`; `dacl` is the discretionary list's offset.
fn descriptor(dacl: u32, tail: &[u8]) -> Vec<u8> {
    let mut out = vec![1u8, 0];
    out.extend_from_slice(&0x8004u16.to_le_bytes());
    push_u32(&mut out, 20);
    push_u32(&mut out, 32);
    push_u32(&mut out, 0);
    push_u32(&mut out, dacl);
    for sub in [18u32, 32] {
        out.extend_from_slice(&[1, 1, 0, 0, 0, 0, 0, 5]);
        push_u32(&mut out, sub);
    }
    out.extend_from_slice(tail);
    out
}

fn record(hash: u32, id: u32, body: &[u8]) -> Vec<u8> {
    let size = 20 + body.len() as u32;
    let mut out = Vec::new();
    push_u32(&mut out, hash);
    push_u32(&mut out, id);
    out.extend_from_slice(&0u64.to_le_bytes());
    push_u32(&mut out, size);
    out.extend_from_slice(body);
    while out.len() % 16 != 0 {
        out.push(0);
    }
    out
}

#[test]
fn decodes_descriptor_body() {
    let data = record(0xDEAD, 0x101, &descriptor(0, &[]));
    let mut stream = ByteStream::new(data);
    let entry = SDSEntry::from_reader(&mut stream).unwrap();
    assert_eq!(entry.hash, 0xDEAD);
    assert_eq!(entry.id, 0x101);
    assert_eq!(entry.size, 64);
    assert_eq!(entry.security_descriptor.owner_sid.to_string(), "S-1-5-18");
    assert_eq!(entry.security_descriptor.group_sid.to_string(), "S-1-5-32");
    assert!(entry.security_descriptor.dacl.is_none());
    assert_eq!(stream.position(), 64);
}

#[test]
fn sequence_of_records_with_filler() {
    let mut data = vec![0u8; 8];
    for id in 1..=3u32 {
        data.extend(record(100 + id, id, &descriptor(0, &[])));
    }
    let mut parser = SDSParser::from_reader(ByteStream::new(data));
    let mut ids = Vec::new();
    while let Some(item) = parser.next() {
        let entry = item.unwrap();
        assert_eq!(entry.hash, 100 + entry.id);
        ids.push(entry.id);
    }
    assert_eq!(ids, vec![1, 2, 3]);
    assert!(parser.next().is_none());
}

#[test]
fn empty_body_reaches_decoder() {
    let data = record(7, 8, &[]);
    let mut stream = ByteStream::new(data);
    match SDSEntry::from_reader(&mut stream) {
        Err(SDSParserError::SecurityDescriptor { .. }) => {}
        other => panic!("expected a decode error, got {:?}", other.map(|e| e.id)),
    }
    assert_eq!(stream.position(), 32);
}

#[test]
fn decode_error_resynchronises() {
    let mut data = record(1, 1, &[0xFF; 5]);
    data.extend(record(2, 2, &descriptor(0, &[])));
    let mut parser = SDSParser::from_reader(ByteStream::new(data));
    assert!(matches!(parser.next(), Some(Err(SDSParserError::SecurityDescriptor { .. }))));
    assert_eq!(parser.next().unwrap().unwrap().id, 2);
    assert!(parser.next().is_none());
}

#[test]
fn short_entry_length_is_rejected() {
    let acl = [2u8, 0, 12, 0, 1, 0, 0, 0, 0, 0, 2, 0];
    let body = descriptor(44, &acl);
    assert!(!aces_well_sized(&body));
    assert!(aces_well_sized(&descriptor(0, &[])));
    let mut stream = ByteStream::new(record(3, 4, &body));
    assert!(matches!(
        SDSEntry::from_reader(&mut stream),
        Err(SDSParserError::SecurityDescriptor { .. })
    ));
}

#[test]
fn size_underflow_stops_sequence() {
    let mut data = Vec::new();
    push_u32(&mut data, 1);
    push_u32(&mut data, 2);
    data.extend_from_slice(&0u64.to_le_bytes());
    push_u32(&mut data, 19);
    data.extend(record(5, 6, &descriptor(0, &[])));
    let mut parser = SDSParser::from_reader(ByteStream::new(data));
    assert!(matches!(parser.next(), Some(Err(SDSParserError::SizeUnderflow { size: 19 }))));
    assert!(parser.next().is_none());
}

#[test]
fn stream_end_terminates_sequence() {
    let full = record(5, 6, &descriptor(0, &[]));
    for cut in [0usize, 4, 8, 12, 16, 20, 40, 63] {
        let mut parser = SDSParser::from_reader(ByteStream::new(full[..cut].to_vec()));
        assert!(parser.next().is_none(), "cut at {}", cut);
    }
}

#[test]
fn partial_header_field_is_error() {
    let full = record(5, 6, &descriptor(0, &[]));
    let mut parser = SDSParser::from_reader(ByteStream::new(full[..6].to_vec()));
    assert!(matches!(parser.next(), Some(Err(SDSParserError::SDSEntry { .. }))));
    assert!(parser.next().is_none());
}

#[test]
fn end_of_stream_from_reader() {
    let mut stream = ByteStream::new(vec![0u8; 12]);
    assert!(matches!(SDSEntry::from_reader(&mut stream), Err(SDSParserError::EndOfStream)));
    assert_eq!(stream.position(), 12);
}
