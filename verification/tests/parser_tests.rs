use movedit::frame::{convert_frame_to_rgba, FrameBuffer, VideoFrame};
use movedit::mov_parser::{AtomParseError, MovParser};

fn atom(size: u32, ty: &[u8; 4], payload: &[u8]) -> Vec<u8> {
    let mut bytes = Vec::new();
    bytes.extend_from_slice(&size.to_be_bytes());
    bytes.extend_from_slice(ty);
    bytes.extend_from_slice(payload);
    bytes
}

#[test]
fn parse_walks_top_level_atoms() {
    let mut data = atom(16, b"ftyp", &[0u8; 8]);
    data.extend_from_slice(&atom(8, b"moov", &[]));
    let parser = MovParser::new(data);
    let atoms = parser.parse_atoms().expect("well-formed container");
    assert_eq!(atoms.len(), 2);
    assert_eq!(atoms[0].size, 16);
    assert_eq!(&atoms[0].atom_type, b"ftyp");
    assert_eq!(atoms[0].offset, 0);
    assert_eq!(atoms[1].size, 8);
    assert_eq!(&atoms[1].atom_type, b"moov");
    assert_eq!(atoms[1].offset, 16);
}

#[test]
fn parse_empty_data_yields_no_atoms() {
    let parser = MovParser::new(Vec::new());
    assert_eq!(parser.parse_atoms().expect("empty is fine").len(), 0);
}

#[test]
fn truncated_header_is_rejected() {
    let parser = MovParser::new(vec![0, 0, 0, 16]);
    assert_eq!(parser.parse_atoms(), Err(AtomParseError::TruncatedHeader));
    // A valid atom followed by a few stray bytes fails the same way.
    let mut data = atom(8, b"ftyp", &[]);
    data.extend_from_slice(&[1, 2, 3]);
    let parser = MovParser::new(data);
    assert_eq!(parser.parse_atoms(), Err(AtomParseError::TruncatedHeader));
}

#[test]
fn undersized_atom_is_rejected() {
    let parser = MovParser::new(atom(4, b"ftyp", &[]));
    assert_eq!(parser.parse_atoms(), Err(AtomParseError::UndersizedAtom));
}

#[test]
fn atom_overrunning_the_file_ends_the_walk() {
    // The last atom declares more bytes than the file holds: it is still
    // reported, with its declared size.
    let mut data = atom(8, b"ftyp", &[]);
    data.extend_from_slice(&atom(100, b"mdat", &[0u8; 4]));
    let parser = MovParser::new(data);
    let atoms = parser.parse_atoms().expect("overrun ends the walk");
    assert_eq!(atoms.len(), 2);
    assert_eq!(atoms[1].size, 100);
    assert_eq!(atoms[1].offset, 8);
}

#[test]
fn find_atom_returns_first_match() {
    let mut data = atom(12, b"free", &[0u8; 4]);
    data.extend_from_slice(&atom(8, b"moov", &[]));
    data.extend_from_slice(&atom(8, b"free", &[]));
    let parser = MovParser::new(data);
    let found = parser.find_atom(b"free").expect("well-formed").expect("present");
    assert_eq!(found.offset, 0);
    assert_eq!(found.size, 12);
    let moov = parser.find_atom(b"moov").expect("well-formed").expect("present");
    assert_eq!(moov.offset, 12);
    assert_eq!(parser.find_atom(b"trak").expect("well-formed"), None);
}

#[test]
fn find_atom_propagates_malformation() {
    let parser = MovParser::new(vec![9, 9]);
    assert_eq!(parser.find_atom(b"moov"), Err(AtomParseError::TruncatedHeader));
}

#[test]
fn bgra_converts_to_rgba() {
    let frame = VideoFrame {
        data: vec![10, 20, 30, 40, 50, 60, 70, 80],
        width: 2,
        height: 1,
        timestamp_ms: 0,
    };
    // Each BGRA pixel [B,G,R,A] becomes [R,G,B,A].
    assert_eq!(convert_frame_to_rgba(&frame), vec![30, 20, 10, 40, 70, 60, 50, 80]);
}

#[test]
fn conversion_drops_trailing_partial_pixel() {
    let frame = VideoFrame { data: vec![1, 2, 3, 4, 5, 6], width: 1, height: 1, timestamp_ms: 0 };
    assert_eq!(convert_frame_to_rgba(&frame), vec![3, 2, 1, 4]);
    let empty = VideoFrame { data: Vec::new(), width: 0, height: 0, timestamp_ms: 0 };
    assert_eq!(convert_frame_to_rgba(&empty), Vec::<u8>::new());
}

#[test]
fn conversion_is_deterministic() {
    let frame = VideoFrame { data: vec![9, 8, 7, 6], width: 1, height: 1, timestamp_ms: 42 };
    assert_eq!(convert_frame_to_rgba(&frame), convert_frame_to_rgba(&frame));
}

#[test]
fn frame_buffer_holds_latest_frame() {
    let mut buf = FrameBuffer::new();
    assert!(buf.get_current().is_none());
    let first = VideoFrame { data: vec![1, 1, 1, 1], width: 1, height: 1, timestamp_ms: 33 };
    buf.store(first);
    assert_eq!(buf.get_current().expect("held").timestamp_ms, 33);
    let second = VideoFrame { data: vec![2, 2, 2, 2], width: 1, height: 1, timestamp_ms: 66 };
    buf.store(second);
    assert_eq!(buf.get_current().expect("held").timestamp_ms, 66);
    // A seek invalidates whatever was buffered.
    buf.invalidate();
    assert!(buf.get_current().is_none());
}
