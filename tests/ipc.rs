use i3switch::ipc::{pack, Header, Request, Response, HEADER_SIZE};

#[test]
fn test_header() {
    let header = Header::new(10, 1);
    let bytes = header.to_bytes();
    let parsed_header = Header::from_bytes(&bytes);
    let parsed_bytes = parsed_header.to_bytes();
    assert_eq!(HEADER_SIZE, bytes.len());
    assert_eq!(std::mem::size_of_val(&header), std::mem::size_of_val(&parsed_header));
    assert_eq!(bytes, parsed_bytes);
}

#[test]
fn test_pack() {
    let payload = "test";
    let packed = pack(Request::Command, payload);
    assert_eq!(packed.len(), HEADER_SIZE + payload.len());
    assert_eq!(&packed[0..6], b"i3-ipc");
    assert_eq!(packed[6..10], (payload.len() as u32).to_le_bytes());
    assert_eq!(packed[10..14], (Request::Command.code()).to_le_bytes());
    assert_eq!(&packed[14..], payload.as_bytes());
}

#[test]
fn header_fields_are_little_endian() {
    let header = Header::new(0x0403_0201, 0xA0B0_C0D0);
    let bytes = header.to_bytes();
    assert_eq!(bytes, vec![0x69, 0x33, 0x2d, 0x69, 0x70, 0x63, 1, 2, 3, 4, 0xD0, 0xC0, 0xB0, 0xA0]);
    let parsed = Header::from_bytes(&bytes);
    assert_eq!(parsed, header);
    assert!(parsed.has_magic());
    let mut broken = bytes.clone();
    broken[0] = b'I';
    assert!(!Header::from_bytes(&broken).has_magic());
}

#[test]
fn request_types_number_the_replies() {
    assert_eq!(Request::GetTree.code(), 4);
    assert_eq!(Request::GetBindingState.code(), 12);
    assert_eq!(Response::from(Request::GetTree), Response::Tree);
    assert_eq!(Response::from(Request::Command).code(), 0);
    assert_eq!(Response::from(Request::SendTick), Response::Tick);
    let packed = pack(Request::GetTree, "");
    assert_eq!(packed.len(), HEADER_SIZE);
    assert_eq!(packed[10], 4);
}
