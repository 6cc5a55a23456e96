use tm20::identify::{InfoRequest, encode_info, encode_process_id, parse_process_id, query_info};
use tm20::{Memory, ReplyReader};

#[test]
fn process_id_bytes() {
    assert_eq!(
        encode_process_id(*b"tm20"),
        [0x1d, b'(', b'H', 6, 0, 48, 48, b't', b'm', b'2', b'0']
    );
    assert_eq!(
        parse_process_id(&[0x37, 0x22, b't', b'm', b'2', b'0', 0]).unwrap(),
        *b"tm20"
    );
}

#[test]
fn info_n() {
    assert_eq!(encode_info(InfoRequest::Firmware), [0x1d, b'I', 65]);
    assert_eq!(encode_info(InfoRequest::VersionId), [0x1d, b'I', 3]);
}

#[test]
fn query_info_strips_underscore_and_nul() {
    let mut reader = ReplyReader::new(Memory::with_replies(b"_TM-T20III\0".to_vec()));
    let name = query_info(&mut reader, InfoRequest::Name).unwrap();
    assert_eq!(name, b"TM-T20III");
    assert_eq!(reader.transport().written, encode_info(InfoRequest::Name));
}

#[test]
fn query_info_byte_replies() {
    let mut reader = ReplyReader::new(Memory::with_replies(vec![0x27]));
    let id = query_info(&mut reader, InfoRequest::ModelId).unwrap();
    assert_eq!(id, vec![0x27]);
}
