use tm20::error::IdentifyError;
use tm20::identify::{InfoRequest, encode_info, query_info};
use tm20::{Error, FramingError, Memory, MemoryRead, ReplyReader};

const NAME_REPLY: &[u8] = b"_TM-T20III\0";
const COMPLETION: [u8; 7] = [0x37, 0x22, b't', b'm', b'2', b'0', 0];

fn partitions(data: &[u8]) -> Vec<Vec<Vec<u8>>> {
    let n = data.len();
    if n == 0 {
        return vec![Vec::new()];
    }
    let mut out = Vec::with_capacity(1 << (n - 1));
    for mask in 0..(1usize << (n - 1)) {
        let mut segs = Vec::new();
        let mut start = 0;
        for i in 0..(n - 1) {
            if mask & (1 << i) != 0 {
                segs.push(data[start..=i].to_vec());
                start = i + 1;
            }
        }
        segs.push(data[start..].to_vec());
        out.push(segs);
    }
    out
}

#[test]
fn nul_reply_invariant_under_every_partition() {
    for segs in partitions(NAME_REPLY) {
        let mut reader = ReplyReader::new(Memory::with_segments(segs));
        let got = reader.read_nul_reply(80).unwrap();
        assert_eq!(got, b"_TM-T20III");
        assert!(reader.unread().is_empty());
    }
}

#[test]
fn completion_invariant_under_every_partition() {
    for segs in partitions(&COMPLETION) {
        let mut reader = ReplyReader::new(Memory::with_segments(segs));
        let id = reader.read_process_completion(*b"tm20").unwrap();
        assert_eq!(id, *b"tm20");
    }
}

#[test]
fn coalesced_nul_replies_are_separately_readable() {
    let mut reader = ReplyReader::new(Memory::with_replies(b"one\0two\0".to_vec()));
    assert_eq!(reader.read_nul_reply(16).unwrap(), b"one");
    assert_eq!(reader.read_nul_reply(16).unwrap(), b"two");
}

#[test]
fn coalesced_completions_are_separately_readable() {
    let mut both = COMPLETION.to_vec();
    both.extend_from_slice(&[0x37, 0x22, b'x', b'x', b'x', b'x', 0]);
    let mut reader = ReplyReader::new(Memory::with_replies(both));
    assert_eq!(reader.read_process_completion(*b"tm20").unwrap(), *b"tm20");
    assert_eq!(reader.read_process_completion(*b"xxxx").unwrap(), *b"xxxx");
}

#[test]
fn reply_incomplete_nul_at_eof_is_unexpected_eof() {
    let mut reader = ReplyReader::new(Memory::with_replies(b"abcd".to_vec()));
    match reader.read_nul_reply(80) {
        Err(Error::Framing(FramingError::UnexpectedEof)) => {}
        other => panic!("expected UnexpectedEof, got {other:?}"),
    }
}

#[test]
fn incomplete_exact_at_eof_is_unexpected_eof() {
    let mut reader = ReplyReader::new(Memory::with_replies(b"12".to_vec()));
    match reader.read_exact_reply(7) {
        Err(Error::Framing(FramingError::UnexpectedEof)) => {}
        other => panic!("expected UnexpectedEof, got {other:?}"),
    }
}

#[test]
fn overlong_nul_frame_errors() {
    let mut reader = ReplyReader::new(Memory::with_replies(b"0123456789".to_vec()));
    match reader.read_nul_reply(4) {
        Err(Error::Framing(FramingError::Overlength { max: 4, got: 10 })) => {}
        other => panic!("expected Overlength {{ max: 4, got: 10 }}, got {other:?}"),
    }
}

#[test]
fn reply_wrong_completion_id_errors() {
    let mut reader = ReplyReader::new(Memory::with_replies(COMPLETION.to_vec()));
    match reader.read_process_completion(*b"xxxx") {
        Err(Error::Framing(FramingError::WrongId {
            requested,
            got: [b't', b'm', b'2', b'0'],
        })) if requested == *b"xxxx" => {}
        other => panic!("expected WrongId, got {other:?}"),
    }
}

#[test]
fn wrong_completion_kind_is_not_scanned() {
    let mut reader = ReplyReader::new(Memory::with_replies(vec![0, 1, 2, 3, 4, 5, 6]));
    match reader.read_process_completion(*b"tm20") {
        Err(Error::Identify(IdentifyError::Unexpected { got })) => {
            assert_eq!(got, vec![0, 1, 2, 3, 4, 5, 6]);
        }
        other => panic!("expected Identify Unexpected, got {other:?}"),
    }
}

#[test]
fn reply_interrupted_then_data_completes() {
    let mut reader = ReplyReader::new(Memory::with_reads(vec![
        MemoryRead::Interrupt,
        MemoryRead::Bytes(b"tm20\0".to_vec()),
    ]));
    assert_eq!(reader.read_nul_reply(16).unwrap(), b"tm20");
}

#[test]
fn frame_helpers_do_not_write() {
    let mut reader = ReplyReader::new(Memory::with_replies(COMPLETION.to_vec()));
    reader.read_process_completion(*b"tm20").unwrap();
    assert!(reader.transport().written.is_empty());
}

#[test]
fn query_info_writes_once_for_segmented_reply() {
    let mut reader = ReplyReader::new(Memory::with_segments(vec![
        b"_TM-".to_vec(),
        b"T20III\0".to_vec(),
    ]));
    let name = query_info(&mut reader, InfoRequest::Name).unwrap();
    assert_eq!(name, b"TM-T20III");
    assert_eq!(reader.transport().written, encode_info(InfoRequest::Name));
}

#[test]
fn query_info_eof_does_not_resend() {
    let mut reader = ReplyReader::new(Memory::new());
    match query_info(&mut reader, InfoRequest::Name) {
        Err(Error::Framing(FramingError::UnexpectedEof)) => {}
        other => panic!("expected UnexpectedEof, got {other:?}"),
    }
    assert_eq!(reader.transport().written, encode_info(InfoRequest::Name));
}

#[test]
fn overlength_reports_the_buffered_length_not_the_nul_position() {
    let mut reader = ReplyReader::new(Memory::with_replies(b"ABCDEFGHIJKLMNOP\0".to_vec()));
    match reader.read_nul_reply(8) {
        Err(Error::Framing(FramingError::Overlength { max: 8, got: 17 })) => {}
        other => panic!("expected Overlength {{ max: 8, got: 17 }}, got {other:?}"),
    }
    assert_eq!(reader.unread().len(), 17);
}
