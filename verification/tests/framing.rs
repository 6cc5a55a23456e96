use std::io::{Error, ErrorKind};

use tm20::error::{IoErrorKind, Result};
use tm20::{FramingError, Memory, ReplyReader, Transport};

/// Scripted transport: scheduled read chunks, including Interrupted and EOF.
struct Scripted {
    written: Vec<u8>,
    reads: Vec<std::io::Result<Vec<u8>>>,
    index: usize,
}

impl Scripted {
    fn new(reads: Vec<std::io::Result<Vec<u8>>>) -> Self {
        Self {
            written: Vec::new(),
            reads,
            index: 0,
        }
    }
}

impl Transport for Scripted {
    fn write(&mut self, data: &[u8]) -> Result<()> {
        self.written.extend_from_slice(data);
        Ok(())
    }

    fn read(&mut self, buf: &mut [u8]) -> Result<usize> {
        if self.index >= self.reads.len() {
            return Ok(0);
        }
        let next = &self.reads[self.index];
        self.index += 1;
        match next {
            Ok(bytes) => {
                let n = bytes.len().min(buf.len());
                buf[..n].copy_from_slice(&bytes[..n]);
                Ok(n)
            }
            Err(e) if e.kind() == ErrorKind::Interrupted => {
                Err(tm20::Error::Io(IoErrorKind::Interrupted))
            }
            Err(_) => Err(tm20::Error::Io(IoErrorKind::Other)),
        }
    }
}

/// Every ordered partition of `bytes` into nonempty contiguous chunks.
fn partitions(bytes: &[u8]) -> Vec<Vec<Vec<u8>>> {
    if bytes.is_empty() {
        return vec![vec![]];
    }
    let n = bytes.len();
    let mut out = Vec::new();
    let max = 1usize << (n.saturating_sub(1));
    for mask in 0..max {
        let mut chunks = Vec::new();
        let mut start = 0usize;
        for i in 0..n.saturating_sub(1) {
            if mask & (1 << i) != 0 {
                chunks.push(bytes[start..=i].to_vec());
                start = i + 1;
            }
        }
        chunks.push(bytes[start..].to_vec());
        out.push(chunks);
    }
    out
}

const NAME: &[u8] = b"TM-T20III\0";
/// Production `GS ( H` completion: header `0x37 0x22`, four-byte id, NUL.
const DONE: &[u8] = &[0x37, 0x22, b't', b'm', b'2', b'0', 0];

#[test]
fn every_nul_partition_decodes_identically() {
    for chunks in partitions(NAME) {
        let reads = chunks.into_iter().map(Ok).collect();
        let mut reader = ReplyReader::new(Scripted::new(reads));
        let got = reader
            .read_nul_reply(32)
            .unwrap_or_else(|e| panic!("partition failed: {e:?}"));
        assert_eq!(got, b"TM-T20III");
    }
}

#[test]
fn every_completion_partition_decodes_identically() {
    let requested = *b"tm20";
    for chunks in partitions(DONE) {
        let reads = chunks.into_iter().map(Ok).collect();
        let mut reader = ReplyReader::new(Scripted::new(reads));
        let got = reader
            .read_process_completion(requested)
            .unwrap_or_else(|e| panic!("partition failed: {e:?}"));
        assert_eq!(got, requested);
    }
}

#[test]
fn coalesced_replies_are_separately_readable() {
    let mut both = NAME.to_vec();
    both.extend_from_slice(DONE);
    let mut reader = ReplyReader::new(Scripted::new(vec![Ok(both)]));
    assert_eq!(reader.read_nul_reply(32).unwrap(), b"TM-T20III");
    assert_eq!(reader.read_process_completion(*b"tm20").unwrap(), *b"tm20");
}

#[test]
fn framing_incomplete_nul_at_eof_is_unexpected_eof() {
    let mut reader = ReplyReader::new(Scripted::new(vec![Ok(b"TM-".to_vec())]));
    let err = reader.read_nul_reply(32).unwrap_err();
    assert!(matches!(
        err,
        tm20::Error::Framing(FramingError::UnexpectedEof)
    ));
}

#[test]
fn overlong_nul_is_overlength() {
    let mut reader = ReplyReader::new(Scripted::new(vec![Ok(b"ABCDEFGHIJKLMNOP\0".to_vec())]));
    let err = reader.read_nul_reply(8).unwrap_err();
    assert!(matches!(
        err,
        tm20::Error::Framing(FramingError::Overlength { .. })
    ));
}

#[test]
fn framing_interrupted_then_data_completes() {
    let mut reader = ReplyReader::new(Scripted::new(vec![
        Err(Error::new(ErrorKind::Interrupted, "eintr")),
        Ok(b"TM-".to_vec()),
        Err(Error::new(ErrorKind::Interrupted, "eintr")),
        Ok(b"T20III\0".to_vec()),
    ]));
    assert_eq!(reader.read_nul_reply(32).unwrap(), b"TM-T20III");
}

#[test]
fn framing_wrong_completion_id_errors() {
    let mut reader = ReplyReader::new(Memory::with_replies(DONE.to_vec()));
    let err = reader.read_process_completion(*b"nope").unwrap_err();
    assert!(matches!(
        err,
        tm20::Error::Framing(FramingError::WrongId { .. })
    ));
}

#[test]
fn exact_reply_zero_before_completion_is_eof() {
    let mut reader = ReplyReader::new(Scripted::new(vec![Ok(b"ab".to_vec()), Ok(vec![])]));
    let err = reader.read_exact_reply(4).unwrap_err();
    assert!(matches!(
        err,
        tm20::Error::Framing(FramingError::UnexpectedEof)
    ));
}

#[test]
fn memory_accumulates_a_short_read() {
    let mut reader = ReplyReader::new(Memory::with_replies(b"pong".to_vec()));
    let got = reader.read_exact_reply(4).unwrap();
    assert_eq!(got, b"pong");
}

#[test]
fn write_is_not_resent_by_the_reader() {
    let mut reader = ReplyReader::new(Scripted::new(vec![Ok(NAME.to_vec())]));
    reader.transport_mut().write(b"query").unwrap();
    reader.read_nul_reply(32).unwrap();
    assert_eq!(reader.into_inner().written, b"query");
}
