//! `GS I` printer identity and `GS ( H` process ID.

use vstd::prelude::*;

use crate::bytes::push_slice;
use crate::error::{is_transport_error, Error, FramingError, IdentifyError, Result};
use crate::reply::{first_nul, nul_free, ReplyReader};
use crate::transport::Transport;

verus! {

#[derive(Debug, Clone, Copy, PartialEq, Eq, Structural)]
pub enum InfoRequest {
    ModelId,
    TypeId,
    VersionId,
    Firmware,
    Manufacturer,
    Name,
    Serial,
    Fonts,
}

impl InfoRequest {
    pub open spec fn spec_n(self) -> u8 {
        match self {
            InfoRequest::ModelId => 1,
            InfoRequest::TypeId => 2,
            InfoRequest::VersionId => 3,
            InfoRequest::Firmware => 65,
            InfoRequest::Manufacturer => 66,
            InfoRequest::Name => 67,
            InfoRequest::Serial => 68,
            InfoRequest::Fonts => 69,
        }
    }

    /// The `GS I n` parameter.
    pub fn n(self) -> (n: u8)
        ensures
            n == self.spec_n(),
    {
        match self {
            InfoRequest::ModelId => 1,
            InfoRequest::TypeId => 2,
            InfoRequest::VersionId => 3,
            InfoRequest::Firmware => 65,
            InfoRequest::Manufacturer => 66,
            InfoRequest::Name => 67,
            InfoRequest::Serial => 68,
            InfoRequest::Fonts => 69,
        }
    }

    pub open spec fn spec_is_byte(self) -> bool {
        self == InfoRequest::ModelId || self == InfoRequest::TypeId || self == InfoRequest::VersionId
    }

    /// Requests answered by one byte rather than a `_…NUL` string.
    pub fn is_byte(self) -> (b: bool)
        ensures
            b == self.spec_is_byte(),
    {
        match self {
            InfoRequest::ModelId | InfoRequest::TypeId | InfoRequest::VersionId => true,
            _ => false,
        }
    }
}

pub open spec fn spec_info_bytes(request: InfoRequest) -> Seq<u8> {
    seq![0x1du8, 0x49u8, request.spec_n()]
}

/// `GS I n`.
pub fn encode_info(request: InfoRequest) -> (b: [u8; 3])
    ensures
        b@ == spec_info_bytes(request),
{
    let b = [0x1d, 0x49, request.n()];
    assert(b@ =~= spec_info_bytes(request));
    b
}

/// `GS ( H 6 0 48 48 d1 d2 d3 d4`.
pub fn encode_process_id(id: [u8; 4]) -> (b: [u8; 11])
    ensures
        b@ == seq![0x1du8, 0x28u8, 0x48u8, 6u8, 0u8, 48u8, 48u8] + id@,
{
    let b = [0x1d, 0x28, 0x48, 6, 0, 48, 48, id[0], id[1], id[2], id[3]];
    assert(b@ =~= seq![0x1du8, 0x28u8, 0x48u8, 6u8, 0u8, 48u8, 48u8] + id@);
    b
}

/// The ID carried by a `GS ( H` completion reply `37h 22h d1 d2 d3 d4 00h`.
pub open spec fn completion_id(b: Seq<u8>) -> Option<Seq<u8>> {
    if b.len() == 7 && b[0] == 0x37 && b[1] == 0x22 && b[6] == 0 {
        Some(b.subrange(2, 6))
    } else {
        None
    }
}

/// Parse a process-ID completion reply.
pub fn parse_process_id(buf: &[u8]) -> (r: core::result::Result<[u8; 4], IdentifyError>)
    ensures
        match completion_id(buf@) {
            Some(id) => r is Ok && r->Ok_0@ == id,
            None => r is Err && r->Err_0 == (IdentifyError::Unexpected { got: r->Err_0->got }) && r->Err_0->got@ == buf@,
        },
{
    if buf.len() == 7 && buf[0] == 0x37 && buf[1] == 0x22 && buf[6] == 0 {
        let id = [buf[2], buf[3], buf[4], buf[5]];
        assert(id@ =~= buf@.subrange(2, 6));
        Ok(id)
    } else {
        let mut got: Vec<u8> = Vec::new();
        push_slice(&mut got, buf);
        assert(got@ =~= buf@);
        Err(IdentifyError::Unexpected { got })
    }
}

/// One read of at most `max` bytes, cut at its first NUL.
pub fn read_until_nul<T: Transport>(t: &mut T, max: usize) -> (r: Result<Vec<u8>>)
    ensures
        final(t).sent() == old(t).sent(),
        match r {
            Ok(v) => exists|k: int|
                #![trigger old(t).pending().take(k)]
                0 <= k <= max && first_nul(old(t).pending().take(k), v@.len() as int) && v@
                    == old(t).pending().take(v@.len() as int),
            Err(Error::Identify(IdentifyError::Unexpected { got })) => got@.len() <= max && got@
                == old(t).pending().take(got@.len() as int) && nul_free(got@, got@.len() as int),
            Err(e) => is_transport_error(e),
        },
{
    let mut buf: Vec<u8> = vec![0u8; max];
    let n = t.read(buf.as_mut_slice())?;
    buf.truncate(n);
    let ghost got_bytes = old(t).pending().take(n as int);
    assert(buf@ =~= got_bytes);
    let mut i: usize = 0;
    while i < buf.len()
        invariant
            i <= buf@.len(),
            buf@ == got_bytes,
            n <= max,
            n <= old(t).pending().len(),
            got_bytes == old(t).pending().take(n as int),
            t.sent() == old(t).sent(),
            nul_free(buf@, i as int),
        decreases buf.len() - i,
    {
        if buf[i] == 0 {
            let mut head = buf;
            head.truncate(i);
            proof {
                assert(head@ =~= old(t).pending().take(i as int));
                assert(first_nul(old(t).pending().take(n as int), i as int));
                assert(0 <= n <= max && first_nul(old(t).pending().take(n as int), head@.len() as int)
                    && head@ == old(t).pending().take(head@.len() as int));
            }
            return Ok(head);
        }
        i = i + 1;
    }
    Err(Error::Identify(IdentifyError::Unexpected { got: buf }))
}

/// Ask the printer for one identity field and read its reply.
///
/// Byte requests return the single reply byte; string requests return the
/// text between the leading `_` and the NUL.
pub fn query_info<T: Transport>(reader: &mut ReplyReader<T>, request: InfoRequest) -> (r: Result<Vec<u8>>)
    ensures
        final(reader).spec_transport().faultless() == old(reader).spec_transport().faultless(),
        r is Ok ==> final(reader).spec_transport().sent() == old(reader).spec_transport().sent()
            + spec_info_bytes(request),
        match r {
            Ok(v) => if request.spec_is_byte() {
                v@ == old(reader).stream().take(1) && old(reader).stream().len() >= 1
            } else {
                exists|i: int|
                    first_nul(old(reader).stream(), i) && i < 80 && (v@ == (if i > 0
                        && old(reader).stream()[0] == 0x5f {
                        old(reader).stream().subrange(1, i)
                    } else {
                        old(reader).stream().take(i)
                    }))
            },
            Err(Error::Framing(FramingError::UnexpectedEof)) => if request.spec_is_byte() {
                old(reader).stream().len() < 1
            } else {
                old(reader).stream().len() < 80 && nul_free(old(reader).stream(), old(reader).stream().len() as int)
            },
            Err(Error::Framing(FramingError::Overlength { max, got })) => !request.spec_is_byte() && max == 80
                && got == final(reader).spec_unread().len() && 80 <= got <= old(reader).stream().len()
                && nul_free(old(reader).stream(), 80),
            Err(e) => is_transport_error(e) && !old(reader).spec_transport().faultless(),
        },
        r is Ok && request.spec_is_byte() ==> final(reader).stream() == old(reader).stream().skip(1),
        r is Ok && !request.spec_is_byte() ==> exists|i: int|
            first_nul(old(reader).stream(), i) && final(reader).stream() == old(reader).stream().skip(i + 1),
        old(reader).spec_transport().faultless() ==> (r is Ok <==> if request.spec_is_byte() {
            old(reader).stream().len() >= 1
        } else {
            !nul_free(old(reader).stream(), 80)
        }),
{
    let ghost s = old(reader).stream();
    let q = encode_info(request);
    reader.transport_mut().write(&q)?;
    assert(reader.stream() == s);
    if request.is_byte() {
        return reader.read_exact_reply(1);
    }
    let mut data = reader.read_nul_reply(80)?;
    assert(first_nul(s, data@.len() as int));
    if data.len() > 0 && data[0] == 0x5f {
        let ghost before = data@;
        let rest = data.split_off(1);
        proof {
            assert(rest@ =~= before.subrange(1, before.len() as int));
        }
        return Ok(rest);
    }
    Ok(data)
}

} // verus!
