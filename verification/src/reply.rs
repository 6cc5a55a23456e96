//! Persistent unread remainder for length- and NUL-delimited printer replies.
//!
//! A reader sees the printer as one byte stream: what it has already pulled
//! but not yet framed, followed by what the transport will still deliver.
//! Framing is a function of that stream alone; how the transport chunks it
//! does not change which frames come out.

use vstd::prelude::*;

use crate::bytes::push_slice;
use crate::error::{
    is_interrupted, is_transport_error, Error, FramingError, IdentifyError, IoErrorKind, Result,
    UsbError,
};
use crate::identify::{completion_id, parse_process_id};
use crate::transport::Transport;

verus! {

/// `s[i]` is the first NUL of `s`.
pub open spec fn first_nul(s: Seq<u8>, i: int) -> bool {
    &&& 0 <= i < s.len()
    &&& s[i] == 0
    &&& forall|j: int| 0 <= j < i ==> s[j] != 0
}

/// A NUL-framed reply depends on the reply stream alone: two reads over the
/// same stream, however the transport cut it into chunks and whatever
/// interruptions came between them, frame the same payload and leave the same
/// remainder for the next frame.
pub proof fn lemma_nul_frame_unique(s: Seq<u8>, a: Seq<u8>, b: Seq<u8>)
    requires
        first_nul(s, a.len() as int),
        a == s.take(a.len() as int),
        first_nul(s, b.len() as int),
        b == s.take(b.len() as int),
    ensures
        a == b,
        s.skip(a.len() as int + 1) == s.skip(b.len() as int + 1),
{
    if a.len() < b.len() {
        assert(s[a.len() as int] == 0);
    } else if b.len() < a.len() {
        assert(s[b.len() as int] == 0);
    }
}

/// No NUL among the first `k` bytes of `s`.
pub open spec fn nul_free(s: Seq<u8>, k: int) -> bool {
    forall|j: int| 0 <= j < k && j < s.len() ==> s[j] != 0
}

/// Owns a transport and any bytes already read past a completed frame.
pub struct ReplyReader<T: Transport> {
    transport: T,
    unread: Vec<u8>,
}

impl<T: Transport> ReplyReader<T> {
    pub closed spec fn spec_transport(&self) -> T {
        self.transport
    }

    pub closed spec fn spec_unread(&self) -> Seq<u8> {
        self.unread@
    }

    /// Everything the printer has said that no frame has consumed yet.
    pub open spec fn stream(&self) -> Seq<u8> {
        self.spec_unread() + self.spec_transport().pending()
    }

    /// The transport kept its identity: what was sent, and whether it may fail.
    pub open spec fn same_link(&self, other: &Self) -> bool {
        &&& self.spec_transport().sent() == other.spec_transport().sent()
        &&& self.spec_transport().faultless() == other.spec_transport().faultless()
    }

    pub fn new(transport: T) -> (r: Self)
        ensures
            r.spec_transport() == transport,
            r.spec_unread() == Seq::<u8>::empty(),
    {
        ReplyReader { transport, unread: Vec::new() }
    }

    pub fn transport(&self) -> (t: &T)
        ensures
            *t == self.spec_transport(),
    {
        &self.transport
    }

    pub fn transport_mut(&mut self) -> (t: &mut T)
        ensures
            *t == old(self).spec_transport(),
            final(self).spec_transport() == *final(t),
            final(self).spec_unread() == old(self).spec_unread(),
    {
        &mut self.transport
    }

    pub fn into_inner(self) -> (t: T)
        ensures
            t == self.spec_transport(),
    {
        self.transport
    }

    /// Bytes already pulled from the transport but not yet framed.
    pub fn unread(&self) -> (u: &[u8])
        ensures
            u@ == self.spec_unread(),
    {
        self.unread.as_slice()
    }

    /// Read exactly `n` bytes, retaining any coalesced tail for later frames.
    pub fn read_exact_reply(&mut self, n: usize) -> (r: Result<Vec<u8>>)
        ensures
            final(self).same_link(old(self)),
            match r {
                Ok(v) => {
                    &&& old(self).stream().len() >= n
                    &&& v@ == old(self).stream().take(n as int)
                    &&& final(self).stream() == old(self).stream().skip(n as int)
                },
                Err(Error::Framing(FramingError::UnexpectedEof)) => {
                    &&& old(self).stream().len() < n
                    &&& final(self).stream() == old(self).stream()
                },
                Err(e) => is_transport_error(e) && !is_interrupted(e)
                    && !old(self).spec_transport().faultless(),
            },
            old(self).spec_transport().faultless() ==> (r is Ok <==> old(self).stream().len() >= n),
    {
        while self.unread.len() < n
            invariant
                self.stream() == old(self).stream(),
                self.same_link(old(self)),
            decreases if self.unread@.len() < n {
                n - self.unread@.len()
            } else {
                0
            },
        {
            let got = self.pull()?;
            if got == 0 {
                return Err(Error::Framing(FramingError::UnexpectedEof));
            }
        }
        let rest = self.unread.split_off(n);
        let mut frame = rest;
        core::mem::swap(&mut frame, &mut self.unread);
        proof {
            assert(old(self).stream().take(n as int) =~= frame@);
            assert(old(self).stream().skip(n as int) =~= self.stream());
        }
        Ok(frame)
    }

    /// Read through a NUL, bounded by `max` bytes examined (including the NUL).
    /// The returned payload excludes the terminator; bytes after it stay unread.
    ///
    /// `Overlength.got` is the buffered length observed when the bound is
    /// exceeded — the unread remainder after a pull, not `max` and not a
    /// transport chunk size — so a 10-byte reply without a NUL read in one
    /// chunk with `max = 4` reports `got = 10`.
    pub fn read_nul_reply(&mut self, max: usize) -> (r: Result<Vec<u8>>)
        ensures
            final(self).same_link(old(self)),
            match r {
                Ok(v) => {
                    &&& first_nul(old(self).stream(), v@.len() as int)
                    &&& v@.len() < max
                    &&& v@ == old(self).stream().take(v@.len() as int)
                    &&& final(self).stream() == old(self).stream().skip(v@.len() as int + 1)
                },
                Err(Error::Framing(FramingError::Overlength { max: m, got })) => {
                    &&& m == max
                    &&& got == final(self).spec_unread().len()
                    &&& final(self).spec_unread() == old(self).stream().take(got as int)
                    &&& max <= got <= old(self).stream().len()
                    &&& nul_free(old(self).stream(), max as int)
                    &&& final(self).stream() == old(self).stream()
                },
                Err(Error::Framing(FramingError::UnexpectedEof)) => {
                    &&& old(self).stream().len() < max
                    &&& nul_free(old(self).stream(), old(self).stream().len() as int)
                    &&& final(self).stream() == old(self).stream()
                },
                Err(e) => is_transport_error(e) && !is_interrupted(e)
                    && !old(self).spec_transport().faultless(),
            },
            old(self).spec_transport().faultless() ==> (r is Ok <==> !nul_free(
                old(self).stream(),
                max as int,
            )),
    {
        loop
            invariant
                self.stream() == old(self).stream(),
                self.same_link(old(self)),
            decreases if self.unread@.len() < max {
                max - self.unread@.len()
            } else {
                0
            },
        {
            match find_nul(self.unread.as_slice()) {
                Some(i) => {
                    assert(self.unread@[i as int] == 0);
                    assert(old(self).stream()[i as int] == 0);
                    if i >= max {
                        return Err(
                            Error::Framing(FramingError::Overlength { max, got: self.unread.len() }),
                        );
                    }
                    let rest = self.unread.split_off(i + 1);
                    let mut frame = rest;
                    core::mem::swap(&mut frame, &mut self.unread);
                    frame.pop();
                    proof {
                        assert(old(self).stream().take(i as int) =~= frame@);
                        assert(old(self).stream().skip(i + 1) =~= self.stream());
                    }
                    return Ok(frame);
                },
                None => {},
            }
            if self.unread.len() >= max {
                return Err(Error::Framing(FramingError::Overlength { max, got: self.unread.len() }));
            }
            if self.pull()? == 0 {
                return Err(Error::Framing(FramingError::UnexpectedEof));
            }
        }
    }

    /// Read the seven-byte `GS ( H` reply and require its ID to equal `requested`.
    pub fn read_process_completion(&mut self, requested: [u8; 4]) -> (r: Result<[u8; 4]>)
        ensures
            final(self).same_link(old(self)),
            match r {
                Ok(id) => {
                    &&& old(self).stream().len() >= 7
                    &&& completion_id(old(self).stream().take(7)) == Some(requested@)
                    &&& id@ == requested@
                    &&& final(self).stream() == old(self).stream().skip(7)
                },
                Err(Error::Framing(FramingError::WrongId { requested: rq, got })) => {
                    &&& old(self).stream().len() >= 7
                    &&& rq@ == requested@
                    &&& completion_id(old(self).stream().take(7)) == Some(got@)
                    &&& got@ != requested@
                    &&& final(self).stream() == old(self).stream().skip(7)
                },
                Err(Error::Identify(IdentifyError::Unexpected { got })) => {
                    &&& old(self).stream().len() >= 7
                    &&& got@ == old(self).stream().take(7)
                    &&& completion_id(got@) is None
                    &&& final(self).stream() == old(self).stream().skip(7)
                },
                Err(Error::Framing(FramingError::UnexpectedEof)) => {
                    &&& old(self).stream().len() < 7
                    &&& final(self).stream() == old(self).stream()
                },
                Err(e) => is_transport_error(e) && !is_interrupted(e)
                    && !old(self).spec_transport().faultless(),
            },
    {
        let buf = self.read_exact_reply(7)?;
        let got = match parse_process_id(buf.as_slice()) {
            Ok(id) => id,
            Err(e) => return Err(Error::Identify(e)),
        };
        if got[0] != requested[0] || got[1] != requested[1] || got[2] != requested[2] || got[3]
            != requested[3] {
            proof {
                assert(got@ != requested@) by {
                    if got@ == requested@ {
                        assert(got@[0] == requested@[0]);
                        assert(got@[1] == requested@[1]);
                        assert(got@[2] == requested@[2]);
                        assert(got@[3] == requested@[3]);
                    }
                }
            }
            return Err(Error::Framing(FramingError::WrongId { requested, got }));
        }
        assert(got@ =~= requested@);
        Ok(got)
    }

    /// Pull one chunk from the transport, retrying interrupted reads.
    fn pull(&mut self) -> (r: Result<usize>)
        ensures
            final(self).stream() == old(self).stream() || r is Err,
            final(self).same_link(old(self)),
            match r {
                Ok(n) => {
                    &&& final(self).spec_unread() == old(self).spec_unread() + old(
                        self,
                    ).spec_transport().pending().take(n as int)
                    &&& (n == 0 <==> old(self).spec_transport().pending().len() == 0)
                    &&& final(self).spec_unread().len() == old(self).spec_unread().len() + n
                    &&& final(self).stream() == old(self).stream()
                },
                Err(e) => {
                    &&& is_transport_error(e)
                    &&& !is_interrupted(e)
                    &&& !old(self).spec_transport().faultless()
                    &&& final(self).spec_unread() == old(self).spec_unread()
                },
            },
    {
        let mut buf: Vec<u8> = vec![0u8; 256];
        loop
            invariant
                buf@.len() == 256,
                self.spec_unread() == old(self).spec_unread(),
                self.spec_transport().pending() == old(self).spec_transport().pending(),
                self.same_link(old(self)),
            decreases self.transport.interrupts(),
        {
            match self.transport.read(buf.as_mut_slice()) {
                Ok(n) => {
                    if n > 0 {
                        push_slice(&mut self.unread, slice_prefix(buf.as_slice(), n));
                    }
                    proof {
                        let p = old(self).spec_transport().pending();
                        assert(p =~= p.take(n as int) + p.skip(n as int));
                        if n == 0 {
                            assert(self.unread@ =~= old(self).spec_unread() + p.take(0));
                        }
                    }
                    return Ok(n);
                },
                Err(e) => {
                    if !interrupted(&e) {
                        return Err(e);
                    }
                },
            }
        }
    }
}

/// The first `n` bytes of `s`.
fn slice_prefix(s: &[u8], n: usize) -> (p: &[u8])
    requires
        n <= s@.len(),
    ensures
        p@ == s@.take(n as int),
{
    vstd::slice::slice_subrange(s, 0, n)
}

/// Index of the first NUL in `s`, if any.
fn find_nul(s: &[u8]) -> (r: Option<usize>)
    ensures
        match r {
            Some(i) => first_nul(s@, i as int),
            None => nul_free(s@, s@.len() as int),
        },
{
    let mut i: usize = 0;
    while i < s.len()
        invariant
            i <= s@.len(),
            nul_free(s@, i as int),
        decreases s.len() - i,
    {
        if s[i] == 0 {
            return Some(i);
        }
        i = i + 1;
    }
    None
}

/// An interrupted read, from the operating system or from the USB stack.
fn interrupted(err: &Error) -> (b: bool)
    ensures
        b == is_interrupted(*err),
{
    match err {
        Error::Io(IoErrorKind::Interrupted) => true,
        Error::Usb(UsbError::Transfer(IoErrorKind::Interrupted)) => true,
        _ => false,
    }
}

} // verus!
