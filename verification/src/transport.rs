//! Byte sink. The protocol is [`crate::encode::encode`]; this is I/O.
//!
//! [`Transport::read`] may return a short count. A zero count on a nonempty
//! buffer is end-of-stream. An interrupted read is reported to the caller so
//! [`crate::reply::ReplyReader`] can retry it. [`Transport::write`] delivers
//! the slice once; a failed or uncertain write is not turned into a second job.

use vstd::prelude::*;

use crate::error::{is_interrupted, is_transport_error, Result};

verus! {

/// A bidirectional byte pipe to the printer.
///
/// The model: a transport will still deliver the byte stream `pending()`, in
/// order, in chunks of its own choosing; it may interrupt a read at most
/// `interrupts()` more times in a row of retries; a `faultless()` transport
/// fails only by interruption; `sent()` is everything written so far.
pub trait Transport {
    closed spec fn pending(&self) -> Seq<u8> {
        Seq::empty()
    }

    closed spec fn interrupts(&self) -> nat {
        0
    }

    closed spec fn faultless(&self) -> bool {
        false
    }

    closed spec fn sent(&self) -> Seq<u8> {
        Seq::empty()
    }

    fn write(&mut self, data: &[u8]) -> (r: Result<()>)
        ensures
            final(self).pending() == old(self).pending(),
            final(self).interrupts() == old(self).interrupts(),
            final(self).faultless() == old(self).faultless(),
            r is Ok ==> final(self).sent() == old(self).sent() + data@,
            r is Err ==> is_transport_error(r->Err_0) && !old(self).faultless(),
    ;

    fn read(&mut self, buf: &mut [u8]) -> (r: Result<usize>)
        ensures
            final(buf)@.len() == old(buf)@.len(),
            final(self).faultless() == old(self).faultless(),
            final(self).sent() == old(self).sent(),
            match r {
                Ok(n) => {
                    &&& n <= old(buf)@.len()
                    &&& n <= old(self).pending().len()
                    &&& final(buf)@.take(n as int) == old(self).pending().take(n as int)
                    &&& final(self).pending() == old(self).pending().skip(n as int)
                    &&& final(self).interrupts() <= old(self).interrupts()
                    &&& (n == 0 <==> (old(buf)@.len() == 0 || old(self).pending().len() == 0))
                },
                Err(e) => {
                    &&& is_transport_error(e)
                    &&& (is_interrupted(e) ==> final(self).pending() == old(self).pending()
                        && final(self).interrupts() < old(self).interrupts())
                    &&& (old(self).faultless() ==> is_interrupted(e))
                },
            },
    ;
}

} // verus!
