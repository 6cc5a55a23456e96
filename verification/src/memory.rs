//! In-memory transport: a deterministic scripted printer for tests and dry runs.

use vstd::prelude::*;

use std::collections::VecDeque;

use crate::bytes::push_slice;
use crate::error::{Error, IoErrorKind, Result};
use crate::transport::Transport;

verus! {

/// One `read` outcome for a deterministic fake transport.
#[derive(Debug, Clone, PartialEq, Eq)]
pub enum MemoryRead {
    Bytes(Vec<u8>),
    Interrupt,
}

/// The bytes a script of reads delivers, in order.
pub open spec fn script_bytes(reads: Seq<MemoryRead>) -> Seq<u8>
    decreases reads.len(),
{
    if reads.len() == 0 {
        Seq::empty()
    } else {
        match reads[0] {
            MemoryRead::Bytes(v) => v@ + script_bytes(reads.drop_first()),
            MemoryRead::Interrupt => script_bytes(reads.drop_first()),
        }
    }
}

/// How many interruptions a script of reads still holds.
pub open spec fn script_interrupts(reads: Seq<MemoryRead>) -> nat
    decreases reads.len(),
{
    if reads.len() == 0 {
        0
    } else {
        match reads[0] {
            MemoryRead::Bytes(_) => script_interrupts(reads.drop_first()),
            MemoryRead::Interrupt => 1 + script_interrupts(reads.drop_first()),
        }
    }
}

/// The script once the empty segments at its front are dropped: a read
/// passes over them.
pub open spec fn skip_empty(reads: Seq<MemoryRead>) -> Seq<MemoryRead>
    decreases reads.len(),
{
    if reads.len() > 0 && (reads[0] matches MemoryRead::Bytes(v) && v@.len() == 0) {
        skip_empty(reads.drop_first())
    } else {
        reads
    }
}

/// What one read of at most `cap` bytes does to the script `reads`: it
/// answers `r`, leaves `after` to be read and fills the buffer `before` to
/// `filled`. It takes from the next nonempty segment only, never from two;
/// an interruption is reported once and consumed; an empty script reads 0.
pub open spec fn memory_read(
    reads: Seq<MemoryRead>,
    before: Seq<u8>,
    r: Result<usize>,
    after: Seq<MemoryRead>,
    filled: Seq<u8>,
) -> bool {
    let s = skip_empty(reads);
    if s.len() == 0 {
        r == Ok::<usize, Error>(0) && after == s && filled == before
    } else {
        match s[0] {
            MemoryRead::Interrupt => {
                &&& r == Err::<usize, Error>(Error::Io(IoErrorKind::Interrupted))
                &&& after == s.drop_first()
                &&& filled == before
            },
            MemoryRead::Bytes(v) => {
                let n = if v@.len() < before.len() {
                    v@.len()
                } else {
                    before.len()
                };
                &&& r == Ok::<usize, Error>(n as usize)
                &&& filled.len() == before.len()
                &&& filled.take(n as int) == v@.take(n as int)
                &&& filled.skip(n as int) == before.skip(n as int)
                &&& if n == v@.len() {
                    after == s.drop_first()
                } else {
                    &&& after.len() == s.len()
                    &&& after.drop_first() == s.drop_first()
                    &&& after[0] matches MemoryRead::Bytes(t) && t@ == v@.skip(n as int)
                }
            },
        }
    }
}

/// What a script answers read by read when every read has room for a whole
/// segment: each nonempty segment's bytes in order, and `None` for each
/// interruption.
pub open spec fn read_outcomes(reads: Seq<MemoryRead>) -> Seq<Option<Seq<u8>>>
    decreases reads.len(),
{
    if reads.len() == 0 {
        Seq::empty()
    } else {
        match reads[0] {
            MemoryRead::Bytes(v) => if v@.len() == 0 {
                read_outcomes(reads.drop_first())
            } else {
                seq![Some(v@)] + read_outcomes(reads.drop_first())
            },
            MemoryRead::Interrupt => seq![None::<Seq<u8>>] + read_outcomes(reads.drop_first()),
        }
    }
}

/// Every segment of `reads` fits in `cap` bytes.
pub open spec fn segments_fit(reads: Seq<MemoryRead>, cap: nat) -> bool {
    forall|i: int| 0 <= i < reads.len() ==> (#[trigger] reads[i] matches MemoryRead::Bytes(v) ==> v@.len() <= cap)
}

proof fn lemma_skip_empty(reads: Seq<MemoryRead>)
    ensures
        read_outcomes(skip_empty(reads)) == read_outcomes(reads),
        exists|k: int| 0 <= k <= reads.len() && skip_empty(reads) == reads.skip(k),
        skip_empty(reads).len() > 0 ==> !(skip_empty(reads)[0] matches MemoryRead::Bytes(v) && v@.len() == 0),
    decreases reads.len(),
{
    if reads.len() > 0 && (reads[0] matches MemoryRead::Bytes(v) && v@.len() == 0) {
        lemma_skip_empty(reads.drop_first());
        let k = choose|k: int| 0 <= k <= reads.drop_first().len() && skip_empty(reads.drop_first()) == reads.drop_first().skip(k);
        assert(reads.drop_first().skip(k) =~= reads.skip(k + 1));
    } else {
        assert(reads.skip(0) =~= reads);
    }
}

/// Successive reads of a script: a read with room for every segment answers
/// the script's next outcome, the next nonempty segment whole and never part
/// of two, or an interruption, once; what it leaves answers the outcomes
/// after that one, and its segments still fit. With no outcome left, a read
/// gives 0.
pub proof fn lemma_successive_reads(
    reads: Seq<MemoryRead>,
    before: Seq<u8>,
    r: Result<usize>,
    after: Seq<MemoryRead>,
    filled: Seq<u8>,
)
    requires
        memory_read(reads, before, r, after, filled),
        segments_fit(reads, before.len()),
    ensures
        segments_fit(after, before.len()),
        read_outcomes(reads).len() == 0 ==> r == Ok::<usize, Error>(0) && read_outcomes(after).len()
            == 0 && filled == before,
        read_outcomes(reads).len() > 0 ==> read_outcomes(after) == read_outcomes(reads).drop_first()
            && match read_outcomes(reads)[0] {
            Some(v) => {
                &&& r == Ok::<usize, Error>(v.len() as usize)
                &&& filled.take(v.len() as int) == v
                &&& filled.skip(v.len() as int) == before.skip(v.len() as int)
            },
            None => r == Err::<usize, Error>(Error::Io(IoErrorKind::Interrupted)) && filled == before,
        },
{
    let s = skip_empty(reads);
    lemma_skip_empty(reads);
    let k = choose|k: int| 0 <= k <= reads.len() && skip_empty(reads) == reads.skip(k);
    assert forall|i: int| 0 <= i < s.len() implies (#[trigger] s[i] matches MemoryRead::Bytes(v) ==> v@.len() <= before.len()) by {
        assert(s[i] == reads[i + k]);
    }
    if s.len() > 0 {
        assert(read_outcomes(s) == match s[0] {
            MemoryRead::Bytes(v) => seq![Some(v@)] + read_outcomes(s.drop_first()),
            MemoryRead::Interrupt => seq![None::<Seq<u8>>] + read_outcomes(s.drop_first()),
        });
        assert(read_outcomes(s).drop_first() =~= read_outcomes(s.drop_first()));
        assert forall|i: int| 0 <= i < after.len() implies (#[trigger] after[i] matches MemoryRead::Bytes(v) ==> v@.len() <= before.len()) by {
            assert(after[i] == s[i + 1]);
        }
    }
}

#[derive(Debug, Default)]
pub struct Memory {
    pub written: Vec<u8>,
    reads: VecDeque<MemoryRead>,
}

impl Memory {
    pub closed spec fn script(&self) -> Seq<MemoryRead> {
        self.reads@
    }

    /// Everything written so far.
    pub closed spec fn written_bytes(&self) -> Seq<u8> {
        self.written@
    }

    /// Nothing to read.
    pub fn new() -> (m: Self)
        ensures
            m.written_bytes() == Seq::<u8>::empty(),
            m.script() == Seq::<MemoryRead>::empty(),
    {
        Memory { written: Vec::new(), reads: VecDeque::new() }
    }

    /// Deliver `replies` as a single pool; each `read` takes up to `buf.len()`.
    pub fn with_replies(replies: Vec<u8>) -> (m: Self)
        ensures
            m.written_bytes() == Seq::<u8>::empty(),
            m.script() == seq![MemoryRead::Bytes(replies)],
    {
        let mut reads: Vec<MemoryRead> = Vec::new();
        reads.push(MemoryRead::Bytes(replies));
        Self::with_reads(reads)
    }

    /// Each `read` returns at most the next segment, even when `buf` is larger.
    pub fn with_segments(segments: Vec<Vec<u8>>) -> (m: Self)
        ensures
            m.written_bytes() == Seq::<u8>::empty(),
            m.script().len() == segments@.len(),
            forall|i: int|
                0 <= i < segments@.len() ==> #[trigger] m.script()[i] == MemoryRead::Bytes(
                    segments@[i],
                ),
    {
        let ghost all = segments@;
        let mut reads: VecDeque<MemoryRead> = VecDeque::new();
        for s in it: segments.into_iter()
            invariant
                it.seq() == all,
                reads@.len() == it.index(),
                forall|i: int| 0 <= i < it.index() ==> #[trigger] reads@[i] == MemoryRead::Bytes(all[i]),
        {
            reads.push_back(MemoryRead::Bytes(s));
        }
        Memory { written: Vec::new(), reads }
    }

    /// Scripted `read` outcomes, consumed front to back.
    pub fn with_reads(reads: Vec<MemoryRead>) -> (m: Self)
        ensures
            m.written_bytes() == Seq::<u8>::empty(),
            m.script() == reads@,
    {
        let ghost all = reads@;
        let mut queue: VecDeque<MemoryRead> = VecDeque::new();
        for r in it: reads.into_iter()
            invariant
                it.seq() == all,
                queue@ == all.take(it.index() as int),
        {
            queue.push_back(r);
            assert(queue@ =~= all.take(it.index() + 1));
        }
        assert(all.take(all.len() as int) =~= all);
        Memory { written: Vec::new(), reads: queue }
    }
}

impl Transport for Memory {
    open spec fn pending(&self) -> Seq<u8> {
        script_bytes(self.script())
    }

    open spec fn interrupts(&self) -> nat {
        script_interrupts(self.script())
    }

    open spec fn faultless(&self) -> bool {
        true
    }

    open spec fn sent(&self) -> Seq<u8> {
        self.written_bytes()
    }

    fn write(&mut self, data: &[u8]) -> (r: Result<()>) {
        push_slice(&mut self.written, data);
        Ok(())
    }

    fn read(&mut self, buf: &mut [u8]) -> (r: Result<usize>)
        ensures
            memory_read(old(self).script(), old(buf)@, r, final(self).script(), final(buf)@),
    {
        loop
            invariant
                buf@.len() == old(buf)@.len(),
                buf@ == old(buf)@,
                self.written@ == old(self).written@,
                script_bytes(self.reads@) == script_bytes(old(self).reads@),
                script_interrupts(self.reads@) == script_interrupts(old(self).reads@),
                skip_empty(self.reads@) == skip_empty(old(self).reads@),
            decreases self.reads@.len(),
        {
            let ghost before = self.reads@;
            match self.reads.pop_front() {
                None => {
                    return Ok(0);
                },
                Some(MemoryRead::Interrupt) => {
                    assert(before.drop_first() =~= self.reads@);
                    return Err(Error::Io(IoErrorKind::Interrupted));
                },
                Some(MemoryRead::Bytes(chunk)) => {
                    let ghost orig = chunk@;
                    let ghost rest_reads = self.reads@;
                    assert(before.drop_first() =~= rest_reads);
                    assert(script_bytes(before) == orig + script_bytes(rest_reads));
                    if chunk.len() == 0 {
                        assert(orig + script_bytes(rest_reads) =~= script_bytes(rest_reads));
                        continue;
                    }
                    assert(skip_empty(before) == before);
                    let n = if chunk.len() < buf.len() { chunk.len() } else { buf.len() };
                    let mut i: usize = 0;
                    while i < n
                        invariant
                            n <= chunk@.len(),
                            n <= buf@.len(),
                            i <= n,
                            buf@.len() == old(buf)@.len(),
                            forall|j: int| 0 <= j < i ==> buf@[j] == chunk@[j],
                            forall|j: int| i <= j < buf@.len() ==> buf@[j] == old(buf)@[j],
                        decreases n - i,
                    {
                        buf[i] = chunk[i];
                        i = i + 1;
                    }
                    let mut chunk = chunk;
                    let tail = chunk.split_off(n);
                    let ghost tail_view = tail@;
                    assert(buf@.take(n as int) =~= orig.take(n as int));
                    assert(buf@.skip(n as int) =~= old(buf)@.skip(n as int));
                    if tail.len() > 0 {
                        self.reads.push_front(MemoryRead::Bytes(tail));
                        assert(self.reads@.drop_first() =~= rest_reads);
                        assert(script_bytes(self.reads@) == tail_view + script_bytes(rest_reads));
                    } else {
                        assert(tail_view + script_bytes(rest_reads) =~= script_bytes(rest_reads));
                    }
                    proof {
                        let rest = script_bytes(rest_reads);
                        assert(orig == orig.take(n as int) + tail_view);
                        assert(buf@.take(n as int) =~= (orig + rest).take(n as int));
                        assert((orig + rest).skip(n as int) =~= tail_view + rest);
                    }
                    return Ok(n);
                },
            }
        }
    }
}

} // verus!
