//! Byte-sequence vocabulary shared by the encoders.

use vstd::prelude::*;

verus! {

/// The UTF-8 bytes of a text, as `str::as_bytes` hands them out.
pub open spec fn utf8(s: Seq<char>) -> Seq<u8> {
    vstd::utf8::encode_utf8(s)
}

proof fn lemma_low_bits(v: u32)
    by (bit_vector)
    requires
        v <= 0x7f,
    ensures
        (v & 0x7f) == v,
{
}

/// The UTF-8 bytes of ASCII text are its characters, one byte each.
pub proof fn lemma_ascii_utf8(s: Seq<char>)
    requires
        forall|i: int| 0 <= i < s.len() ==> (#[trigger] s[i] as u32) < 0x80,
    ensures
        utf8(s).len() == s.len(),
        forall|i: int| 0 <= i < s.len() ==> #[trigger] utf8(s)[i] == (s[i] as u32) as u8,
    decreases s.len(),
{
    if s.len() > 0 {
        let t = s.drop_first();
        assert forall|i: int| 0 <= i < t.len() implies (#[trigger] t[i] as u32) < 0x80 by {
            assert(t[i] == s[i + 1]);
        }
        lemma_ascii_utf8(t);
        let c = s[0] as u32;
        assert(c < 0x80);
        lemma_low_bits(c);
        let head = vstd::utf8::encode_scalar(c);
        assert(head == seq![(c & 0x7f) as u8]);
        assert(utf8(s) == head + utf8(t));
        assert forall|i: int| 0 <= i < s.len() implies #[trigger] utf8(s)[i] == (s[i] as u32) as u8 by {
            if i == 0 {
                assert(utf8(s)[0] == head[0]);
            } else {
                assert(utf8(s)[i] == utf8(t)[i - 1]);
                assert(t[i - 1] == s[i]);
            }
        }
    }
}

pub open spec fn is_digit(b: u8) -> bool {
    0x30 <= b <= 0x39
}

pub open spec fn all_digits(s: Seq<u8>) -> bool {
    forall|i: int| 0 <= i < s.len() ==> is_digit(#[trigger] s[i])
}

pub open spec fn all_ascii(s: Seq<u8>) -> bool {
    forall|i: int| 0 <= i < s.len() ==> #[trigger] s[i] < 0x80
}

/// Append every byte of `s` to `out`.
pub fn push_slice(out: &mut Vec<u8>, s: &[u8])
    ensures
        final(out)@ == old(out)@ + s@,
{
    let ghost start = out@;
    let mut i: usize = 0;
    while i < s.len()
        invariant
            i <= s.len(),
            out@ == start + s@.take(i as int),
        decreases s.len() - i,
    {
        out.push(s[i]);
        i = i + 1;
        assert(s@.take(i as int) == s@.take(i - 1).push(s@[i - 1]));
    }
    assert(s@.take(s.len() as int) == s@);
}

/// A fresh vector holding the bytes of `s`.
pub fn copy_bytes(s: &[u8]) -> (v: Vec<u8>)
    ensures
        v@ == s@,
{
    let mut v: Vec<u8> = Vec::new();
    push_slice(&mut v, s);
    assert(v@ =~= s@);
    v
}

/// Move every byte of `v` onto the end of `out`.
pub fn push_vec(out: &mut Vec<u8>, v: Vec<u8>)
    ensures
        final(out)@ == old(out)@ + v@,
{
    let mut v = v;
    out.append(&mut v);
}

/// `true` when every byte is an ASCII digit.
pub fn digits_only(s: &[u8]) -> (r: bool)
    ensures
        r == all_digits(s@),
{
    let mut i: usize = 0;
    while i < s.len()
        invariant
            i <= s.len(),
            all_digits(s@.take(i as int)),
        decreases s.len() - i,
    {
        if !(0x30 <= s[i] && s[i] <= 0x39) {
            assert(!is_digit(s@[i as int]));
            return false;
        }
        i = i + 1;
        assert(forall|j: int| 0 <= j < i ==> s@.take(i as int)[j] == s@[j]);
    }
    assert(s@.take(s.len() as int) == s@);
    true
}

/// `true` when every byte is below `0x80`.
pub fn ascii_only(s: &[u8]) -> (r: bool)
    ensures
        r == all_ascii(s@),
{
    let mut i: usize = 0;
    while i < s.len()
        invariant
            i <= s.len(),
            all_ascii(s@.take(i as int)),
        decreases s.len() - i,
    {
        if s[i] >= 0x80 {
            return false;
        }
        i = i + 1;
        assert(forall|j: int| 0 <= j < i ==> s@.take(i as int)[j] == s@[j]);
    }
    assert(s@.take(s.len() as int) == s@);
    true
}

} // verus!

verus! {

/// A byte-producing result, seen through the bytes it produced.
pub open spec fn bytes_result<E>(r: Result<Vec<u8>, E>) -> Result<Seq<u8>, E> {
    match r {
        Ok(v) => Ok(v@),
        Err(e) => Err(e),
    }
}

} // verus!
