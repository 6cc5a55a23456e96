//! Digests that name provider objects, and the provider error.

use vstd::prelude::*;

use crate::connector::ExternalKey;
use crate::http::TransportError;
use crate::text::same_text;

use std::collections::VecDeque;

verus! {

/// The 32-byte BLAKE3 hash of `input`.
pub uninterp spec fn blake3_hash(input: Seq<u8>) -> Seq<u8>;

/// `blake3::hash`: the 32-byte BLAKE3 digest of `input`. The contract claims
/// only that the digest is a function of the input bytes, named
/// `blake3_hash`; it says nothing of its value.
#[verifier::external_body]
fn blake3_digest(input: &[u8]) -> (h: [u8; 32])
    ensures
        h@ == blake3_hash(input@),
{
    *blake3::hash(input).as_bytes()
}

/// `n` as eight big-endian bytes.
pub open spec fn be64(n: nat) -> Seq<u8> {
    seq![
        ((n / 0x100000000000000) % 256) as u8,
        ((n / 0x1000000000000) % 256) as u8,
        ((n / 0x10000000000) % 256) as u8,
        ((n / 0x100000000) % 256) as u8,
        ((n / 0x1000000) % 256) as u8,
        ((n / 0x10000) % 256) as u8,
        ((n / 0x100) % 256) as u8,
        (n % 256) as u8,
    ]
}

/// Each value preceded by its length as eight big-endian bytes.
pub open spec fn framed_values(values: Seq<Seq<u8>>) -> Seq<u8>
    decreases values.len(),
{
    if values.len() == 0 {
        Seq::empty()
    } else {
        framed_values(values.drop_last()) + be64(values.last().len()) + values.last()
    }
}

/// The bytes a digest is taken over: the namespace, then the framed values.
pub open spec fn framed(namespace: Seq<u8>, values: Seq<Seq<u8>>) -> Seq<u8> {
    namespace + framed_values(values)
}

proof fn lemma_framed_front(values: Seq<Seq<u8>>)
    requires
        values.len() > 0,
    ensures
        framed_values(values) == be64(values[0].len()) + values[0] + framed_values(values.drop_first()),
    decreases values.len(),
{
    if values.len() == 1 {
        assert(values.drop_last() =~= Seq::<Seq<u8>>::empty());
        assert(values.drop_first() =~= Seq::<Seq<u8>>::empty());
        assert(framed_values(values) =~= be64(values[0].len()) + values[0] + framed_values(values.drop_first()));
    } else {
        let d = values.drop_last();
        lemma_framed_front(d);
        assert(values.drop_first().drop_last() =~= d.drop_first());
        assert(values.drop_first().last() == values.last());
        assert(d[0] == values[0]);
        assert(framed_values(values) =~= be64(values[0].len()) + values[0] + framed_values(values.drop_first()));
    }
}

proof fn lemma_be64_injective(a: nat, b: nat)
    requires
        a < 0x1_0000_0000_0000_0000,
        b < 0x1_0000_0000_0000_0000,
        be64(a) == be64(b),
    ensures
        a == b,
{
    let x = a as u64;
    let y = b as u64;
    assert(be64(a)[0] == be64(b)[0]);
    assert(be64(a)[1] == be64(b)[1]);
    assert(be64(a)[2] == be64(b)[2]);
    assert(be64(a)[3] == be64(b)[3]);
    assert(be64(a)[4] == be64(b)[4]);
    assert(be64(a)[5] == be64(b)[5]);
    assert(be64(a)[6] == be64(b)[6]);
    assert(be64(a)[7] == be64(b)[7]);
    assert(x == y) by (bit_vector)
        requires
            (x / 0x100000000000000) % 256 == (y / 0x100000000000000) % 256,
            (x / 0x1000000000000) % 256 == (y / 0x1000000000000) % 256,
            (x / 0x10000000000) % 256 == (y / 0x10000000000) % 256,
            (x / 0x100000000) % 256 == (y / 0x100000000) % 256,
            (x / 0x1000000) % 256 == (y / 0x1000000) % 256,
            (x / 0x10000) % 256 == (y / 0x10000) % 256,
            (x / 0x100) % 256 == (y / 0x100) % 256,
            x % 256 == y % 256,
    ;
}

proof fn lemma_framed_values_injective(a: Seq<Seq<u8>>, b: Seq<Seq<u8>>)
    requires
        forall|i: int| 0 <= i < a.len() ==> (#[trigger] a[i]).len() < 0x1_0000_0000_0000_0000,
        forall|i: int| 0 <= i < b.len() ==> (#[trigger] b[i]).len() < 0x1_0000_0000_0000_0000,
        framed_values(a) == framed_values(b),
    ensures
        a == b,
    decreases a.len(),
{
    if a.len() == 0 && b.len() == 0 {
        assert(a =~= b);
    } else if a.len() == 0 {
        lemma_framed_front(b);
        assert(framed_values(b).len() >= 8);
    } else if b.len() == 0 {
        lemma_framed_front(a);
        assert(framed_values(a).len() >= 8);
    } else {
        let ra = framed_values(a.drop_first());
        let rb = framed_values(b.drop_first());
        lemma_framed_front(a);
        lemma_framed_front(b);
        lemma_split_framed(framed_values(a), be64(a[0].len()), a[0], ra);
        lemma_split_framed(framed_values(b), be64(b[0].len()), b[0], rb);
        lemma_be64_injective(a[0].len(), b[0].len());
        assert(a[0] =~= b[0]);
        assert forall|i: int| 0 <= i < a.drop_first().len() implies (#[trigger] a.drop_first()[i]).len() < 0x1_0000_0000_0000_0000 by {
            assert(a.drop_first()[i] == a[i + 1]);
        }
        assert forall|i: int| 0 <= i < b.drop_first().len() implies (#[trigger] b.drop_first()[i]).len() < 0x1_0000_0000_0000_0000 by {
            assert(b.drop_first()[i] == b[i + 1]);
        }
        lemma_framed_values_injective(a.drop_first(), b.drop_first());
        assert(a =~= seq![a[0]] + a.drop_first());
        assert(b =~= seq![b[0]] + b.drop_first());
    }
}

proof fn lemma_split_framed(x: Seq<u8>, p: Seq<u8>, q: Seq<u8>, r: Seq<u8>)
    requires
        p.len() == 8,
        x == p + q + r,
    ensures
        x.subrange(0, 8) == p,
        x.subrange(8, 8 + q.len() as int) == q,
        x.skip(8 + q.len() as int) == r,
{
    assert(x.subrange(0, 8) =~= p);
    assert(x.subrange(8, 8 + q.len() as int) =~= q);
    assert(x.skip(8 + q.len() as int) =~= r);
}

/// Under one namespace, different lists of values are hashed from
/// different bytes: the length prefixes leave no two lists with the same
/// framing.
pub proof fn lemma_framing_unambiguous(namespace: Seq<u8>, a: Seq<Seq<u8>>, b: Seq<Seq<u8>>)
    requires
        forall|i: int| 0 <= i < a.len() ==> (#[trigger] a[i]).len() < 0x1_0000_0000_0000_0000,
        forall|i: int| 0 <= i < b.len() ==> (#[trigger] b[i]).len() < 0x1_0000_0000_0000_0000,
        a != b,
    ensures
        framed(namespace, a) != framed(namespace, b),
{
    if framed(namespace, a) == framed(namespace, b) {
        assert(framed(namespace, a).skip(namespace.len() as int) =~= framed_values(a));
        assert(framed(namespace, b).skip(namespace.len() as int) =~= framed_values(b));
        lemma_framed_values_injective(a, b);
    }
}

/// The digest of `values` under `namespace`.
pub open spec fn spec_digest(namespace: Seq<char>, values: Seq<Seq<u8>>) -> Seq<u8> {
    blake3_hash(framed(vstd::utf8::encode_utf8(namespace), values))
}

/// The values of a slice of byte slices.
pub open spec fn slices_view(values: Seq<&[u8]>) -> Seq<Seq<u8>> {
    values.map_values(|v: &[u8]| v@)
}

fn push_all(out: &mut Vec<u8>, bytes: &[u8])
    ensures
        final(out)@ == old(out)@ + bytes@,
{
    let mut i: usize = 0;
    while i < bytes.len()
        invariant
            i <= bytes@.len(),
            out@ == old(out)@ + bytes@.take(i as int),
        decreases bytes@.len() - i,
    {
        out.push(bytes[i]);
        assert(bytes@.take(i + 1) =~= bytes@.take(i as int).push(bytes@[i as int]));
        i = i + 1;
    }
    assert(bytes@.take(bytes@.len() as int) =~= bytes@);
}

/// `n` as eight big-endian bytes.
pub fn be64_bytes(n: u64) -> (b: [u8; 8])
    ensures
        b@ == be64(n as nat),
{
    let b = [
        ((n / 0x100000000000000) % 256) as u8,
        ((n / 0x1000000000000) % 256) as u8,
        ((n / 0x10000000000) % 256) as u8,
        ((n / 0x100000000) % 256) as u8,
        ((n / 0x1000000) % 256) as u8,
        ((n / 0x10000) % 256) as u8,
        ((n / 0x100) % 256) as u8,
        (n % 256) as u8,
    ];
    assert(b@ =~= be64(n as nat));
    b
}

/// The digest naming `values` in `namespace`: BLAKE3 over the namespace's
/// UTF-8 bytes followed by each value, length-prefixed.
pub fn digest_parts(namespace: &str, values: &[&[u8]]) -> (k: ExternalKey)
    ensures
        k.0@ == spec_digest(namespace@, slices_view(values@)),
{
    let mut input: Vec<u8> = Vec::new();
    push_all(&mut input, namespace.as_bytes());
    let ghost ns = vstd::utf8::encode_utf8(namespace@);
    assert(input@ =~= ns);
    let mut i: usize = 0;
    while i < values.len()
        invariant
            i <= values@.len(),
            input@ == framed(ns, slices_view(values@).take(i as int)),
        decreases values@.len() - i,
    {
        let value: &[u8] = values[i];
        let len = be64_bytes(value.len() as u64);
        push_all(&mut input, &len);
        push_all(&mut input, value);
        proof {
            let vs = slices_view(values@);
            assert(vs.take(i + 1).drop_last() =~= vs.take(i as int));
            assert(vs.take(i + 1).last() == value@);
            assert(input@ =~= framed(ns, vs.take(i + 1)));
        }
        i = i + 1;
    }
    assert(slices_view(values@).take(values@.len() as int) =~= slices_view(values@));
    ExternalKey(blake3_digest(input.as_slice()))
}

/// The digest naming one value in `namespace`.
pub fn digest(namespace: &str, value: &[u8]) -> (k: ExternalKey)
    ensures
        k.0@ == spec_digest(namespace@, seq![value@]),
{
    let values: [&[u8]; 1] = [value];
    let k = digest_parts(namespace, &values);
    assert(slices_view(values@) =~= seq![value@]);
    k
}

/// Byte-wise lexicographic order, the order of `str`.
pub open spec fn bytes_lt(a: Seq<u8>, b: Seq<u8>) -> bool
    decreases a.len(),
{
    if b.len() == 0 {
        false
    } else if a.len() == 0 {
        true
    } else if a[0] != b[0] {
        a[0] < b[0]
    } else {
        bytes_lt(a.drop_first(), b.drop_first())
    }
}

/// `a < b` for strings: the order of their UTF-8 bytes.
pub open spec fn text_lt(a: Seq<char>, b: Seq<char>) -> bool {
    bytes_lt(vstd::utf8::encode_utf8(a), vstd::utf8::encode_utf8(b))
}

fn bytes_lt_exec(a: &[u8], b: &[u8]) -> (r: bool)
    ensures
        r == bytes_lt(a@, b@),
{
    let mut i: usize = 0;
    assert(a@.skip(0) =~= a@);
    assert(b@.skip(0) =~= b@);
    while i < a.len() && i < b.len()
        invariant
            i <= a@.len(),
            i <= b@.len(),
            bytes_lt(a@, b@) == bytes_lt(a@.skip(i as int), b@.skip(i as int)),
        decreases a@.len() - i,
    {
        if a[i] != b[i] {
            return a[i] < b[i];
        }
        assert(a@.skip(i as int).drop_first() =~= a@.skip(i + 1));
        assert(b@.skip(i as int).drop_first() =~= b@.skip(i + 1));
        i = i + 1;
    }
    i == a.len() && i < b.len()
}

/// `a < b` in the order of `str`.
pub fn text_lt_exec(a: &str, b: &str) -> (r: bool)
    ensures
        r == text_lt(a@, b@),
{
    bytes_lt_exec(a.as_bytes(), b.as_bytes())
}

/// Key-value pairs as character sequences.
pub open spec fn pairs_view(v: Seq<(String, String)>) -> Seq<(Seq<char>, Seq<char>)> {
    v.map_values(|p: (String, String)| (p.0@, p.1@))
}

/// A list of marks ordered by key, with `key` set to `value`: an absent
/// key is inserted before the first greater key; a present one takes
/// `value` when `force` is set or `value` is greater than its mark.
pub open spec fn upsert(v: Seq<(Seq<char>, Seq<char>)>, key: Seq<char>, value: Seq<char>, force: bool) -> Seq<(Seq<char>, Seq<char>)>
    decreases v.len(),
{
    if v.len() == 0 {
        seq![(key, value)]
    } else if text_lt(v[0].0, key) {
        seq![v[0]] + upsert(v.drop_first(), key, value, force)
    } else if v[0].0 == key {
        if force || text_lt(v[0].1, value) {
            seq![(key, value)] + v.drop_first()
        } else {
            v
        }
    } else {
        seq![(key, value)] + v
    }
}

proof fn lemma_upsert_prefix(v: Seq<(Seq<char>, Seq<char>)>, i: int, key: Seq<char>, value: Seq<char>, force: bool)
    requires
        0 <= i <= v.len(),
        forall|j: int| 0 <= j < i ==> text_lt(#[trigger] v[j].0, key),
    ensures
        upsert(v, key, value, force) == v.take(i) + upsert(v.skip(i), key, value, force),
    decreases i,
{
    if i == 0 {
        assert(v.take(0) =~= Seq::<(Seq<char>, Seq<char>)>::empty());
        assert(v.skip(0) =~= v);
    } else {
        assert(text_lt(v[0].0, key));
        let w = v.drop_first();
        assert forall|j: int| 0 <= j < i - 1 implies text_lt(#[trigger] w[j].0, key) by {
            assert(w[j] == v[j + 1]);
        }
        lemma_upsert_prefix(w, i - 1, key, value, force);
        assert(w.skip(i - 1) =~= v.skip(i));
        assert(seq![v[0]] + w.take(i - 1) =~= v.take(i));
    }
}

proof fn lemma_bytes_lt_irreflexive(a: Seq<u8>)
    ensures
        !bytes_lt(a, a),
    decreases a.len(),
{
    if a.len() > 0 {
        lemma_bytes_lt_irreflexive(a.drop_first());
    }
}

proof fn lemma_bytes_lt_transitive(a: Seq<u8>, b: Seq<u8>, c: Seq<u8>)
    requires
        bytes_lt(a, b),
        bytes_lt(b, c),
    ensures
        bytes_lt(a, c),
    decreases a.len(),
{
    if a.len() > 0 && b.len() > 0 && c.len() > 0 && a[0] == b[0] && b[0] == c[0] {
        lemma_bytes_lt_transitive(a.drop_first(), b.drop_first(), c.drop_first());
    }
}

proof fn lemma_bytes_lt_total(a: Seq<u8>, b: Seq<u8>)
    requires
        a != b,
    ensures
        bytes_lt(a, b) || bytes_lt(b, a),
    decreases a.len(),
{
    if a.len() == 0 || b.len() == 0 {
        if a.len() == 0 && b.len() == 0 {
            assert(a =~= b);
        }
    } else if a[0] == b[0] {
        if a.drop_first() == b.drop_first() {
            assert(a =~= seq![a[0]] + a.drop_first());
            assert(b =~= seq![b[0]] + b.drop_first());
        }
        lemma_bytes_lt_total(a.drop_first(), b.drop_first());
    }
}

/// The order of `str` is a strict total order.
pub proof fn lemma_text_order(a: Seq<char>, b: Seq<char>, c: Seq<char>)
    ensures
        !text_lt(a, a),
        text_lt(a, b) && text_lt(b, c) ==> text_lt(a, c),
        a != b ==> text_lt(a, b) || text_lt(b, a),
{
    lemma_bytes_lt_irreflexive(vstd::utf8::encode_utf8(a));
    if text_lt(a, b) && text_lt(b, c) {
        lemma_bytes_lt_transitive(vstd::utf8::encode_utf8(a), vstd::utf8::encode_utf8(b), vstd::utf8::encode_utf8(c));
    }
    if a != b {
        vstd::utf8::encode_utf8_decode_utf8(a);
        vstd::utf8::encode_utf8_decode_utf8(b);
        lemma_bytes_lt_total(vstd::utf8::encode_utf8(a), vstd::utf8::encode_utf8(b));
    }
}

/// Marks ordered by key: strictly increasing, so each key once.
pub open spec fn keys_ordered(v: Seq<(Seq<char>, Seq<char>)>) -> bool {
    forall|i: int, j: int| 0 <= i < j < v.len() ==> text_lt(v[i].0, v[j].0)
}

/// Every key of `upsert(v, key, ..)` is `key` or a key of `v`.
proof fn lemma_upsert_keys(v: Seq<(Seq<char>, Seq<char>)>, key: Seq<char>, value: Seq<char>, force: bool)
    ensures
        forall|i: int| 0 <= i < upsert(v, key, value, force).len() ==> (#[trigger] upsert(v, key, value, force)[i]).0 == key
            || exists|j: int| 0 <= j < v.len() && v[j].0 == upsert(v, key, value, force)[i].0,
    decreases v.len(),
{
    let u = upsert(v, key, value, force);
    if v.len() > 0 {
        let w = v.drop_first();
        lemma_upsert_keys(w, key, value, force);
        if text_lt(v[0].0, key) {
            assert forall|i: int| 0 <= i < u.len() implies (#[trigger] u[i]).0 == key || exists|j: int| 0 <= j < v.len() && v[j].0 == u[i].0 by {
                if i > 0 {
                    let uw = upsert(w, key, value, force);
                    assert(u[i] == uw[i - 1]);
                    if uw[i - 1].0 != key {
                        let j = choose|j: int| 0 <= j < w.len() && w[j].0 == uw[i - 1].0;
                        assert(v[j + 1] == w[j]);
                    }
                } else {
                    assert(v[0].0 == u[0].0);
                }
            }
        } else {
            assert forall|i: int| 0 <= i < u.len() implies (#[trigger] u[i]).0 == key || exists|j: int| 0 <= j < v.len() && v[j].0 == u[i].0 by {
                if i > 0 && u != v {
                    assert(u[i] == v[if v[0].0 == key { i } else { i - 1 }]);
                } else if u == v {
                    assert(v[i].0 == u[i].0);
                }
            }
        }
    }
}

/// Setting a mark keeps the marks ordered by key.
pub proof fn lemma_upsert_ordered(v: Seq<(Seq<char>, Seq<char>)>, key: Seq<char>, value: Seq<char>, force: bool)
    requires
        keys_ordered(v),
    ensures
        keys_ordered(upsert(v, key, value, force)),
    decreases v.len(),
{
    let u = upsert(v, key, value, force);
    if v.len() == 0 {
    } else if text_lt(v[0].0, key) {
        let w = v.drop_first();
        assert forall|i: int, j: int| 0 <= i < j < w.len() implies text_lt(w[i].0, w[j].0) by {
            assert(w[i] == v[i + 1] && w[j] == v[j + 1]);
        }
        lemma_upsert_ordered(w, key, value, force);
        lemma_upsert_keys(w, key, value, force);
        let uw = upsert(w, key, value, force);
        assert forall|i: int, j: int| 0 <= i < j < u.len() implies text_lt(u[i].0, u[j].0) by {
            assert(u[j] == uw[j - 1]);
            if i > 0 {
                assert(u[i] == uw[i - 1]);
            } else {
                if uw[j - 1].0 != key {
                    let m = choose|m: int| 0 <= m < w.len() && w[m].0 == uw[j - 1].0;
                    assert(v[m + 1] == w[m]);
                }
            }
        }
    } else if v[0].0 == key {
        assert forall|i: int, j: int| 0 <= i < j < u.len() implies text_lt(u[i].0, u[j].0) by {
            if u != v {
                if i == 0 {
                    assert(u[j] == v[j]);
                } else {
                    assert(u[i] == v[i] && u[j] == v[j]);
                }
            }
        }
    } else {
        lemma_text_order(key, v[0].0, v[0].0);
        assert forall|i: int, j: int| 0 <= i < j < u.len() implies text_lt(u[i].0, u[j].0) by {
            assert(u[j] == v[j - 1]);
            if i > 0 {
                assert(u[i] == v[i - 1]);
            } else if j - 1 > 0 {
                lemma_text_order(key, v[0].0, v[j - 1].0);
            }
        }
    }
}

/// Set the mark of `key` as [`upsert`] says.
pub fn upsert_mark(v: &mut Vec<(String, String)>, key: &str, value: &str, force: bool)
    ensures
        pairs_view(final(v)@) == upsert(pairs_view(old(v)@), key@, value@, force),
{
    let ghost pv = pairs_view(old(v)@);
    let mut i: usize = 0;
    while i < v.len() && text_lt_exec(v[i].0.as_str(), key)
        invariant
            v@ == old(v)@,
            pv == pairs_view(v@),
            i <= v@.len(),
            forall|j: int| 0 <= j < i ==> text_lt(#[trigger] pv[j].0, key@),
        decreases v@.len() - i,
    {
        i = i + 1;
    }
    proof {
        lemma_upsert_prefix(pv, i as int, key@, value@, force);
    }
    if i == v.len() {
        v.push((key.to_owned(), value.to_owned()));
        assert(pv.skip(i as int) =~= Seq::<(Seq<char>, Seq<char>)>::empty());
        assert(pv.take(i as int) =~= pv);
        assert(pairs_view(v@) =~= pv + seq![(key@, value@)]);
        return;
    }
    assert(pv.skip(i as int)[0] == pv[i as int]);
    assert(pv.skip(i as int).drop_first() =~= pv.skip(i + 1));
    if same_text(v[i].0.as_str(), key) {
        if force || text_lt_exec(v[i].1.as_str(), value) {
            v.set(i, (key.to_owned(), value.to_owned()));
            assert(pairs_view(v@) =~= pv.take(i as int) + (seq![(key@, value@)] + pv.skip(i + 1)));
        } else {
            assert(pv =~= pv.take(i as int) + pv.skip(i as int));
        }
    } else {
        v.insert(i, (key.to_owned(), value.to_owned()));
        assert(pairs_view(v@) =~= pv.take(i as int) + (seq![(key@, value@)] + pv.skip(i as int)));
    }
}

/// The mark of `key` in `v`, if any.
pub open spec fn mark_of(v: Seq<(Seq<char>, Seq<char>)>, key: Seq<char>) -> Option<Seq<char>>
    decreases v.len(),
{
    if v.len() == 0 {
        None
    } else if v[0].0 == key {
        Some(v[0].1)
    } else {
        mark_of(v.drop_first(), key)
    }
}

/// The mark of `key`, or `default` when it has none.
pub fn mark_or(v: &Vec<(String, String)>, key: &str, default: &str) -> (r: String)
    ensures
        r@ == match mark_of(pairs_view(v@), key@) {
            Some(m) => m,
            None => default@,
        },
{
    let ghost pv = pairs_view(v@);
    let mut i: usize = 0;
    assert(pv.skip(0) =~= pv);
    while i < v.len()
        invariant
            pv == pairs_view(v@),
            i <= v@.len(),
            mark_of(pv, key@) == mark_of(pv.skip(i as int), key@),
        decreases v@.len() - i,
    {
        assert(pv.skip(i as int)[0] == pv[i as int]);
        if same_text(v[i].0.as_str(), key) {
            return v[i].1.clone();
        }
        assert(pv.skip(i as int).drop_first() =~= pv.skip(i + 1));
        i = i + 1;
    }
    assert(pv.skip(i as int) =~= Seq::<(Seq<char>, Seq<char>)>::empty());
    default.to_owned()
}

/// `value` unless it is empty, then `fallback`.
pub open spec fn nonempty_or(value: Seq<char>, fallback: Seq<char>) -> Seq<char> {
    if value.len() == 0 { fallback } else { value }
}

/// `value` unless it is empty, then `fallback`.
pub fn nonempty_or_exec<'a>(value: &'a str, fallback: &'a str) -> (r: &'a str)
    ensures
        r@ == nonempty_or(value@, fallback@),
{
    if value.unicode_len() == 0 { fallback } else { value }
}

/// `true` when `s` is in `v`.
pub fn has_text(v: &Vec<String>, s: &str) -> (r: bool)
    ensures
        r == exists|j: int| 0 <= j < v@.len() && (#[trigger] v@[j])@ == s@,
{
    let mut i: usize = 0;
    while i < v.len()
        invariant
            i <= v@.len(),
            forall|j: int| 0 <= j < i ==> (#[trigger] v@[j])@ != s@,
        decreases v@.len() - i,
    {
        if same_text(v[i].as_str(), s) {
            return true;
        }
        i = i + 1;
    }
    false
}

/// `c` is an ASCII digit.
pub open spec fn ascii_digit(c: char) -> bool {
    '0' <= c && c <= '9'
}

/// The value of a run of ASCII digits.
pub open spec fn digits_value(s: Seq<char>) -> int
    decreases s.len(),
{
    if s.len() == 0 {
        0
    } else {
        digits_value(s.drop_last()) * 10 + (s.last() as int - '0' as int)
    }
}

/// What `str::parse::<i64>` gives: an optional `+` or `-`, then one or more
/// ASCII digits, whose value fits `i64`; anything else is no number.
pub open spec fn parsed_i64(s: Seq<char>) -> Option<i64> {
    let signed = s.len() > 0 && (s[0] == '-' || s[0] == '+');
    let body = if signed { s.drop_first() } else { s };
    let magnitude = digits_value(body);
    let value = if s.len() > 0 && s[0] == '-' { -magnitude } else { magnitude };
    if body.len() == 0 || !(forall|i: int| 0 <= i < body.len() ==> ascii_digit(#[trigger] body[i])) {
        None
    } else if i64::MIN <= value <= i64::MAX {
        Some(value as i64)
    } else {
        None
    }
}

/// `str::parse::<i64>`, as its documentation states it: an optional sign
/// followed by ASCII digits, and an error for anything else, including a
/// value that does not fit.
#[verifier::external_body]
pub(crate) fn parse_i64(s: &str) -> (r: Option<i64>)
    ensures
        r == parsed_i64(s@),
{
    s.parse::<i64>().ok()
}

/// The parsed number, or zero.
pub open spec fn i64_or_zero(s: Seq<char>) -> i64 {
    match parsed_i64(s) {
        Some(v) => v,
        None => 0,
    }
}

/// `t * 1000`, saturating at the bounds of `i64`.
pub open spec fn millis_sat(t: i64) -> i64 {
    if t * 1000 > i64::MAX {
        i64::MAX
    } else if t * 1000 < i64::MIN {
        i64::MIN
    } else {
        (t * 1000) as i64
    }
}

pub fn seconds_to_millis(t: i64) -> (m: i64)
    ensures
        m == millis_sat(t),
{
    if t > i64::MAX / 1000 {
        i64::MAX
    } else if t < i64::MIN / 1000 {
        i64::MIN
    } else {
        t * 1000
    }
}

/// What the `time` crate makes of an RFC 3339 timestamp: its Unix time in
/// nanoseconds, or the text of its parse error.
pub uninterp spec fn rfc3339_nanos(s: Seq<char>) -> Result<i128, Seq<char>>;

/// `time::OffsetDateTime::parse` with the RFC 3339 format, then
/// `unix_timestamp_nanos`; a parse error is returned as its message. The
/// result is named, not stated.
#[verifier::external_body]
fn parse_rfc3339(s: &str) -> (r: Result<i128, String>)
    ensures
        r is Ok <==> rfc3339_nanos(s@) is Ok,
        r is Ok ==> r->Ok_0 == rfc3339_nanos(s@)->Ok_0,
        r is Err ==> r->Err_0@ == rfc3339_nanos(s@)->Err_0,
{
    match time::OffsetDateTime::parse(s, &time::format_description::well_known::Rfc3339) {
        Ok(t) => Ok(t.unix_timestamp_nanos()),
        Err(e) => Err(e.to_string()),
    }
}

/// A parse result with its error text as characters.
pub open spec fn parsed_view(p: Result<i128, String>) -> Result<i128, Seq<char>> {
    match p {
        Ok(n) => Ok(n),
        Err(e) => Err(e@),
    }
}

/// `n / d`, rounded toward zero.
pub open spec fn div_toward_zero(n: int, d: int) -> int {
    if n >= 0 { n / d } else { -((-n) / d) }
}

/// The milliseconds of a parsed timestamp, or the reason it is unusable:
/// a parse error, or a time outside `i64` milliseconds.
pub open spec fn spec_millis(parsed: Result<i128, Seq<char>>, label: Seq<char>) -> Result<i64, Seq<char>> {
    match parsed {
        Ok(n) => {
            let ms = div_toward_zero(n as int, 1_000_000);
            if i64::MIN <= ms <= i64::MAX {
                Ok(ms as i64)
            } else {
                Err(label + " does not fit i64 milliseconds"@)
            }
        },
        Err(e) => Err(label + " is not RFC3339: "@ + e),
    }
}

/// `r` is what `spec_millis` gives, with a reason as a protocol error of
/// `provider`.
pub open spec fn millis_result(r: Result<i64, ProviderError>, expected: Result<i64, Seq<char>>, provider: &'static str) -> bool {
    match expected {
        Ok(ms) => r == Ok::<i64, ProviderError>(ms),
        Err(reason) => r matches Err(ProviderError::Protocol { provider: p, reason: got }) && p@ == provider@ && got@ == reason,
    }
}

/// Milliseconds from a parsed RFC 3339 timestamp; `label` names the field
/// in the error.
pub fn millis_from_parsed(parsed: Result<i128, String>, provider: &'static str, label: &str) -> (r: Result<i64, ProviderError>)
    ensures
        millis_result(r, spec_millis(parsed_view(parsed), label@), provider),
{
    match parsed {
        Ok(n) => {
            let ms: i128 = if n >= 0 {
                n / 1_000_000
            } else {
                let magnitude: u128 = (-(n + 1)) as u128 + 1;
                -((magnitude / 1_000_000) as i128)
            };
            if ms < i64::MIN as i128 || ms > i64::MAX as i128 {
                let mut reason = label.to_owned();
                crate::text::append(&mut reason, " does not fit i64 milliseconds");
                return Err(ProviderError::Protocol { provider, reason });
            }
            Ok(ms as i64)
        },
        Err(e) => {
            let mut reason = label.to_owned();
            crate::text::append(&mut reason, " is not RFC3339: ");
            crate::text::append(&mut reason, e.as_str());
            Err(ProviderError::Protocol { provider, reason })
        },
    }
}

/// The milliseconds of an RFC 3339 timestamp.
pub fn parse_millis(value: &str, provider: &'static str, label: &str) -> (r: Result<i64, ProviderError>)
    ensures
        millis_result(r, spec_millis(rfc3339_nanos(value@), label@), provider),
{
    let parsed = parse_rfc3339(value);
    assert(parsed_view(parsed) == rfc3339_nanos(value@));
    millis_from_parsed(parsed, provider, label)
}

/// The first position at or after `from` where `pat` occurs in `s`, or -1.
pub open spec fn find_from(s: Seq<char>, pat: Seq<char>, from: int) -> int
    decreases s.len() - from,
{
    if from < 0 || from + pat.len() > s.len() {
        -1
    } else if s.subrange(from, from + pat.len()) == pat {
        from
    } else if from >= s.len() {
        -1
    } else {
        find_from(s, pat, from + 1)
    }
}

fn matches_at(s: &str, pat: &str, from: usize) -> (r: bool)
    requires
        from + pat@.len() <= s@.len(),
    ensures
        r == (s@.subrange(from as int, from + pat@.len()) == pat@),
{
    let n = s.unicode_len();
    let m = pat.unicode_len();
    let mut j: usize = 0;
    while j < m
        invariant
            n == s@.len(),
            m == pat@.len(),
            from + m <= s@.len(),
            j <= m,
            forall|k: int| 0 <= k < j ==> s@[from + k] == pat@[k],
        decreases m - j,
    {
        if s.get_char(from + j) != pat.get_char(j) {
            assert(s@.subrange(from as int, from + m)[j as int] != pat@[j as int]);
            return false;
        }
        j = j + 1;
    }
    assert(s@.subrange(from as int, from + m) =~= pat@);
    true
}

/// The first position of `pat` in `s`.
pub fn find_text(s: &str, pat: &str) -> (r: Option<usize>)
    ensures
        match r {
            Some(k) => k as int == find_from(s@, pat@, 0) && k + pat@.len() <= s@.len(),
            None => find_from(s@, pat@, 0) == -1,
        },
{
    let n = s.unicode_len();
    let m = pat.unicode_len();
    if m > n {
        return None;
    }
    if m == 0 {
        assert(s@.subrange(0, 0) =~= pat@);
        return Some(0);
    }
    let mut from: usize = 0;
    while from <= n - m
        invariant
            n == s@.len(),
            m == pat@.len(),
            1 <= m <= n,
            from <= n - m + 1,
            find_from(s@, pat@, 0) == find_from(s@, pat@, from as int),
        decreases n - from,
    {
        if matches_at(s, pat, from) {
            return Some(from);
        }
        from = from + 1;
    }
    None
}

/// `s` without the prefix `p`, when it starts with it.
pub open spec fn strip_prefix(s: Seq<char>, p: Seq<char>) -> Option<Seq<char>> {
    if p.len() <= s.len() && s.take(p.len() as int) == p {
        Some(s.skip(p.len() as int))
    } else {
        None
    }
}

/// `s` without the prefix `p`, when it starts with it.
pub fn strip_prefix_exec<'a>(s: &'a str, p: &str) -> (r: Option<&'a str>)
    ensures
        match r {
            Some(t) => strip_prefix(s@, p@) == Some(t@),
            None => strip_prefix(s@, p@) is None,
        },
{
    let n = s.unicode_len();
    let m = p.unicode_len();
    if m > n {
        return None;
    }
    if !matches_at(s, p, 0) {
        assert(s@.subrange(0, m as int) =~= s@.take(m as int));
        return None;
    }
    assert(s@.subrange(0, m as int) =~= s@.take(m as int));
    let t = s.substring_char(m, n);
    assert(t@ =~= s@.skip(m as int));
    Some(t)
}

/// The lowercase hexadecimal digit of `n < 16`.
pub open spec fn hex_digit(n: u8) -> char {
    if n < 10 { (48u8 + n) as char } else { (97u8 + n - 10) as char }
}

/// Two lowercase hexadecimal digits per byte.
pub open spec fn hex_text(bytes: Seq<u8>) -> Seq<char>
    decreases bytes.len(),
{
    if bytes.len() == 0 {
        Seq::empty()
    } else {
        hex_text(bytes.drop_last()) + seq![hex_digit(bytes.last() / 16), hex_digit(bytes.last() % 16)]
    }
}

fn hex_char(n: u8) -> (c: char)
    requires
        n < 16,
    ensures
        c == hex_digit(n),
{
    if n < 10 { (48u8 + n) as char } else { (97u8 + n - 10) as char }
}

/// The lowercase hexadecimal form of `bytes`.
pub fn hex(bytes: &[u8]) -> (r: String)
    ensures
        r@ == hex_text(bytes@),
{
    let mut out = String::new();
    let mut i: usize = 0;
    while i < bytes.len()
        invariant
            i <= bytes@.len(),
            out@ == hex_text(bytes@.take(i as int)),
        decreases bytes@.len() - i,
    {
        let b = bytes[i];
        crate::text::push_char(&mut out, hex_char(b / 16));
        crate::text::push_char(&mut out, hex_char(b % 16));
        assert(bytes@.take(i + 1).drop_last() =~= bytes@.take(i as int));
        assert(out@ =~= hex_text(bytes@.take(i + 1)));
        i = i + 1;
    }
    assert(bytes@.take(bytes@.len() as int) =~= bytes@);
    out
}

/// The elements of `v`, in order, as a queue.
pub fn into_queue<T>(v: Vec<T>) -> (q: VecDeque<T>)
    ensures
        q@ == v@,
{
    let mut v = v;
    let ghost all = v@;
    let mut q: VecDeque<T> = VecDeque::new();
    while v.len() > 0
        invariant
            v@ == all.take(v@.len() as int),
            v@.len() <= all.len(),
            q@ == all.skip(v@.len() as int),
        decreases v@.len(),
    {
        let ghost n = v@.len();
        let x = v.pop().unwrap();
        assert(all.take(n - 1) =~= v@);
        q.push_front(x);
        assert(q@ =~= all.skip(n - 1));
    }
    assert(all.skip(0) =~= all);
    q
}

/// Why a provider pull or effect failed.
#[derive(Debug)]
pub enum ProviderError {
    Transport { provider: &'static str, error: TransportError },
    Cursor { provider: &'static str, reason: &'static str },
    Protocol { provider: &'static str, reason: String },
}

/// A transport failure seen by `provider`.
pub fn provider_error(provider: &'static str, error: TransportError) -> (e: ProviderError)
    ensures
        e == (ProviderError::Transport { provider, error }),
{
    ProviderError::Transport { provider, error }
}

/// A protocol failure of `provider` with a fixed reason.
pub fn protocol_error(provider: &'static str, reason: &str) -> (e: ProviderError)
    ensures
        e matches ProviderError::Protocol { provider: p, reason: r } && p == provider && r@ == reason@,
{
    ProviderError::Protocol { provider, reason: reason.to_owned() }
}

/// What a provider error says.
pub open spec fn provider_message(e: ProviderError) -> Seq<char> {
    match e {
        ProviderError::Transport { provider, error } => provider@ + ": "@ + crate::http::transport_message(error),
        ProviderError::Cursor { provider, reason } => provider@ + ": invalid cursor: "@ + reason@,
        ProviderError::Protocol { provider, reason } => provider@ + ": invalid provider response: "@ + reason@,
    }
}

impl ProviderError {
    /// The error as a sentence, naming the provider.
    pub fn message(&self) -> (m: String)
        ensures
            m@ == provider_message(*self),
    {
        let mut s = String::new();
        match self {
            ProviderError::Transport { provider, error } => {
                crate::text::append(&mut s, provider);
                crate::text::append(&mut s, ": ");
                let e = error.message();
                crate::text::append(&mut s, e.as_str());
            },
            ProviderError::Cursor { provider, reason } => {
                crate::text::append(&mut s, provider);
                crate::text::append(&mut s, ": invalid cursor: ");
                crate::text::append(&mut s, reason);
            },
            ProviderError::Protocol { provider, reason } => {
                crate::text::append(&mut s, provider);
                crate::text::append(&mut s, ": invalid provider response: ");
                crate::text::append(&mut s, reason.as_str());
            },
        }
        assert(s@ =~= provider_message(*self));
        s
    }
}

} // verus!
