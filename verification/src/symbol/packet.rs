//! One `GS ( k` builder. The declared length is derived from the bytes after `pH`.
//!
//! `pL` and `pH` give the number of bytes following `pH` as `pL + pH × 256`;
//! the body after `pH` is always `cn fn [parameters]`.

use vstd::prelude::*;

use crate::bytes::{bytes_result, push_slice};
use crate::error::EncodeError;

verus! {

/// `GS ( k pL pH cn fn params`, with `pL + 256 pH == 2 + params.len()`.
pub open spec fn packet(cn: u8, fn_byte: u8, params: Seq<u8>) -> Seq<u8> {
    let after_ph = 2 + params.len();
    seq![0x1du8, 0x28u8, 0x6bu8, (after_ph % 256) as u8, (after_ph / 256) as u8, cn, fn_byte]
        + params
}

/// The packet, or the error for a body that does not fit a 16-bit length.
pub open spec fn spec_gs_k(cn: u8, fn_byte: u8, params: Seq<u8>) -> Result<Seq<u8>, EncodeError> {
    if 2 + params.len() > usize::MAX {
        Err(EncodeError::Gs2dTooLong { len: usize::MAX })
    } else if 2 + params.len() > 65535 {
        Err(EncodeError::Gs2dTooLong { len: (2 + params.len()) as usize })
    } else {
        Ok(packet(cn, fn_byte, params))
    }
}

/// Build `GS ( k pL pH cn fn [params…]` with `pL`/`pH` taken from the actual
/// `cn + fn + params` length.
pub fn gs_k(cn: u8, fn_byte: u8, params: &[u8]) -> (r: Result<Vec<u8>, EncodeError>)
    ensures
        bytes_result(r) == spec_gs_k(cn, fn_byte, params@),
{
    if params.len() > usize::MAX - 2 {
        return Err(EncodeError::Gs2dTooLong { len: usize::MAX });
    }
    let after_ph = 2 + params.len();
    if after_ph > 65535 {
        return Err(EncodeError::Gs2dTooLong { len: after_ph });
    }
    let pl = (after_ph % 256) as u8;
    let ph = (after_ph / 256) as u8;
    let mut out: Vec<u8> = Vec::new();
    out.push(0x1d);
    out.push(0x28);
    out.push(0x6b);
    out.push(pl);
    out.push(ph);
    out.push(cn);
    out.push(fn_byte);
    assert(out@ =~= seq![0x1du8, 0x28u8, 0x6bu8, pl, ph, cn, fn_byte]);
    push_slice(&mut out, params);
    Ok(out)
}

/// [`gs_k`] for bodies that already fit.
pub fn gs_k_fit(cn: u8, fn_byte: u8, params: &[u8]) -> (r: Vec<u8>)
    requires
        params@.len() <= 65533,
    ensures
        r@ == packet(cn, fn_byte, params@),
{
    match gs_k(cn, fn_byte, params) {
        Ok(v) => v,
        Err(_) => {
            assert(false);
            Vec::new()
        },
    }
}

} // verus!

verus! {

/// A packet with a one-byte parameter.
pub fn gs_k1(cn: u8, fn_byte: u8, a: u8) -> (r: Vec<u8>)
    ensures
        r@ == packet(cn, fn_byte, seq![a]),
{
    let p = [a];
    assert(p@ == seq![a]);
    gs_k_fit(cn, fn_byte, &p)
}

/// A packet with a two-byte parameter.
pub fn gs_k2(cn: u8, fn_byte: u8, a: u8, b: u8) -> (r: Vec<u8>)
    ensures
        r@ == packet(cn, fn_byte, seq![a, b]),
{
    let p = [a, b];
    assert(p@ == seq![a, b]);
    gs_k_fit(cn, fn_byte, &p)
}

/// A packet with a three-byte parameter.
pub fn gs_k3(cn: u8, fn_byte: u8, a: u8, b: u8, c: u8) -> (r: Vec<u8>)
    ensures
        r@ == packet(cn, fn_byte, seq![a, b, c]),
{
    let p = [a, b, c];
    assert(p@ == seq![a, b, c]);
    gs_k_fit(cn, fn_byte, &p)
}

} // verus!
