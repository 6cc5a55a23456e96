//! MaxiCode (`GS ( k` cn=50). The TM-T20III lists MaxiCode as supported.

use vstd::prelude::*;

use crate::bytes::{bytes_result, push_slice, push_vec, utf8};
use crate::error::EncodeError;

use super::packet::{gs_k1, gs_k_fit, packet};

verus! {

pub const MAXI_CN: u8 = 50;

#[derive(Debug, Clone, Copy, PartialEq, Eq, Structural)]
pub enum MaxiCodeMode {
    Mode2,
    Mode3,
    Mode4,
    Mode5,
    Mode6,
}

impl MaxiCodeMode {
    pub open spec fn spec_byte(self) -> u8 {
        match self {
            MaxiCodeMode::Mode2 => 50,
            MaxiCodeMode::Mode3 => 51,
            MaxiCodeMode::Mode4 => 52,
            MaxiCodeMode::Mode5 => 53,
            MaxiCodeMode::Mode6 => 54,
        }
    }

    fn byte(self) -> (b: u8)
        ensures
            b == self.spec_byte(),
    {
        match self {
            MaxiCodeMode::Mode2 => 50,
            MaxiCodeMode::Mode3 => 51,
            MaxiCodeMode::Mode4 => 52,
            MaxiCodeMode::Mode5 => 53,
            MaxiCodeMode::Mode6 => 54,
        }
    }
}

#[derive(Debug, Clone, PartialEq, Eq)]
pub struct MaxiCode {
    pub data: String,
    pub mode: MaxiCodeMode,
}

impl Default for MaxiCode {
    fn default() -> (m: Self)
        ensures
            m.data@ == Seq::<char>::empty(),
            m.mode == MaxiCodeMode::Mode2,
    {
        MaxiCode { data: String::new(), mode: MaxiCodeMode::Mode2 }
    }
}

/// Store fn=280 admits p = 4..=141, so k = 1..=138 data bytes.
pub open spec fn spec_encode_maxi(m: MaxiCode) -> Result<Seq<u8>, EncodeError> {
    let d = utf8(m.data@);
    if !(1 <= d.len() <= 138) {
        Err(EncodeError::SymbolDataLength { symbol: "MaxiCode", len: d.len() as usize, max: 138 })
    } else {
        Ok(packet(MAXI_CN, 65, seq![m.mode.spec_byte()]) + packet(MAXI_CN, 80, seq![48u8] + d)
            + packet(MAXI_CN, 81, seq![48u8]))
    }
}

/// Mode, store and print packets.
pub fn encode_maxi(code: &MaxiCode) -> (r: Result<Vec<u8>, EncodeError>)
    ensures
        bytes_result(r) == spec_encode_maxi(*code),
{
    let data = code.data.as_str().as_bytes();
    if data.len() < 1 || data.len() > 138 {
        return Err(EncodeError::SymbolDataLength { symbol: "MaxiCode", len: data.len(), max: 138 });
    }
    let mut store: Vec<u8> = Vec::new();
    store.push(48);
    push_slice(&mut store, data);
    let mut out: Vec<u8> = Vec::new();
    push_vec(&mut out, gs_k1(MAXI_CN, 65, code.mode.byte()));
    push_vec(&mut out, gs_k_fit(MAXI_CN, 80, store.as_slice()));
    push_vec(&mut out, gs_k1(MAXI_CN, 81, 48));
    assert(store@ =~= seq![48u8] + utf8(code.data@));
    assert(out@ =~= packet(MAXI_CN, 65, seq![code.mode.spec_byte()]) + packet(MAXI_CN, 80, seq![48u8] + utf8(code.data@))
        + packet(MAXI_CN, 81, seq![48u8]));
    Ok(out)
}

} // verus!
