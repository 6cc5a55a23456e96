//! Two-dimensional GS1 DataBar (`GS ( k` cn=51).
//!
//! TM-T20III: module width fn=367 is 2..=8 (default 2). Maximum width fn=371
//! is `GS ( k 4 0 51 71 nL nH` with `nL + nH × 256 = 0` meaning "not set"
//! (use the print area). Store fn=380: Stacked and Stacked Omnidirectional
//! take 13 digits, Omnidirectional starting with 0 or 1; Expanded Stacked takes
//! 2..=255 characters of its listed charset.

use vstd::prelude::*;

use crate::bytes::{all_digits, bytes_result, digits_only, push_slice, push_vec, utf8};
use crate::error::EncodeError;

use super::packet::{gs_k1, gs_k2, gs_k_fit, packet};

verus! {

pub const GS1_CN: u8 = 51;

#[derive(Debug, Clone, Copy, PartialEq, Eq, Structural)]
pub enum Gs1DataBarType {
    Stacked,
    StackedOmnidirectional,
    ExpandedStacked,
}

impl Gs1DataBarType {
    pub open spec fn spec_byte(self) -> u8 {
        match self {
            Gs1DataBarType::Stacked => 72,
            Gs1DataBarType::StackedOmnidirectional => 73,
            Gs1DataBarType::ExpandedStacked => 76,
        }
    }

    fn byte(self) -> (b: u8)
        ensures
            b == self.spec_byte(),
    {
        match self {
            Gs1DataBarType::Stacked => 72,
            Gs1DataBarType::StackedOmnidirectional => 73,
            Gs1DataBarType::ExpandedStacked => 76,
        }
    }
}

#[derive(Debug, Clone, Copy, PartialEq, Eq, Structural)]
pub enum Gs1DataBarWidth {
    S,
    M,
    L,
}

impl Gs1DataBarWidth {
    pub open spec fn spec_byte(self) -> u8 {
        match self {
            Gs1DataBarWidth::S => 2,
            Gs1DataBarWidth::M => 1,
            Gs1DataBarWidth::L => 4,
        }
    }

    fn byte(self) -> (b: u8)
        ensures
            b == self.spec_byte(),
    {
        match self {
            Gs1DataBarWidth::S => 2,
            Gs1DataBarWidth::M => 1,
            Gs1DataBarWidth::L => 4,
        }
    }
}

#[derive(Debug, Clone, PartialEq, Eq)]
pub struct Gs1DataBar {
    pub data: String,
    pub width: Gs1DataBarWidth,
    pub kind: Gs1DataBarType,
}

impl Default for Gs1DataBar {
    fn default() -> (g: Self)
        ensures
            g.data@ == Seq::<char>::empty(),
            g.width == Gs1DataBarWidth::S,
            g.kind == Gs1DataBarType::Stacked,
    {
        // TM-T20III fn=367 default n = 2.
        Gs1DataBar { data: String::new(), width: Gs1DataBarWidth::S, kind: Gs1DataBarType::Stacked }
    }
}

/// fn=380 data bytes for Expanded Stacked: 32–34, 37–63, 65–90, 95, 97–122, 123.
pub open spec fn is_expanded_byte(b: u8) -> bool {
    (32 <= b <= 34) || (37 <= b <= 63) || (65 <= b <= 90) || b == 95 || (97 <= b <= 122) || b
        == 123
}

/// `{1`, `{(` and `{)` are printer controls (FNC1 / HRI-only parentheses).
pub open spec fn injects_special(d: Seq<u8>) -> bool {
    exists|i: int|
        0 <= i < d.len() - 1 && #[trigger] d[i] == 0x7b && (d[i + 1] == 0x31 || d[i + 1] == 0x28
            || d[i + 1] == 0x29)
}

pub open spec fn data_admitted(kind: Gs1DataBarType, d: Seq<u8>) -> bool {
    match kind {
        Gs1DataBarType::Stacked => d.len() == 13 && all_digits(d),
        Gs1DataBarType::StackedOmnidirectional => d.len() == 13 && all_digits(d) && (d[0] == 0x30
            || d[0] == 0x31),
        Gs1DataBarType::ExpandedStacked => 2 <= d.len() <= 255 && (forall|i: int|
            0 <= i < d.len() ==> is_expanded_byte(#[trigger] d[i])) && !injects_special(d),
    }
}

/// The GS1 DataBar byte stream for `g`, or why it is not admitted.
pub open spec fn spec_encode_gs1(g: Gs1DataBar) -> Result<Seq<u8>, EncodeError> {
    let width = g.width.spec_byte();
    let d = utf8(g.data@);
    if !(2 <= width <= 8) {
        Err(EncodeError::Gs1ModuleWidth(width))
    } else if !data_admitted(g.kind, d) {
        Err(EncodeError::Gs1Data { kind: g.kind, len: d.len() as usize })
    } else {
        Ok(packet(GS1_CN, 67, seq![width]) + packet(GS1_CN, 71, seq![0u8, 0u8]) + packet(
            GS1_CN,
            80,
            seq![48u8, g.kind.spec_byte()] + d,
        ) + packet(GS1_CN, 81, seq![48u8]))
    }
}

fn expanded_char(b: u8) -> (r: bool)
    ensures
        r == is_expanded_byte(b),
{
    (32 <= b && b <= 34) || (37 <= b && b <= 63) || (65 <= b && b <= 90) || b == 95 || (97 <= b
        && b <= 122) || b == 123
}

/// Printer treats `{1`, `{(`, `{)` as controls; plain authoring data must not inject them.
fn injects_expanded_special(data: &[u8]) -> (r: bool)
    ensures
        r == injects_special(data@),
{
    if data.len() < 2 {
        return false;
    }
    let mut i: usize = 0;
    while i + 1 < data.len()
        invariant
            data.len() >= 2,
            i + 1 <= data.len(),
            forall|j: int|
                0 <= j < i ==> !(#[trigger] data@[j] == 0x7b && (data@[j + 1] == 0x31 || data@[j
                    + 1] == 0x28 || data@[j + 1] == 0x29)),
        decreases data.len() - i,
    {
        if data[i] == 0x7b && (data[i + 1] == 0x31 || data[i + 1] == 0x28 || data[i + 1] == 0x29) {
            return true;
        }
        i = i + 1;
    }
    false
}

fn admit_data(kind: Gs1DataBarType, data: &[u8]) -> (r: bool)
    ensures
        r == data_admitted(kind, data@),
{
    match kind {
        Gs1DataBarType::Stacked => data.len() == 13 && digits_only(data),
        Gs1DataBarType::StackedOmnidirectional => data.len() == 13 && digits_only(data) && (data[0]
            == 0x30 || data[0] == 0x31),
        Gs1DataBarType::ExpandedStacked => {
            if data.len() < 2 || data.len() > 255 {
                return false;
            }
            let mut i: usize = 0;
            while i < data.len()
                invariant
                    i <= data.len(),
                    forall|j: int| 0 <= j < i ==> is_expanded_byte(#[trigger] data@[j]),
                decreases data.len() - i,
            {
                if !expanded_char(data[i]) {
                    return false;
                }
                i = i + 1;
            }
            !injects_expanded_special(data)
        },
    }
}

/// Module width, maximum width "not set", store and print packets.
pub fn encode_gs1(code: &Gs1DataBar) -> (r: Result<Vec<u8>, EncodeError>)
    ensures
        bytes_result(r) == spec_encode_gs1(*code),
{
    let width = code.width.byte();
    if width < 2 || width > 8 {
        return Err(EncodeError::Gs1ModuleWidth(width));
    }
    let data = code.data.as_str().as_bytes();
    if !admit_data(code.kind, data) {
        return Err(EncodeError::Gs1Data { kind: code.kind, len: data.len() });
    }
    let mut store: Vec<u8> = Vec::new();
    store.push(48);
    store.push(code.kind.byte());
    push_slice(&mut store, data);
    let mut out: Vec<u8> = Vec::new();
    push_vec(&mut out, gs_k1(GS1_CN, 67, width));
    // fn=371: nL = nH = 0 means the maximum width is not set (print-area width).
    push_vec(&mut out, gs_k2(GS1_CN, 71, 0, 0));
    push_vec(&mut out, gs_k_fit(GS1_CN, 80, store.as_slice()));
    push_vec(&mut out, gs_k1(GS1_CN, 81, 48));
    assert(store@ =~= seq![48u8, code.kind.spec_byte()] + utf8(code.data@));
    assert(out@ =~= packet(GS1_CN, 67, seq![width]) + packet(GS1_CN, 71, seq![0u8, 0u8]) + packet(
        GS1_CN, 80, seq![48u8, code.kind.spec_byte()] + utf8(code.data@)) + packet(GS1_CN, 81, seq![48u8]));
    Ok(out)
}

} // verus!
