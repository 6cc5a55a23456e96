//! PDF417 (`GS ( k` cn=48).
//!
//! TM-T20III: columns fn=065 are 0..=30 (0 = automatic); rows fn=066 are 0
//! or 3..=90 (0 = automatic); module width fn=067 is 1..=8; row height fn=068
//! is 2..=8; store fn=080 admits p = 4..=65535, so k = p - 3 data bytes.

use vstd::prelude::*;

use crate::bytes::{bytes_result, push_slice, push_vec, utf8};
use crate::error::EncodeError;

use super::packet::{gs_k1, gs_k2, gs_k_fit, packet};

verus! {

pub const PDF_CN: u8 = 48;

#[derive(Debug, Clone, Copy, PartialEq, Eq, Structural)]
pub enum Pdf417Kind {
    Standard,
    Truncated,
}

impl Pdf417Kind {
    pub open spec fn spec_byte(self) -> u8 {
        match self {
            Pdf417Kind::Standard => 0,
            Pdf417Kind::Truncated => 1,
        }
    }

    fn byte(self) -> (b: u8)
        ensures
            b == self.spec_byte(),
    {
        match self {
            Pdf417Kind::Standard => 0,
            Pdf417Kind::Truncated => 1,
        }
    }
}

#[derive(Debug, Clone, Copy, PartialEq, Eq, Structural)]
pub enum Pdf417Ecc {
    Level(u8),
    Ratio(u8),
}

impl Pdf417Ecc {
    pub open spec fn spec_bytes(self) -> Result<(u8, u8), EncodeError> {
        match self {
            Pdf417Ecc::Level(n) => if n <= 8 {
                Ok((48, (48 + n) as u8))
            } else {
                Err(EncodeError::Pdf417CorrectionRatio(n))
            },
            Pdf417Ecc::Ratio(n) => if 1 <= n <= 40 {
                Ok((49, n))
            } else {
                Err(EncodeError::Pdf417CorrectionRatio(n))
            },
        }
    }

    fn bytes(self) -> (r: Result<(u8, u8), EncodeError>)
        ensures
            r == self.spec_bytes(),
    {
        match self {
            Pdf417Ecc::Level(n) => if n <= 8 {
                Ok((48, 48 + n))
            } else {
                Err(EncodeError::Pdf417CorrectionRatio(n))
            },
            Pdf417Ecc::Ratio(n) => if 1 <= n && n <= 40 {
                Ok((49, n))
            } else {
                Err(EncodeError::Pdf417CorrectionRatio(n))
            },
        }
    }
}

#[derive(Debug, Clone, PartialEq, Eq)]
pub struct Pdf417 {
    pub data: String,
    pub columns: u8,
    pub rows: u8,
    pub width: u8,
    pub row_height: u8,
    pub kind: Pdf417Kind,
    pub ecc: Pdf417Ecc,
}

impl Default for Pdf417 {
    fn default() -> (p: Self)
        ensures
            p.data@ == Seq::<char>::empty(),
            p.columns == 0,
            p.rows == 0,
            p.width == 3,
            p.row_height == 3,
            p.kind == Pdf417Kind::Standard,
            p.ecc == Pdf417Ecc::Ratio(1),
    {
        Pdf417 {
            data: String::new(),
            columns: 0,
            rows: 0,
            width: 3,
            row_height: 3,
            kind: Pdf417Kind::Standard,
            ecc: Pdf417Ecc::Ratio(1),
        }
    }
}

/// The settings admitted by the TM-T20III, checked in order.
pub open spec fn spec_admit_pdf417(p: Pdf417) -> Result<(u8, u8), EncodeError> {
    let d = utf8(p.data@);
    if !(1 <= d.len() <= 65532) {
        Err(EncodeError::SymbolDataLength { symbol: "PDF417", len: d.len() as usize, max: 65532 })
    } else if p.columns > 30 {
        Err(EncodeError::Pdf417Columns(p.columns))
    } else if p.rows != 0 && !(3 <= p.rows <= 90) {
        Err(EncodeError::Pdf417Rows(p.rows))
    } else if !(1 <= p.width <= 8) {
        Err(EncodeError::Pdf417Width(p.width))
    } else if !(2 <= p.row_height <= 8) {
        Err(EncodeError::Pdf417RowHeight(p.row_height))
    } else {
        p.ecc.spec_bytes()
    }
}

pub open spec fn spec_encode_pdf417(p: Pdf417) -> Result<Seq<u8>, EncodeError> {
    match spec_admit_pdf417(p) {
        Err(e) => Err(e),
        Ok((e0, e1)) => Ok(packet(PDF_CN, 65, seq![p.columns]) + packet(PDF_CN, 66, seq![p.rows])
            + packet(PDF_CN, 67, seq![p.width]) + packet(PDF_CN, 68, seq![p.row_height]) + packet(
            PDF_CN,
            69,
            seq![e0, e1],
        ) + packet(PDF_CN, 70, seq![p.kind.spec_byte()]) + packet(
            PDF_CN,
            80,
            seq![48u8] + utf8(p.data@),
        ) + packet(PDF_CN, 81, seq![48u8])),
    }
}

fn accept(code: &Pdf417) -> (r: Result<(u8, u8), EncodeError>)
    ensures
        r == spec_admit_pdf417(*code),
{
    let len = code.data.as_str().as_bytes().len();
    if len < 1 || len > 65532 {
        return Err(EncodeError::SymbolDataLength { symbol: "PDF417", len, max: 65532 });
    }
    if code.columns > 30 {
        return Err(EncodeError::Pdf417Columns(code.columns));
    }
    if code.rows != 0 && (code.rows < 3 || code.rows > 90) {
        return Err(EncodeError::Pdf417Rows(code.rows));
    }
    if code.width < 1 || code.width > 8 {
        return Err(EncodeError::Pdf417Width(code.width));
    }
    if code.row_height < 2 || code.row_height > 8 {
        return Err(EncodeError::Pdf417RowHeight(code.row_height));
    }
    code.ecc.bytes()
}

/// Columns, rows, width, row height, correction, kind, store and print packets.
pub fn encode_pdf417(code: &Pdf417) -> (r: Result<Vec<u8>, EncodeError>)
    ensures
        bytes_result(r) == spec_encode_pdf417(*code),
{
    let (e0, e1) = accept(code)?;
    let mut store: Vec<u8> = Vec::new();
    store.push(48);
    push_slice(&mut store, code.data.as_str().as_bytes());
    let mut out: Vec<u8> = Vec::new();
    push_vec(&mut out, gs_k1(PDF_CN, 65, code.columns));
    push_vec(&mut out, gs_k1(PDF_CN, 66, code.rows));
    push_vec(&mut out, gs_k1(PDF_CN, 67, code.width));
    push_vec(&mut out, gs_k1(PDF_CN, 68, code.row_height));
    push_vec(&mut out, gs_k2(PDF_CN, 69, e0, e1));
    push_vec(&mut out, gs_k1(PDF_CN, 70, code.kind.byte()));
    push_vec(&mut out, gs_k_fit(PDF_CN, 80, store.as_slice()));
    push_vec(&mut out, gs_k1(PDF_CN, 81, 48));
    assert(store@ =~= seq![48u8] + utf8(code.data@));
    assert(out@ =~= packet(PDF_CN, 65, seq![code.columns]) + packet(PDF_CN, 66, seq![code.rows])
        + packet(PDF_CN, 67, seq![code.width]) + packet(PDF_CN, 68, seq![code.row_height]) + packet(
        PDF_CN, 69, seq![e0, e1]) + packet(PDF_CN, 70, seq![code.kind.spec_byte()]) + packet(
        PDF_CN, 80, seq![48u8] + utf8(code.data@)) + packet(PDF_CN, 81, seq![48u8]));
    Ok(out)
}

} // verus!
