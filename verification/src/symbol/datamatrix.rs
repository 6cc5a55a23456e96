//! DataMatrix (`GS ( k` cn=54).
//!
//! The TM-T20III technical reference lists DataMatrix as supported while the
//! `GS ( k` model overview omits it, so model support remains unconfirmed.

use vstd::prelude::*;

use crate::bytes::{bytes_result, push_slice, push_vec, utf8};
use crate::error::EncodeError;

use super::packet::{gs_k, gs_k1, gs_k3, packet, spec_gs_k};

verus! {

pub const DM_CN: u8 = 54;

/// Square symbol sizes (0 = automatic).
pub open spec fn is_square_size(d: u8) -> bool {
    d == 0 || d == 10 || d == 12 || d == 14 || d == 16 || d == 18 || d == 20 || d == 22 || d == 24
        || d == 26 || d == 32 || d == 36 || d == 40 || d == 44 || d == 48 || d == 52 || d == 64
        || d == 72 || d == 80 || d == 88 || d == 96 || d == 104 || d == 120 || d == 132 || d
        == 144
}

/// Rectangular `(rows, cols)` sizes (cols 0 = automatic).
pub open spec fn is_rect_size(rows: u8, cols: u8) -> bool {
    (rows == 8 && (cols == 0 || cols == 18 || cols == 32)) || (rows == 12 && (cols == 0 || cols
        == 26 || cols == 36)) || (rows == 16 && (cols == 0 || cols == 36 || cols == 48))
}

#[derive(Debug, Clone, Copy, PartialEq, Eq, Structural)]
pub enum DataMatrixType {
    Square(u8),
    Rectangle { rows: u8, cols: u8 },
}

impl DataMatrixType {
    pub open spec fn spec_triple(self) -> Result<(u8, u8, u8), EncodeError> {
        match self {
            DataMatrixType::Square(d) => if is_square_size(d) {
                Ok((0, d, d))
            } else {
                Err(EncodeError::DataMatrixType { rows: d, cols: d })
            },
            DataMatrixType::Rectangle { rows, cols } => if is_rect_size(rows, cols) {
                Ok((1, rows, cols))
            } else {
                Err(EncodeError::DataMatrixType { rows, cols })
            },
        }
    }

    fn triple(self) -> (r: Result<(u8, u8, u8), EncodeError>)
        ensures
            r == self.spec_triple(),
    {
        match self {
            DataMatrixType::Square(d) => {
                if matches!(d, 0 | 10 | 12 | 14 | 16 | 18 | 20 | 22 | 24 | 26 | 32 | 36 | 40 | 44 | 48 | 52 | 64 | 72 | 80 | 88 | 96 | 104 | 120 | 132 | 144) {
                    Ok((0, d, d))
                } else {
                    Err(EncodeError::DataMatrixType { rows: d, cols: d })
                }
            },
            DataMatrixType::Rectangle { rows, cols } => {
                if matches!((rows, cols), (8, 0) | (8, 18) | (8, 32) | (12, 0) | (12, 26) | (12, 36) | (16, 0) | (16, 36) | (16, 48)) {
                    Ok((1, rows, cols))
                } else {
                    Err(EncodeError::DataMatrixType { rows, cols })
                }
            },
        }
    }
}

#[derive(Debug, Clone, PartialEq, Eq)]
pub struct DataMatrix {
    pub data: String,
    pub kind: DataMatrixType,
    pub size: u8,
}

impl Default for DataMatrix {
    fn default() -> (d: Self)
        ensures
            d.data@ == Seq::<char>::empty(),
            d.kind == DataMatrixType::Square(0),
            d.size == 3,
    {
        DataMatrix { data: String::new(), kind: DataMatrixType::Square(0), size: 3 }
    }
}

pub open spec fn spec_encode_data_matrix(d: DataMatrix) -> Result<Seq<u8>, EncodeError> {
    if !(2 <= d.size <= 16) {
        Err(EncodeError::DataMatrixSize(d.size))
    } else {
        match d.kind.spec_triple() {
            Err(e) => Err(e),
            Ok((m, d1, d2)) => match spec_gs_k(DM_CN, 80, seq![48u8] + utf8(d.data@)) {
                Err(e) => Err(e),
                Ok(store) => Ok(packet(DM_CN, 66, seq![m, d1, d2]) + packet(DM_CN, 67, seq![d.size])
                    + store + packet(DM_CN, 81, seq![48u8])),
            },
        }
    }
}

/// Type, module size, store and print packets.
pub fn encode_data_matrix(code: &DataMatrix) -> (r: Result<Vec<u8>, EncodeError>)
    ensures
        bytes_result(r) == spec_encode_data_matrix(*code),
{
    if code.size < 2 || code.size > 16 {
        return Err(EncodeError::DataMatrixSize(code.size));
    }
    let (m, d1, d2) = code.kind.triple()?;
    let mut store: Vec<u8> = Vec::new();
    store.push(48);
    push_slice(&mut store, code.data.as_str().as_bytes());
    let mut out: Vec<u8> = Vec::new();
    push_vec(&mut out, gs_k3(DM_CN, 66, m, d1, d2));
    push_vec(&mut out, gs_k1(DM_CN, 67, code.size));
    let stored = gs_k(DM_CN, 80, store.as_slice())?;
    let ghost stored_view = stored@;
    push_vec(&mut out, stored);
    push_vec(&mut out, gs_k1(DM_CN, 81, 48));
    assert(store@ =~= seq![48u8] + utf8(code.data@));
    assert(out@ =~= packet(DM_CN, 66, seq![m, d1, d2]) + packet(DM_CN, 67, seq![code.size]) + stored_view
        + packet(DM_CN, 81, seq![48u8]));
    Ok(out)
}

} // verus!
