//! 2D symbols: validation and `GS ( k` bytes.
//!
//! Packet lengths are derived from their bodies. Symbol families live in
//! `symbol/*.rs`.

use vstd::prelude::*;

pub mod datamatrix;
pub mod gs1;
pub mod maxicode;
pub mod packet;
pub mod pdf417;
pub mod qr;

pub use datamatrix::{encode_data_matrix, DataMatrix, DataMatrixType};
pub use gs1::{encode_gs1, Gs1DataBar, Gs1DataBarType, Gs1DataBarWidth};
pub use maxicode::{encode_maxi, MaxiCode, MaxiCodeMode};
pub use pdf417::{encode_pdf417, Pdf417, Pdf417Ecc, Pdf417Kind};
pub use qr::{encode_qr, Qr, QrEcc, QrModel};

verus! {

#[derive(Debug, Clone, Copy, PartialEq, Eq)]
pub enum SymbolKind {
    Qr,
    Pdf417,
    Gs1DataBar,
    MaxiCode,
    DataMatrix,
}

} // verus!
