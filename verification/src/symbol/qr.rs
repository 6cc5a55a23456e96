//! QR Code (`GS ( k` cn=49).
//!
//! TM-T20III: model fn=165 takes 49 or 50 (Model 1 / Model 2) with n2 = 0;
//! Micro (51) is not in the TM-T20III range. Module size fn=167 is 1..=16.
//! Store fn=180 admits `(pL + pH × 256) = 4..=7092`, so k = 1..=7089.

use vstd::prelude::*;

use crate::bytes::{bytes_result, push_slice, push_vec, utf8};
use crate::error::EncodeError;

use super::packet::{gs_k1, gs_k2, gs_k_fit, packet};

verus! {

pub const QR_CN: u8 = 49;
pub const QR_MAX: usize = 7089;

#[derive(Debug, Clone, Copy, PartialEq, Eq, Structural)]
pub enum QrModel {
    Model1,
    Model2,
    Micro,
}

impl QrModel {
    pub open spec fn spec_byte(self) -> u8 {
        match self {
            QrModel::Model1 => 49,
            QrModel::Model2 => 50,
            QrModel::Micro => 51,
        }
    }

    fn byte(self) -> (b: u8)
        ensures
            b == self.spec_byte(),
    {
        match self {
            QrModel::Model1 => 49,
            QrModel::Model2 => 50,
            QrModel::Micro => 51,
        }
    }
}

#[derive(Debug, Clone, Copy, PartialEq, Eq, Structural)]
pub enum QrEcc {
    L,
    M,
    Q,
    H,
}

impl QrEcc {
    pub open spec fn spec_byte(self) -> u8 {
        match self {
            QrEcc::L => 48,
            QrEcc::M => 49,
            QrEcc::Q => 50,
            QrEcc::H => 51,
        }
    }

    fn byte(self) -> (b: u8)
        ensures
            b == self.spec_byte(),
    {
        match self {
            QrEcc::L => 48,
            QrEcc::M => 49,
            QrEcc::Q => 50,
            QrEcc::H => 51,
        }
    }
}

#[derive(Debug, Clone, PartialEq, Eq)]
pub struct Qr {
    pub data: String,
    pub model: QrModel,
    pub size: u8,
    pub ecc: QrEcc,
}

impl Default for Qr {
    fn default() -> (q: Self)
        ensures
            q.data@ == Seq::<char>::empty(),
            q.model == QrModel::Model2,
            q.size == 4,
            q.ecc == QrEcc::M,
    {
        Qr { data: String::new(), model: QrModel::Model2, size: 4, ecc: QrEcc::M }
    }
}

/// The QR byte stream for `q`, or why it is not admitted.
pub open spec fn spec_encode_qr(q: Qr) -> Result<Seq<u8>, EncodeError> {
    let data = utf8(q.data@);
    if q.model == QrModel::Micro {
        Err(EncodeError::QrModel(51))
    } else if !(1 <= data.len() <= QR_MAX) {
        Err(EncodeError::QrTooLong { len: data.len() as usize })
    } else if !(1 <= q.size <= 16) {
        Err(EncodeError::QrSize(q.size))
    } else {
        Ok(packet(QR_CN, 65, seq![q.model.spec_byte(), 0u8]) + packet(QR_CN, 67, seq![q.size])
            + packet(QR_CN, 69, seq![q.ecc.spec_byte()]) + packet(QR_CN, 80, seq![48u8] + data)
            + packet(QR_CN, 81, seq![48u8]))
    }
}

/// Validated QR store body (`m` + data). Built once for emission.
struct QrPayload {
    model: u8,
    size: u8,
    ecc: u8,
    store: Vec<u8>,
}

fn accept(qr: &Qr) -> (r: Result<QrPayload, EncodeError>)
    ensures
        match r {
            Ok(p) => spec_encode_qr(*qr) is Ok && p.model == qr.model.spec_byte() && p.size
                == qr.size && p.ecc == qr.ecc.spec_byte() && p.store@ == seq![48u8] + utf8(qr.data@),
            Err(e) => spec_encode_qr(*qr) == Err::<Seq<u8>, EncodeError>(e),
        },
{
    if qr.model == QrModel::Micro {
        return Err(EncodeError::QrModel(51));
    }
    let data = qr.data.as_str().as_bytes();
    let len = data.len();
    if len < 1 || len > QR_MAX {
        return Err(EncodeError::QrTooLong { len });
    }
    if qr.size < 1 || qr.size > 16 {
        return Err(EncodeError::QrSize(qr.size));
    }
    let mut store: Vec<u8> = Vec::new();
    store.push(48);
    push_slice(&mut store, data);
    Ok(QrPayload { model: qr.model.byte(), size: qr.size, ecc: qr.ecc.byte(), store })
}

/// The five `GS ( k` packets that select, size, correct, store and print a QR symbol.
pub fn encode_qr(qr: &Qr) -> (r: Result<Vec<u8>, EncodeError>)
    ensures
        bytes_result(r) == spec_encode_qr(*qr),
{
    let payload = accept(qr)?;
    let mut out: Vec<u8> = Vec::new();
    push_vec(&mut out, gs_k2(QR_CN, 65, payload.model, 0));
    push_vec(&mut out, gs_k1(QR_CN, 67, payload.size));
    push_vec(&mut out, gs_k1(QR_CN, 69, payload.ecc));
    push_vec(&mut out, gs_k_fit(QR_CN, 80, payload.store.as_slice()));
    push_vec(&mut out, gs_k1(QR_CN, 81, 48));
    assert(out@ =~= packet(QR_CN, 65, seq![qr.model.spec_byte(), 0u8]) + packet(QR_CN, 67, seq![qr.size])
        + packet(QR_CN, 69, seq![qr.ecc.spec_byte()]) + packet(QR_CN, 80, seq![48u8] + utf8(qr.data@))
        + packet(QR_CN, 81, seq![48u8]));
    Ok(out)
}

} // verus!
