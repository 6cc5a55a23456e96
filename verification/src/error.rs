//! Error vocabulary shared by encoding, rasters, reply framing and transports.

use vstd::prelude::*;

use crate::barcode::BarcodeKind;
use crate::symbol::Gs1DataBarType;

verus! {

/// Why a command could not be lowered to printer bytes.
#[derive(Debug, Clone, Copy, PartialEq, Eq)]
pub enum EncodeError {
    Size { width: u8, height: u8 },
    PrintSpeed(u8),
    BarcodeData { kind: BarcodeKind },
    BarcodeTooLong { len: usize },
    BarcodeWidth(u8),
    BarcodeHeight(u8),
    HriFont(u8),
    QrModel(u8),
    QrTooLong { len: usize },
    QrSize(u8),
    Pdf417Columns(u8),
    Pdf417Rows(u8),
    Pdf417Width(u8),
    Pdf417RowHeight(u8),
    Pdf417CorrectionRatio(u8),
    SymbolDataLength { symbol: &'static str, len: usize, max: usize },
    Gs1Data { kind: Gs1DataBarType, len: usize },
    Gs1ModuleWidth(u8),
    DataMatrixType { rows: u8, cols: u8 },
    DataMatrixSize(u8),
    Gs2dTooLong { len: usize },
    GraphicsTooLong { len: usize },
    GraphicsPackedLen { expected: usize, got: usize },
}

/// Why a packed raster could not be built.
#[derive(Debug, Clone, Copy, PartialEq, Eq)]
pub enum RasterError {
    ZeroWidth,
    ZeroHeight,
    LengthMismatch { expected: usize, got: usize },
    Overflow,
    Alloc,
    InvalidRowRange,
}

/// Reply framing failures of [`crate::reply::ReplyReader`].
#[derive(Debug, Clone, Copy, PartialEq, Eq)]
pub enum FramingError {
    UnexpectedEof,
    Overlength { max: usize, got: usize },
    WrongId { requested: [u8; 4], got: [u8; 4] },
}

/// A reply that is not the shape the request asked for.
#[derive(Debug, Clone, PartialEq, Eq)]
pub enum IdentifyError {
    Unexpected { got: Vec<u8> },
}

/// A real-time status byte whose fixed bits are wrong.
#[derive(Debug, Clone, Copy, PartialEq, Eq)]
pub enum StatusError {
    BadPattern { byte: u8 },
}

/// The kind of an operating-system I/O failure, as a plain value.
#[derive(Debug, Clone, Copy, PartialEq, Eq)]
pub enum IoErrorKind {
    Interrupted,
    UnexpectedEof,
    TimedOut,
    InvalidInput,
    NotFound,
    BrokenPipe,
    Other,
}

/// USB failures.
#[derive(Debug, Clone, PartialEq, Eq)]
pub enum UsbError {
    NotFound { vid: u16, pid: u16, serial: Option<String> },
    NoBulkOut,
    NoBulkIn,
    Transfer(IoErrorKind),
}

/// Every failure of the printer side of the crate.
#[derive(Debug, Clone, PartialEq, Eq)]
pub enum Error {
    Io(IoErrorKind),
    Usb(UsbError),
    Encode(EncodeError),
    Raster(RasterError),
    Framing(FramingError),
    Identify(IdentifyError),
    Status(StatusError),
}

pub type Result<T> = core::result::Result<T, Error>;

/// A transport read that should simply be tried again.
pub open spec fn is_interrupted(e: Error) -> bool {
    ||| e == Error::Io(IoErrorKind::Interrupted)
    ||| e == Error::Usb(UsbError::Transfer(IoErrorKind::Interrupted))
}

/// An error that only a transport can raise (never a framing or identity verdict).
pub open spec fn is_transport_error(e: Error) -> bool {
    e is Io || e is Usb
}

} // verus!
