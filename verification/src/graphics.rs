//! Packed 1-bit graphics (`GS ( L` fn=112 store + fn=50 print).

use vstd::prelude::*;

use crate::bytes::{push_slice, bytes_result};
use crate::error::{EncodeError, RasterError};
use crate::raster::{bits_error, packed_bits, stride_bytes, stride_of, Raster};

verus! {

#[derive(Debug, Clone, Copy, PartialEq, Eq, Structural)]
pub enum GraphicsScale {
    Normal,
    DoubleWidth,
    DoubleHeight,
    Quadruple,
}

impl GraphicsScale {
    pub open spec fn spec_factors(self) -> (u8, u8) {
        match self {
            GraphicsScale::Normal => (1, 1),
            GraphicsScale::DoubleWidth => (2, 1),
            GraphicsScale::DoubleHeight => (1, 2),
            GraphicsScale::Quadruple => (2, 2),
        }
    }

    /// Horizontal and vertical magnification.
    pub fn factors(self) -> (f: (u8, u8))
        ensures
            f == self.spec_factors(),
    {
        match self {
            GraphicsScale::Normal => (1, 1),
            GraphicsScale::DoubleWidth => (2, 1),
            GraphicsScale::DoubleHeight => (1, 2),
            GraphicsScale::Quadruple => (2, 2),
        }
    }
}

/// Largest raster height whose fn=112 body (`10 + stride × height`) fits a 16-bit length.
pub open spec fn spec_max_height(width: u16) -> int {
    let stride = if stride_of(width) > 1 { stride_of(width) } else { 1 };
    (65535 - 10) / stride
}

/// A length as a `usize`, saturating at `usize::MAX`.
pub open spec fn saturating_len(n: int) -> usize {
    if n > usize::MAX {
        usize::MAX
    } else {
        n as usize
    }
}

/// A [`Raster`] that fits the fn=112 16-bit body, plus its commanded scale.
#[derive(Debug, PartialEq, Eq)]
pub struct Graphics {
    raster: Raster,
    scale: GraphicsScale,
}

impl Graphics {
    #[verifier::type_invariant]
    spec fn fits(self) -> bool {
        self.raster.spec_height() <= spec_max_height(self.raster.spec_width())
    }

    pub closed spec fn spec_raster(&self) -> Raster {
        self.raster
    }

    pub closed spec fn spec_scale(&self) -> GraphicsScale {
        self.scale
    }

    /// Admit a raster whose height fits the wire length field.
    pub fn new(raster: Raster, scale: GraphicsScale) -> (r: Result<Self, EncodeError>)
        ensures
            raster.spec_height() <= spec_max_height(raster.spec_width()) ==> r is Ok
                && r->Ok_0.spec_raster() == raster && r->Ok_0.spec_scale() == scale,
            raster.spec_height() > spec_max_height(raster.spec_width()) ==> r == Err::<
                Graphics,
                EncodeError,
            >(EncodeError::GraphicsTooLong { len: saturating_len(10 + raster.spec_pixels().len() as int) }),
    {
        let cap = max_height(raster.width()) as u32;
        if raster.height() > cap {
            let len = raster.pixels().len();
            let reported = if len > usize::MAX - 10 { usize::MAX } else { 10 + len };
            return Err(EncodeError::GraphicsTooLong { len: reported });
        }
        Ok(Graphics { raster, scale })
    }

    pub fn raster(&self) -> (r: &Raster)
        ensures
            *r == self.spec_raster(),
    {
        &self.raster
    }

    pub fn scale(&self) -> (s: GraphicsScale)
        ensures
            s == self.spec_scale(),
    {
        self.scale
    }
}

impl Clone for Graphics {
    fn clone(&self) -> (g: Self)
        ensures
            g.spec_raster().spec_width() == self.spec_raster().spec_width(),
            g.spec_raster().spec_height() == self.spec_raster().spec_height(),
            g.spec_raster().spec_pixels() == self.spec_raster().spec_pixels(),
            g.spec_scale() == self.spec_scale(),
    {
        proof {
            use_type_invariant(self);
        }
        Graphics { raster: self.raster.clone(), scale: self.scale }
    }
}

/// Bytes per raster row.
pub fn width_bytes(width_dots: u16) -> (n: usize)
    ensures
        n == stride_of(width_dots),
{
    stride_bytes(width_dots)
}

/// Largest raster height whose fn=112 body fits in a 16-bit length.
/// At 576 dots wide this is 910 (`10 + 72 × h ≤ 65535`).
pub fn max_height(width_dots: u16) -> (h: u16)
    ensures
        h == spec_max_height(width_dots),
{
    let w = width_bytes(width_dots);
    let stride = if w > 1 { w } else { 1 };
    ((65535 - 10) / stride) as u16
}

/// How [`pack`] reports a failed packing.
pub open spec fn spec_pack(width: u16, height: u16, bits: Seq<bool>) -> Result<Seq<u8>, EncodeError> {
    match bits_error(width, height as u32, bits.len()) {
        Some(RasterError::LengthMismatch { expected, got }) => Err(
            EncodeError::GraphicsPackedLen { expected, got },
        ),
        Some(RasterError::Overflow) | Some(RasterError::Alloc) => Err(
            EncodeError::GraphicsTooLong { len: bits.len() as usize },
        ),
        Some(_) => Err(
            EncodeError::GraphicsPackedLen {
                expected: if width * height > usize::MAX {
                    usize::MAX
                } else {
                    (width * height) as usize
                },
                got: bits.len() as usize,
            },
        ),
        None => Ok(packed_bits(width, height as u32, bits)),
    }
}

/// Pack row-major pixels, `true` = black, MSB first in each byte.
///
/// Prefer [`Raster::from_bits`]; this remains for callers that want bare bytes.
pub fn pack(width_dots: u16, height_dots: u16, pixels: &[bool]) -> (r: Result<Vec<u8>, EncodeError>)
    ensures
        bytes_result(r) == spec_pack(width_dots, height_dots, pixels@) || (bits_error(
            width_dots,
            height_dots as u32,
            pixels@.len(),
        ) is None && r == Err::<Vec<u8>, EncodeError>(
            EncodeError::GraphicsTooLong { len: pixels@.len() as usize },
        )),
{
    match Raster::from_bits(width_dots, height_dots as u32, pixels) {
        Ok(raster) => {
            let mut out: Vec<u8> = Vec::new();
            push_slice(&mut out, raster.pixels());
            assert(out@ =~= raster.spec_pixels());
            Ok(out)
        },
        Err(RasterError::LengthMismatch { expected, got }) => {
            Err(EncodeError::GraphicsPackedLen { expected, got })
        },
        Err(RasterError::Overflow) | Err(RasterError::Alloc) => {
            Err(EncodeError::GraphicsTooLong { len: pixels.len() })
        },
        Err(_) => {
            let w = width_dots as usize;
            let h = height_dots as usize;
            let expected = match w.checked_mul(h) {
                Some(e) => e,
                None => usize::MAX,
            };
            Err(EncodeError::GraphicsPackedLen { expected, got: pixels.len() })
        },
    }
}

/// The `GS ( L` store and print commands for a graphic.
pub open spec fn spec_graphics_bytes(g: Graphics) -> Seq<u8> {
    let r = g.spec_raster();
    let p = r.spec_pixels();
    let body = 10 + p.len();
    let (bx, by) = g.spec_scale().spec_factors();
    let x = r.spec_width();
    let y = r.spec_height() as u16;
    seq![0x1du8, 0x28u8, 0x4cu8, (body % 256) as u8, (body / 256) as u8, 48u8, 112u8, 48u8, bx, by,
        49u8, (x & 0xff) as u8, (x >> 8) as u8, (y & 0xff) as u8, (y >> 8) as u8] + p + seq![0x1du8,
        0x28u8, 0x4cu8, 2u8, 0u8, 48u8, 50u8]
}

/// `GS ( L` fn=112 (store the raster) then fn=50 (print it).
pub fn encode(image: &Graphics) -> (r: Result<Vec<u8>, EncodeError>)
    ensures
        bytes_result(r) == Ok::<Seq<u8>, EncodeError>(spec_graphics_bytes(*image)),
{
    proof {
        use_type_invariant(image);
    }
    let raster = image.raster();
    let pixels = raster.pixels();
    let stride = raster.stride();
    let w = raster.width();
    let h = raster.height();
    assert(stride * h <= 65525) by (nonlinear_arith)
        requires
            h <= spec_max_height(w),
            stride == stride_of(w),
            spec_max_height(w) == 65525int / (if stride > 1 { stride as int } else { 1int }),
    ;
    if pixels.len() > 65535 - 10 {
        return Err(EncodeError::GraphicsTooLong { len: 10 + pixels.len() });
    }
    let body = 10 + pixels.len();
    let (bx, by) = image.scale().factors();
    let x = w;
    if h > 0xffff {
        return Err(EncodeError::GraphicsTooLong { len: body });
    }
    let y = h as u16;
    let pl = (body % 256) as u8;
    let ph = (body / 256) as u8;
    let mut out: Vec<u8> = Vec::new();
    out.push(0x1d);
    out.push(0x28);
    out.push(0x4c);
    out.push(pl);
    out.push(ph);
    out.push(48);
    out.push(112);
    out.push(48);
    out.push(bx);
    out.push(by);
    out.push(49);
    out.push((x & 0xff) as u8);
    out.push((x >> 8) as u8);
    out.push((y & 0xff) as u8);
    out.push((y >> 8) as u8);
    push_slice(&mut out, pixels);
    out.push(0x1d);
    out.push(0x28);
    out.push(0x4c);
    out.push(2);
    out.push(0);
    out.push(48);
    out.push(50);
    assert(out@ =~= spec_graphics_bytes(*image));
    Ok(out)
}

} // verus!
