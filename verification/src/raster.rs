//! Immutable packed 1-bit page or image raster. Wire banding lives in
//! [`crate::graphics::Graphics`].

use vstd::prelude::*;

use core::ops::Range;

use crate::bytes::copy_bytes;
use crate::error::RasterError;

verus! {

// ---------------------------------------------------------------------------
// The packed-bit model.

/// Bytes per row: `ceil(width / 8)`.
pub open spec fn stride_of(width: u16) -> int {
    (width as int + 7) / 8
}

/// Bit `k` of a byte, counting from the most significant bit.
pub open spec fn mask_bit(k: int) -> u8 {
    0x80u8 >> (k as u8)
}

pub open spec fn bit_at(b: u8, k: int) -> bool {
    b & mask_bit(k) != 0
}

/// Bits of the last byte of a row that lie inside the image.
pub open spec fn row_mask(width: u16) -> u8 {
    if width % 8 == 0 {
        0xffu8
    } else {
        0xffu8 << ((8 - width % 8) as u8)
    }
}

/// `p` with every row's padding bits cleared.
pub open spec fn normalized(width: u16, p: Seq<u8>) -> Seq<u8> {
    Seq::new(
        p.len(),
        |i: int|
            if width % 8 != 0 && i % stride_of(width) == stride_of(width) - 1 {
                p[i] & row_mask(width)
            } else {
                p[i]
            },
    )
}

/// The pixel at column `x`, row `y` of a packed raster `width` dots wide.
pub open spec fn pixel_at(width: u16, p: Seq<u8>, x: int, y: int) -> bool {
    bit_at(p[y * stride_of(width) + x / 8], x % 8)
}

/// Byte `col` of row `row`, holding its first `n` bits (row-major booleans, `true` = black).
pub open spec fn pack_byte(bits: Seq<bool>, width: int, row: int, col: int, n: int) -> u8
    decreases n,
{
    if n <= 0 {
        0u8
    } else {
        let x = col * 8 + n - 1;
        pack_byte(bits, width, row, col, n - 1) | (if x < width && bits[row * width + x] {
            mask_bit(n - 1)
        } else {
            0u8
        })
    }
}

/// Row-major booleans packed MSB first, each row padded to a whole byte with zero bits.
pub open spec fn packed_bits(width: u16, height: u32, bits: Seq<bool>) -> Seq<u8> {
    Seq::new(
        (stride_of(width) * height) as nat,
        |i: int| pack_byte(bits, width as int, i / stride_of(width), i % stride_of(width), 8),
    )
}

/// The error `from_packed` reports for these dimensions, if any.
pub open spec fn packed_error(width: u16, height: u32, len: nat) -> Option<RasterError> {
    if width == 0 {
        Some(RasterError::ZeroWidth)
    } else if height == 0 {
        Some(RasterError::ZeroHeight)
    } else if stride_of(width) * height > usize::MAX {
        Some(RasterError::Overflow)
    } else if len != stride_of(width) * height {
        Some(
            RasterError::LengthMismatch {
                expected: (stride_of(width) * height) as usize,
                got: len as usize,
            },
        )
    } else {
        None
    }
}

/// The error `from_bits` reports for these dimensions, if any (allocation aside).
pub open spec fn bits_error(width: u16, height: u32, len: nat) -> Option<RasterError> {
    if width == 0 {
        Some(RasterError::ZeroWidth)
    } else if height == 0 {
        Some(RasterError::ZeroHeight)
    } else if width * height > usize::MAX {
        Some(RasterError::Overflow)
    } else if len != width * height {
        Some(RasterError::LengthMismatch { expected: (width * height) as usize, got: len as usize })
    } else {
        None
    }
}

// ---------------------------------------------------------------------------
// Bit lemmas.

proof fn lemma_or_mask_bit(a: u8, j: u8, k: u8)
    requires
        j < 8,
        k < 8,
    ensures
        ((a | (0x80u8 >> j)) & (0x80u8 >> k) != 0) == ((a & (0x80u8 >> k) != 0) || j == k),
        ((a | 0u8) == a),
        (0u8 & (0x80u8 >> k)) == 0,
{
    assert(((a | (0x80u8 >> j)) & (0x80u8 >> k) != 0) == ((a & (0x80u8 >> k) != 0) || j == k))
        by (bit_vector)
        requires
            j < 8,
            k < 8,
    ;
    assert((a | 0u8) == a) by (bit_vector);
    assert((0u8 & (0x80u8 >> k)) == 0) by (bit_vector);
}

proof fn lemma_mask_keeps(a: u8, t: u8, j: u8, u: u8)
    requires
        1 <= u < 8,
    ensures
        j < u ==> (0x80u8 >> j) & (0xffu8 << (8 - u) as u8) == (0x80u8 >> j),
        (a | t) & (0xffu8 << (8 - u) as u8) == (a & (0xffu8 << (8 - u) as u8)) | (t & (0xffu8 << (8
            - u) as u8)),
        (0u8 & (0xffu8 << (8 - u) as u8)) == 0u8,
        (a & (0xffu8 << (8 - u) as u8)) & (0xffu8 << (8 - u) as u8) == a & (0xffu8 << (8 - u) as u8),
{
    if j < u {
        assert((0x80u8 >> j) & (0xffu8 << (8 - u) as u8) == (0x80u8 >> j)) by (bit_vector)
            requires
                j < u,
                1 <= u < 8,
        ;
    }
    assert((a | t) & (0xffu8 << (8 - u) as u8) == (a & (0xffu8 << (8 - u) as u8)) | (t & (0xffu8
        << (8 - u) as u8))) by (bit_vector);
    assert((0u8 & (0xffu8 << (8 - u) as u8)) == 0u8) by (bit_vector);
    assert((a & (0xffu8 << (8 - u) as u8)) & (0xffu8 << (8 - u) as u8) == a & (0xffu8 << (8 - u) as u8))
        by (bit_vector);
}

/// Bit `k` of a packed byte is the pixel at column `col * 8 + k` (zero beyond the width).
pub proof fn lemma_pack_byte_bit(bits: Seq<bool>, width: int, row: int, col: int, n: int, k: int)
    requires
        0 <= n <= 8,
        0 <= k < 8,
    ensures
        bit_at(pack_byte(bits, width, row, col, n), k) == (k < n && col * 8 + k < width && bits[row
            * width + col * 8 + k]),
    decreases n,
{
    if n > 0 {
        lemma_pack_byte_bit(bits, width, row, col, n - 1, k);
        let a = pack_byte(bits, width, row, col, n - 1);
        lemma_or_mask_bit(a, (n - 1) as u8, k as u8);
    } else {
        lemma_or_mask_bit(0u8, 0u8, k as u8);
    }
}

/// A packed byte never carries bits at or beyond `used`, when the columns there lie outside the width.
proof fn lemma_pack_byte_masked(bits: Seq<bool>, width: int, row: int, col: int, n: int, u: u8)
    requires
        0 <= n <= 8,
        1 <= u < 8,
        col * 8 + u == width,
    ensures
        pack_byte(bits, width, row, col, n) & (0xffu8 << (8 - u) as u8) == pack_byte(
            bits,
            width,
            row,
            col,
            n,
        ),
    decreases n,
{
    if n > 0 {
        lemma_pack_byte_masked(bits, width, row, col, n - 1, u);
        let a = pack_byte(bits, width, row, col, n - 1);
        let x = col * 8 + n - 1;
        let t = if x < width && bits[row * width + x] {
            mask_bit(n - 1)
        } else {
            0u8
        };
        lemma_mask_keeps(a, t, (n - 1) as u8, u);
        if x < width {
            assert(n - 1 < u);
            lemma_mask_keeps(a, t, (n - 1) as u8, u);
        }
    } else {
        lemma_mask_keeps(0u8, 0u8, 0u8, u);
    }
}

/// Packed bits carry no padding: normalizing them changes nothing.
pub proof fn lemma_packed_bits_normalized(width: u16, height: u32, bits: Seq<bool>)
    requires
        width > 0,
    ensures
        normalized(width, packed_bits(width, height, bits)) == packed_bits(width, height, bits),
{
    let p = packed_bits(width, height, bits);
    let s = stride_of(width);
    assert forall|i: int| 0 <= i < p.len() implies normalized(width, p)[i] == p[i] by {
        if width % 8 != 0 && i % s == s - 1 {
            let u = (width % 8) as u8;
            assert((s - 1) * 8 + u == width);
            lemma_pack_byte_masked(bits, width as int, i / s, i % s, 8, u);
        }
    }
    assert(normalized(width, p) =~= p);
}

/// Normalizing twice is normalizing once.
pub proof fn lemma_normalized_idempotent(width: u16, p: Seq<u8>)
    ensures
        normalized(width, normalized(width, p)) == normalized(width, p),
{
    let q = normalized(width, p);
    if width % 8 != 0 {
        let u = (width % 8) as u8;
        assert forall|i: int| 0 <= i < q.len() implies normalized(width, q)[i] == q[i] by {
            if i % stride_of(width) == stride_of(width) - 1 {
                lemma_mask_keeps(p[i], 0u8, 0u8, u);
            }
        }
    }
    assert(normalized(width, q) =~= q);
}

/// Every in-range pixel of packed bits is the boolean it was packed from.
pub proof fn lemma_packed_bits_pixel(width: u16, height: u32, bits: Seq<bool>, x: int, y: int)
    requires
        width > 0,
        0 <= x < width,
        0 <= y < height,
    ensures
        pixel_at(width, packed_bits(width, height, bits), x, y) == bits[y * width + x],
{
    let s = stride_of(width);
    let i = y * s + x / 8;
    assert(x / 8 < s);
    assert(y * s + x / 8 < s * height) by (nonlinear_arith)
        requires
            x / 8 < s,
            0 <= y < height,
            0 <= x,
    ;
    vstd::arithmetic::div_mod::lemma_fundamental_div_mod_converse(i, s, y, x / 8);
    lemma_pack_byte_bit(bits, width as int, y, x / 8, 8, x % 8);
    assert((x / 8) * 8 + x % 8 == x);
}

/// Round trip through the packed form: the rows that `from_bits` packs from
/// row-major booleans are rows that `from_packed` accepts for the same size
/// and keeps unchanged, and every pixel of them reads back as its boolean.
pub proof fn lemma_bits_round_trip(width: u16, height: u32, bits: Seq<bool>)
    requires
        bits_error(width, height, bits.len()) is None,
    ensures
        packed_error(width, height, packed_bits(width, height, bits).len()) is None,
        normalized(width, packed_bits(width, height, bits)) == packed_bits(width, height, bits),
        forall|x: int, y: int|
            0 <= x < width && 0 <= y < height ==> #[trigger] pixel_at(
                width,
                packed_bits(width, height, bits),
                x,
                y,
            ) == bits[y * width + x],
{
    let s = stride_of(width);
    assert(s <= width);
    assert(s * height <= width * height) by (nonlinear_arith)
        requires
            s <= width,
            0 <= s,
    ;
    assert(s * height >= 0) by (nonlinear_arith)
        requires
            0 <= s,
    ;
    lemma_packed_bits_normalized(width, height, bits);
    assert forall|x: int, y: int| 0 <= x < width && 0 <= y < height implies #[trigger] pixel_at(
        width,
        packed_bits(width, height, bits),
        x,
        y,
    ) == bits[y * width + x] by {
        lemma_packed_bits_pixel(width, height, bits, x, y);
    }
}

/// Advancing an index by one advances its (row, column) coordinates in reading order.
proof fn lemma_step(i: int, s: int)
    requires
        s > 0,
        0 <= i,
    ensures
        i % s + 1 < s ==> (i + 1) / s == i / s && (i + 1) % s == i % s + 1,
        i % s + 1 == s ==> (i + 1) / s == i / s + 1 && (i + 1) % s == 0,
{
    vstd::arithmetic::div_mod::lemma_fundamental_div_mod(i, s);
    let q = i / s;
    let r = i % s;
    assert(0 <= r < s);
    if r + 1 < s {
        assert(i + 1 == q * s + (r + 1)) by (nonlinear_arith)
            requires
                i == s * q + r,
        ;
        vstd::arithmetic::div_mod::lemma_fundamental_div_mod_converse(i + 1, s, q, r + 1);
    } else {
        assert(i + 1 == (q + 1) * s) by (nonlinear_arith)
            requires
                i == s * q + r,
                r + 1 == s,
        ;
        vstd::arithmetic::div_mod::lemma_fundamental_div_mod_converse(i + 1, s, q + 1, 0);
    }
}

// ---------------------------------------------------------------------------
// The raster.

/// Packed MSB-first 1-bit image. Width and height are nonzero; stride is derived.
#[derive(Debug, PartialEq, Eq)]
pub struct Raster {
    width: u16,
    height: u32,
    pixels: Vec<u8>,
}

impl Raster {
    #[verifier::type_invariant]
    spec fn well_formed(self) -> bool {
        &&& self.width > 0
        &&& self.height > 0
        &&& self.pixels@.len() == stride_of(self.width) * self.height
        &&& normalized(self.width, self.pixels@) == self.pixels@
    }

    pub closed spec fn spec_width(&self) -> u16 {
        self.width
    }

    pub closed spec fn spec_height(&self) -> u32 {
        self.height
    }

    pub closed spec fn spec_pixels(&self) -> Seq<u8> {
        self.pixels@
    }

    /// Adopt packed rows, clearing padding bits so each image has one representation.
    pub fn from_packed(width: u16, height: u32, pixels: Vec<u8>) -> (r: Result<Self, RasterError>)
        ensures
            match packed_error(width, height, pixels@.len()) {
                Some(e) => r == Err::<Raster, RasterError>(e),
                None => r is Ok && r->Ok_0.spec_width() == width && r->Ok_0.spec_height() == height
                    && r->Ok_0.spec_pixels() == normalized(width, pixels@),
            },
    {
        let mut pixels = pixels;
        if width == 0 {
            return Err(RasterError::ZeroWidth);
        }
        if height == 0 {
            return Err(RasterError::ZeroHeight);
        }
        let expected = packed_len(width, height)?;
        if pixels.len() != expected {
            return Err(RasterError::LengthMismatch { expected, got: pixels.len() });
        }
        let ghost original = pixels@;
        proof {
            vstd::arithmetic::div_mod::lemma_mod_multiples_vanish(height as int, 0, stride_of(width));
            assert(stride_of(width) * height + 0 == original.len());
        }
        normalize_padding(width, &mut pixels);
        proof {
            lemma_normalized_idempotent(width, original);
        }
        Ok(Raster { width, height, pixels })
    }

    /// Pack row-major booleans (`true` = black) MSB first.
    pub fn from_bits(width: u16, height: u32, pixels: &[bool]) -> (r: Result<Self, RasterError>)
        ensures
            match bits_error(width, height, pixels@.len()) {
                Some(e) => r == Err::<Raster, RasterError>(e),
                None => r == Err::<Raster, RasterError>(RasterError::Alloc) || (r is Ok
                    && r->Ok_0.spec_width() == width && r->Ok_0.spec_height() == height
                    && r->Ok_0.spec_pixels() == packed_bits(width, height, pixels@)),
            },
    {
        if width == 0 {
            return Err(RasterError::ZeroWidth);
        }
        if height == 0 {
            return Err(RasterError::ZeroHeight);
        }
        let w = width as usize;
        let h = height as usize;
        let expected = match w.checked_mul(h) {
            Some(e) => e,
            None => return Err(RasterError::Overflow),
        };
        if pixels.len() != expected {
            return Err(RasterError::LengthMismatch { expected, got: pixels.len() });
        }
        let stride = stride_bytes(width);
        assert(stride * h <= w * h) by (nonlinear_arith)
            requires
                stride <= w,
        ;
        let total = packed_len(width, height)?;
        let mut packed: Vec<u8> = Vec::new();
        if packed.try_reserve(total).is_err() {
            return Err(RasterError::Alloc);
        }
        let mut i: usize = 0;
        let mut row: usize = 0;
        let mut col: usize = 0;
        while i < total
            invariant
                stride == stride_of(width),
                stride > 0,
                total == stride * h,
                w == width,
                h == height,
                pixels@.len() == w * h,
                i <= total,
                packed@.len() == i,
                row == (i as int) / (stride as int),
                col == (i as int) % (stride as int),
                forall|j: int|
                    0 <= j < i ==> #[trigger] packed@[j] == pack_byte(
                        pixels@,
                        w as int,
                        j / stride as int,
                        j % stride as int,
                        8,
                    ),
            decreases total - i,
        {
            assert(row < h) by {
                if row >= h {
                    assert(i >= stride * h) by (nonlinear_arith)
                        requires
                            row == (i as int) / (stride as int),
                            row >= h,
                            stride > 0,
                    ;
                }
            }
            let byte = pack_one(pixels, w, h, stride, row, col);
            packed.push(byte);
            proof {
                lemma_step(i as int, stride as int);
            }
            i = i + 1;
            col = col + 1;
            if col == stride {
                col = 0;
                row = row + 1;
            }
        }
        proof {
            assert(packed@ =~= packed_bits(width, height, pixels@));
            lemma_packed_bits_normalized(width, height, pixels@);
        }
        Self::from_packed(width, height, packed)
    }

    pub fn width(&self) -> (w: u16)
        ensures
            w == self.spec_width(),
            w > 0,
    {
        proof {
            use_type_invariant(self);
        }
        self.width
    }

    pub fn height(&self) -> (h: u32)
        ensures
            h == self.spec_height(),
            h > 0,
    {
        proof {
            use_type_invariant(self);
        }
        self.height
    }

    pub fn stride(&self) -> (s: usize)
        ensures
            s == stride_of(self.spec_width()),
    {
        stride_bytes(self.width)
    }

    pub fn pixels(&self) -> (p: &[u8])
        ensures
            p@ == self.spec_pixels(),
            p@.len() == stride_of(self.spec_width()) * self.spec_height(),
            normalized(self.spec_width(), p@) == p@,
    {
        proof {
            use_type_invariant(self);
        }
        self.pixels.as_slice()
    }

    /// The pixel at `(x, y)`, or `None` outside the image.
    pub fn pixel(&self, x: u16, y: u32) -> (r: Option<bool>)
        ensures
            r == (if x < self.spec_width() && y < self.spec_height() {
                Some(pixel_at(self.spec_width(), self.spec_pixels(), x as int, y as int))
            } else {
                None::<bool>
            }),
    {
        proof {
            use_type_invariant(self);
        }
        if x >= self.width || y >= self.height {
            return None;
        }
        let stride = self.stride();
        let row = y as usize;
        assert(row * stride + (x as int) / 8 < stride * self.height) by (nonlinear_arith)
            requires
                (x as int) / 8 < stride,
                row < self.height,
        ;
        Some(test_bit(self.pixels.as_slice(), stride, x as usize, row))
    }

    /// Rows `rows.start .. rows.end` as a raster of their own.
    pub fn slice_rows(&self, rows: Range<u32>) -> (r: Result<Self, RasterError>)
        ensures
            if rows.start >= rows.end || rows.end > self.spec_height() {
                r == Err::<Raster, RasterError>(RasterError::InvalidRowRange)
            } else {
                r == Err::<Raster, RasterError>(RasterError::Alloc) || (r is Ok
                    && r->Ok_0.spec_width() == self.spec_width() && r->Ok_0.spec_height() == rows.end
                    - rows.start && r->Ok_0.spec_pixels() == self.spec_pixels().subrange(
                    rows.start * stride_of(self.spec_width()),
                    rows.end * stride_of(self.spec_width()),
                ))
            },
    {
        proof {
            use_type_invariant(self);
        }
        if rows.start >= rows.end || rows.end > self.height {
            return Err(RasterError::InvalidRowRange);
        }
        let height = rows.end - rows.start;
        let stride = self.stride();
        let start = rows.start as usize;
        let end = rows.end as usize;
        let n = self.pixels.len();
        assert(start * stride <= end * stride <= stride * self.height) by (nonlinear_arith)
            requires
                start < end <= self.height,
                stride >= 0,
        ;
        assert(end * stride <= n);
        let start_off = start * stride;
        let end_off = end * stride;
        let mut pixels: Vec<u8> = Vec::new();
        if pixels.try_reserve(end_off - start_off).is_err() {
            return Err(RasterError::Alloc);
        }
        let mut i = start_off;
        while i < end_off
            invariant
                start_off <= i <= end_off,
                end_off <= self.pixels@.len(),
                pixels@ == self.pixels@.subrange(start_off as int, i as int),
            decreases end_off - i,
        {
            pixels.push(self.pixels[i]);
            i = i + 1;
            assert(pixels@ =~= self.pixels@.subrange(start_off as int, i as int));
        }
        let ghost sub = pixels@;
        proof {
            assert(end_off - start_off == stride * height) by (nonlinear_arith)
                requires
                    start_off == start * stride,
                    end_off == end * stride,
                    height == end - start,
            ;
            let s = stride as int;
            assert forall|i: int| 0 <= i < sub.len() implies normalized(self.width, sub)[i]
                == sub[i] by {
                vstd::arithmetic::div_mod::lemma_mod_multiples_vanish(start as int, i, s);
                assert((start_off + i) % s == i % s) by {
                    assert(start_off as int == s * start);
                }
                assert(normalized(self.width, self.pixels@)[start_off + i] == self.pixels@[start_off + i]);
            }
            assert(normalized(self.width, sub) =~= sub);
        }
        Self::from_packed(self.width, height, pixels)
    }
}

impl Clone for Raster {
    fn clone(&self) -> (r: Self)
        ensures
            r.spec_width() == self.spec_width(),
            r.spec_height() == self.spec_height(),
            r.spec_pixels() == self.spec_pixels(),
    {
        proof {
            use_type_invariant(self);
        }
        let pixels = copy_bytes(self.pixels.as_slice());
        let r = Raster { width: self.width, height: self.height, pixels };
        assert(r.pixels@ == self.pixels@);
        r
    }
}

/// Bytes per row for `width` dots.
pub fn stride_bytes(width: u16) -> (s: usize)
    ensures
        s == stride_of(width),
{
    (width as usize + 7) / 8
}

fn packed_len(width: u16, height: u32) -> (r: Result<usize, RasterError>)
    ensures
        match r {
            Ok(n) => n == stride_of(width) * height,
            Err(e) => e == RasterError::Overflow && stride_of(width) * height > usize::MAX,
        },
{
    let stride = stride_bytes(width);
    let rows = height as usize;
    match stride.checked_mul(rows) {
        Some(n) => Ok(n),
        None => Err(RasterError::Overflow),
    }
}

fn bit_mask(x: usize) -> (m: u8)
    ensures
        m == mask_bit((x % 8) as int),
{
    0x80u8 >> ((x % 8) as u8)
}

fn test_bit(pixels: &[u8], stride: usize, x: usize, y: usize) -> (b: bool)
    requires
        y * stride + x / 8 < pixels@.len(),
    ensures
        b == bit_at(pixels@[y * stride + x / 8], (x % 8) as int),
{
    let n = pixels.len();
    assert(y * stride <= y * stride + x / 8);
    pixels[y * stride + x / 8] & bit_mask(x) != 0
}

/// One packed byte: columns `col * 8 .. col * 8 + 8` of row `row`.
fn pack_one(bits: &[bool], w: usize, h: usize, stride: usize, row: usize, col: usize) -> (b: u8)
    requires
        bits@.len() == w * h,
        row < h,
        col < stride,
        stride == (w + 7) / 8,
        w <= 0xffff,
    ensures
        b == pack_byte(bits@, w as int, row as int, col as int, 8),
{
    let n = bits.len();
    let mut b: u8 = 0;
    let mut k: usize = 0;
    while k < 8
        invariant
            n == bits@.len(),
            k <= 8,
            bits@.len() == w * h,
            row < h,
            col < stride,
            stride == (w + 7) / 8,
            w <= 0xffff,
            b == pack_byte(bits@, w as int, row as int, col as int, k as int),
        decreases 8 - k,
    {
        let x = col * 8 + k;
        if x < w {
            assert(row * w + x < w * h) by (nonlinear_arith)
                requires
                    row < h,
                    x < w,
            ;
            if bits[row * w + x] {
                b = b | bit_mask(k);
            } else {
                b = b | 0;
            }
        } else {
            b = b | 0;
        }
        k = k + 1;
    }
    b
}

/// Clear the padding bits of every row.
fn normalize_padding(width: u16, pixels: &mut Vec<u8>)
    requires
        width > 0,
        (old(pixels)@.len() as int) % stride_of(width) == 0,
    ensures
        final(pixels)@ == normalized(width, old(pixels)@),
{
    let used = width % 8;
    let ghost original = pixels@;
    if used == 0 {
        assert(pixels@ =~= normalized(width, original));
        return;
    }
    let mask: u8 = 0xffu8 << ((8 - used) as u8);
    let stride = stride_bytes(width);
    let mut i: usize = 0;
    let mut col: usize = 0;
    while i < pixels.len()
        invariant
            stride == stride_of(width),
            stride > 0,
            used == width % 8,
            used != 0,
            mask == row_mask(width),
            pixels@.len() == original.len(),
            i <= pixels@.len(),
            col == (i as int) % (stride as int),
            forall|j: int| 0 <= j < i ==> pixels@[j] == normalized(width, original)[j],
            forall|j: int| i <= j < pixels@.len() ==> pixels@[j] == original[j],
        decreases pixels@.len() - i,
    {
        proof {
            lemma_step(i as int, stride as int);
        }
        if col == stride - 1 {
            let v = pixels[i] & mask;
            pixels.set(i, v);
            col = 0;
        } else {
            col = col + 1;
        }
        i = i + 1;
    }
    assert(pixels@ =~= normalized(width, original));
}

} // verus!
