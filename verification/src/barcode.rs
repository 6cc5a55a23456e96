//! 1D barcodes: typed validated payloads and `GS k` function B bytes.
//!
//! An authoring [`Barcode`] is parsed once into an encoded payload; emission
//! uses that payload only.
//!
//! TM-T20III `GS k` function B:
//! - `n` is the encoded-byte count after escaping.
//! - CODABAR (m=71): n=2..=255; d1 and dn are A–D / a–d; those letters are not
//!   legal in the interior. Start/stop are not added by the printer.
//! - CODE128 (m=73): n=2..=255; d1=`{`, d2=`A`/`B`/`C`. A literal `{` is sent
//!   as `{{`. This encoder accepts A = 00h..=5Fh, B = 20h..=7Fh, C = even
//!   ASCII digit pairs. B escapes plain data so `{1` cannot inject FNC1.
//! - `GS w` on TM-T20III: n = 2..=6.

use vstd::prelude::*;

use crate::bytes::{all_ascii, all_digits, ascii_only, bytes_result, digits_only, is_digit, push_slice, push_vec, utf8};
use crate::error::EncodeError;

verus! {

#[derive(Debug, Clone, Copy, PartialEq, Eq, Structural)]
pub enum BarcodeKind {
    UpcA,
    UpcE,
    Ean13,
    Ean8,
    Code39,
    Itf,
    Codabar,
    Code93,
    Code128 { set: Code128Set },
    Gs1_128,
}

/// CODE128 code set. Encoded as `{A` / `{B` / `{C` ahead of the payload.
#[derive(Debug, Clone, Copy, PartialEq, Eq, Structural)]
pub enum Code128Set {
    A,
    B,
    C,
}

impl Code128Set {
    pub open spec fn spec_prefix(self) -> Seq<u8> {
        match self {
            Code128Set::A => seq![0x7bu8, 0x41u8],
            Code128Set::B => seq![0x7bu8, 0x42u8],
            Code128Set::C => seq![0x7bu8, 0x43u8],
        }
    }

    fn prefix(self) -> (p: Vec<u8>)
        ensures
            p@ == self.spec_prefix(),
    {
        match self {
            Code128Set::A => vec![0x7b, 0x41],
            Code128Set::B => vec![0x7b, 0x42],
            Code128Set::C => vec![0x7b, 0x43],
        }
    }
}

impl BarcodeKind {
    /// Function B `m` byte.
    pub open spec fn spec_function_b_byte(self) -> u8 {
        match self {
            BarcodeKind::UpcA => 0x41,
            BarcodeKind::UpcE => 0x42,
            BarcodeKind::Ean13 => 0x43,
            BarcodeKind::Ean8 => 0x44,
            BarcodeKind::Code39 => 0x45,
            BarcodeKind::Itf => 0x46,
            BarcodeKind::Codabar => 0x47,
            BarcodeKind::Code93 => 0x48,
            BarcodeKind::Code128 { .. } => 0x49,
            BarcodeKind::Gs1_128 => 0x4a,
        }
    }

    fn function_b_byte(self) -> (b: u8)
        ensures
            b == self.spec_function_b_byte(),
    {
        match self {
            BarcodeKind::UpcA => 0x41,
            BarcodeKind::UpcE => 0x42,
            BarcodeKind::Ean13 => 0x43,
            BarcodeKind::Ean8 => 0x44,
            BarcodeKind::Code39 => 0x45,
            BarcodeKind::Itf => 0x46,
            BarcodeKind::Codabar => 0x47,
            BarcodeKind::Code93 => 0x48,
            BarcodeKind::Code128 { .. } => 0x49,
            BarcodeKind::Gs1_128 => 0x4a,
        }
    }
}

#[derive(Debug, Clone, Copy, PartialEq, Eq, Structural)]
pub enum BarcodeFont {
    A,
    B,
    C,
    D,
    E,
}

impl BarcodeFont {
    pub open spec fn spec_byte(self) -> u8 {
        match self {
            BarcodeFont::A => 0,
            BarcodeFont::B => 1,
            BarcodeFont::C => 2,
            BarcodeFont::D => 3,
            BarcodeFont::E => 4,
        }
    }

    fn byte(self) -> (b: u8)
        ensures
            b == self.spec_byte(),
    {
        match self {
            BarcodeFont::A => 0,
            BarcodeFont::B => 1,
            BarcodeFont::C => 2,
            BarcodeFont::D => 3,
            BarcodeFont::E => 4,
        }
    }
}

#[derive(Debug, Clone, Copy, PartialEq, Eq, Structural)]
pub enum HriPosition {
    Off,
    Above,
    Below,
    Both,
}

impl HriPosition {
    pub open spec fn spec_byte(self) -> u8 {
        match self {
            HriPosition::Off => 0,
            HriPosition::Above => 1,
            HriPosition::Below => 2,
            HriPosition::Both => 3,
        }
    }

    fn byte(self) -> (b: u8)
        ensures
            b == self.spec_byte(),
    {
        match self {
            HriPosition::Off => 0,
            HriPosition::Above => 1,
            HriPosition::Below => 2,
            HriPosition::Both => 3,
        }
    }
}

#[derive(Debug, Clone, Copy, PartialEq, Eq, Structural)]
pub struct BarcodeOptions {
    pub width: u8,
    pub height: u8,
    pub font: BarcodeFont,
    pub hri_position: HriPosition,
}

impl Default for BarcodeOptions {
    fn default() -> (o: Self)
        ensures
            o == (BarcodeOptions {
                width: 3,
                height: 102,
                font: BarcodeFont::A,
                hri_position: HriPosition::Below,
            }),
    {
        BarcodeOptions { width: 3, height: 102, font: BarcodeFont::A, hri_position: HriPosition::Below }
    }
}

#[derive(Debug, Clone, PartialEq, Eq)]
pub struct Barcode {
    pub kind: BarcodeKind,
    pub data: String,
    pub options: BarcodeOptions,
}

/// Encoded function B payload. This is the only input to emission.
struct ValidatedBarcode {
    kind: BarcodeKind,
    payload: Vec<u8>,
    options: BarcodeOptions,
}

// ---------------------------------------------------------------------------
// Specification of admission.

/// CODE39 data characters: `0-9 $ % * + - . / A-Z` and space.
pub open spec fn is_code39_byte(b: u8) -> bool {
    is_digit(b) || (0x41 <= b <= 0x5a) || b == 0x20 || b == 0x24 || b == 0x25 || b == 0x2a
        || b == 0x2b || b == 0x2d || b == 0x2e || b == 0x2f
}

/// CODE93 data characters: `0-9 A-Z` space and `$ % + - . /`.
pub open spec fn is_code93_byte(b: u8) -> bool {
    is_digit(b) || (0x41 <= b <= 0x5a) || b == 0x20 || b == 0x24 || b == 0x25 || b == 0x2b
        || b == 0x2d || b == 0x2e || b == 0x2f
}

/// CODABAR start/stop characters `A-D` / `a-d`.
pub open spec fn is_codabar_stop_byte(b: u8) -> bool {
    (0x41 <= b <= 0x44) || (0x61 <= b <= 0x64)
}

/// CODABAR interior characters `0-9 $ + - . / :`.
pub open spec fn is_codabar_body_byte(b: u8) -> bool {
    is_digit(b) || b == 0x24 || b == 0x2b || b == 0x2d || b == 0x2e || b == 0x2f || b == 0x3a
}

pub open spec fn all_code39(s: Seq<u8>) -> bool {
    forall|i: int| 0 <= i < s.len() ==> is_code39_byte(#[trigger] s[i])
}

pub open spec fn all_code93(s: Seq<u8>) -> bool {
    forall|i: int| 0 <= i < s.len() ==> is_code93_byte(#[trigger] s[i])
}

/// Set B escaping: every `{` becomes `{{`.
pub open spec fn escape_braces(d: Seq<u8>) -> Seq<u8>
    decreases d.len(),
{
    if d.len() == 0 {
        Seq::empty()
    } else {
        escape_braces(d.drop_last()) + (if d.last() == 0x7b {
            seq![0x7bu8, 0x7bu8]
        } else {
            seq![d.last()]
        })
    }
}

/// The characters a CODE128 code set admits.
pub open spec fn code128_admits(set: Code128Set, d: Seq<u8>) -> bool {
    match set {
        Code128Set::C => d.len() % 2 == 0 && all_digits(d),
        Code128Set::A => forall|i: int| 0 <= i < d.len() ==> #[trigger] d[i] <= 0x5f,
        Code128Set::B => forall|i: int| 0 <= i < d.len() ==> 0x20 <= #[trigger] d[i] <= 0x7f,
    }
}

pub open spec fn code128_body(set: Code128Set, d: Seq<u8>) -> Seq<u8> {
    match set {
        Code128Set::B => escape_braces(d),
        _ => d,
    }
}

pub open spec fn spec_code128(set: Code128Set, d: Seq<u8>) -> Result<Seq<u8>, EncodeError> {
    let kind = BarcodeKind::Code128 { set };
    if d.len() == 0 || !all_ascii(d) || !code128_admits(set, d) {
        Err(EncodeError::BarcodeData { kind })
    } else {
        let out = set.spec_prefix() + code128_body(set, d);
        if 2 <= out.len() <= 255 {
            Ok(out)
        } else {
            Err(EncodeError::BarcodeTooLong { len: out.len() as usize })
        }
    }
}

pub open spec fn spec_codabar(d: Seq<u8>) -> Result<Seq<u8>, EncodeError> {
    if all_ascii(d) && 2 <= d.len() <= 255 && is_codabar_stop_byte(d[0])
        && is_codabar_stop_byte(d.last()) && (forall|i: int|
        1 <= i < d.len() - 1 ==> is_codabar_body_byte(#[trigger] d[i])) {
        Ok(d)
    } else {
        Err(EncodeError::BarcodeData { kind: BarcodeKind::Codabar })
    }
}

/// Whether the fixed-alphabet symbologies admit `d` unchanged.
pub open spec fn plain_admits(kind: BarcodeKind, d: Seq<u8>) -> bool {
    let digits = d.len() > 0 && all_digits(d);
    match kind {
        BarcodeKind::UpcA => digits && (d.len() == 11 || d.len() == 12),
        BarcodeKind::UpcE => digits && (d.len() == 6 || d.len() == 7 || d.len() == 8 || d.len()
            == 11 || d.len() == 12) && (d.len() == 6 || d[0] == 0x30),
        BarcodeKind::Ean13 => digits && (d.len() == 12 || d.len() == 13),
        BarcodeKind::Ean8 => digits && (d.len() == 7 || d.len() == 8),
        BarcodeKind::Itf => digits && 2 <= d.len() <= 254 && d.len() % 2 == 0,
        BarcodeKind::Code39 => 1 <= d.len() <= 255 && all_ascii(d) && all_code39(d),
        BarcodeKind::Code93 => 1 <= d.len() <= 255 && all_ascii(d) && all_code93(d),
        BarcodeKind::Gs1_128 => 2 <= d.len() <= 255 && all_ascii(d),
        _ => false,
    }
}

/// The function B payload for `kind`, or why `d` is not one.
pub open spec fn spec_payload(kind: BarcodeKind, d: Seq<u8>) -> Result<Seq<u8>, EncodeError> {
    match kind {
        BarcodeKind::Code128 { set } => spec_code128(set, d),
        BarcodeKind::Codabar => spec_codabar(d),
        _ => if plain_admits(kind, d) {
            Ok(d)
        } else {
            Err(EncodeError::BarcodeData { kind })
        },
    }
}

/// TM-T20III option admission: HRI font A/B, module width 2..=6, nonzero height.
pub open spec fn spec_admit_options(o: BarcodeOptions) -> Result<BarcodeOptions, EncodeError> {
    if !(o.font == BarcodeFont::A || o.font == BarcodeFont::B) {
        Err(EncodeError::HriFont(o.font.spec_byte()))
    } else if !(2 <= o.width <= 6) {
        Err(EncodeError::BarcodeWidth(o.width))
    } else if o.height == 0 {
        Err(EncodeError::BarcodeHeight(o.height))
    } else {
        Ok(o)
    }
}

/// The complete `GS w`, `GS h`, `GS f`, `GS H`, `GS k` byte stream.
pub open spec fn spec_barcode_bytes(kind: BarcodeKind, data: Seq<u8>, o: BarcodeOptions) -> Result<Seq<u8>, EncodeError> {
    match spec_payload(kind, data) {
        Err(e) => Err(e),
        Ok(p) => match spec_admit_options(o) {
            Err(e) => Err(e),
            Ok(o) => Ok(seq![0x1du8, 0x77u8, o.width, 0x1du8, 0x68u8, o.height, 0x1du8, 0x66u8,
                o.font.spec_byte(), 0x1du8, 0x48u8, o.hri_position.spec_byte(), 0x1du8, 0x6bu8,
                kind.spec_function_b_byte(), p.len() as u8] + p),
        },
    }
}

pub open spec fn spec_encode(b: Barcode) -> Result<Seq<u8>, EncodeError> {
    spec_barcode_bytes(b.kind, utf8(b.data@), b.options)
}

/// The ESC/POS symbology code of a barcode kind in `GS k` function B: 'A'
/// (UPC-A) through 'J' (GS1-128), in the order the command reference lists
/// them.
pub open spec fn symbology_code(kind: BarcodeKind) -> u8 {
    match kind {
        BarcodeKind::UpcA => 0x41u8,
        BarcodeKind::UpcE => 0x42u8,
        BarcodeKind::Ean13 => 0x43u8,
        BarcodeKind::Ean8 => 0x44u8,
        BarcodeKind::Code39 => 0x45u8,
        BarcodeKind::Itf => 0x46u8,
        BarcodeKind::Codabar => 0x47u8,
        BarcodeKind::Code93 => 0x48u8,
        BarcodeKind::Code128 { .. } => 0x49u8,
        BarcodeKind::Gs1_128 => 0x4au8,
    }
}

/// The bytes of a barcode select its symbology: after the settings comes
/// `GS k` with the kind's symbology code, then the payload length and the
/// payload; two kinds with the same code are the same symbology.
pub proof fn lemma_barcode_selects_symbology(b: Barcode, other: BarcodeKind)
    ensures
        spec_encode(b) matches Ok(bytes) ==> bytes.len() >= 16 && bytes[12] == 0x1du8 && bytes[13]
            == 0x6bu8 && bytes[14] == symbology_code(b.kind) && bytes[15] == bytes.len() - 16,
        b.kind.spec_function_b_byte() == other.spec_function_b_byte() ==> (b.kind == other || (
        b.kind is Code128 && other is Code128)),
{
    match spec_payload(b.kind, utf8(b.data@)) {
        Ok(p) => {
            assert(p.len() <= 255);
        },
        Err(_) => {},
    }
}

// ---------------------------------------------------------------------------
// Implementation.

proof fn lemma_escape_len(d: Seq<u8>)
    ensures
        escape_braces(d).len() >= d.len(),
        escape_braces(d).len() <= 2 * d.len(),
    decreases d.len(),
{
    if d.len() > 0 {
        lemma_escape_len(d.drop_last());
    }
}

fn is_digits(data: &[u8]) -> (r: bool)
    ensures
        r == (data@.len() > 0 && all_digits(data@)),
{
    data.len() > 0 && digits_only(data)
}

fn encode_code128(set: Code128Set, data: &[u8]) -> (r: Result<Vec<u8>, EncodeError>)
    ensures
        bytes_result(r) == spec_code128(set, data@),
{
    let kind = BarcodeKind::Code128 { set };
    if data.len() == 0 || !ascii_only(data) {
        return Err(EncodeError::BarcodeData { kind });
    }
    let mut body: Vec<u8> = Vec::new();
    match set {
        Code128Set::C => {
            if data.len() % 2 != 0 || !digits_only(data) {
                return Err(EncodeError::BarcodeData { kind });
            }
            push_slice(&mut body, data);
        },
        Code128Set::A => {
            let mut i: usize = 0;
            while i < data.len()
                invariant
                    i <= data.len(),
                    body@ == data@.take(i as int),
                    data@.len() > 0,
                    all_ascii(data@),
                    set == Code128Set::A,
                    kind == (BarcodeKind::Code128 { set }),
                    forall|j: int| 0 <= j < i ==> #[trigger] data@[j] <= 0x5f,
                decreases data.len() - i,
            {
                let b = data[i];
                if b > 0x5f {
                    assert(!(data@[i as int] <= 0x5f));
                    return Err(EncodeError::BarcodeData { kind });
                }
                body.push(b);
                i = i + 1;
                assert(data@.take(i as int) == data@.take(i - 1).push(b));
            }
            assert(data@.take(data.len() as int) == data@);
        },
        Code128Set::B => {
            let mut i: usize = 0;
            while i < data.len()
                invariant
                    i <= data.len(),
                    body@ == escape_braces(data@.take(i as int)),
                    data@.len() > 0,
                    all_ascii(data@),
                    set == Code128Set::B,
                    kind == (BarcodeKind::Code128 { set }),
                    forall|j: int| 0 <= j < i ==> 0x20 <= #[trigger] data@[j] <= 0x7f,
                decreases data.len() - i,
            {
                let b = data[i];
                if !(0x20 <= b && b <= 0x7f) {
                    assert(!(0x20 <= data@[i as int] <= 0x7f));
                    return Err(EncodeError::BarcodeData { kind });
                }
                if b == 0x7b {
                    body.push(0x7b);
                    body.push(0x7b);
                } else {
                    body.push(b);
                }
                i = i + 1;
                assert(data@.take(i as int).drop_last() == data@.take(i - 1));
            }
            assert(data@.take(data.len() as int) == data@);
        },
    }
    let mut out = set.prefix();
    push_vec(&mut out, body);
    if out.len() < 2 || out.len() > 255 {
        return Err(EncodeError::BarcodeTooLong { len: out.len() });
    }
    Ok(out)
}

fn is_codabar_stop(b: u8) -> (r: bool)
    ensures
        r == is_codabar_stop_byte(b),
{
    (0x41 <= b && b <= 0x44) || (0x61 <= b && b <= 0x64)
}

fn is_codabar_body(b: u8) -> (r: bool)
    ensures
        r == is_codabar_body_byte(b),
{
    (0x30 <= b && b <= 0x39) || b == 0x24 || b == 0x2b || b == 0x2d || b == 0x2e || b == 0x2f
        || b == 0x3a
}

fn encode_codabar(data: &[u8]) -> (r: Result<Vec<u8>, EncodeError>)
    ensures
        bytes_result(r) == spec_codabar(data@),
{
    let kind = BarcodeKind::Codabar;
    if !ascii_only(data) {
        return Err(EncodeError::BarcodeData { kind });
    }
    if data.len() < 2 || data.len() > 255 {
        return Err(EncodeError::BarcodeData { kind });
    }
    let first = data[0];
    let last = data[data.len() - 1];
    if !is_codabar_stop(first) || !is_codabar_stop(last) {
        return Err(EncodeError::BarcodeData { kind });
    }
    let mut i: usize = 1;
    while i < data.len() - 1
        invariant
            1 <= i <= data.len() - 1,
            2 <= data.len() <= 255,
            all_ascii(data@),
            is_codabar_stop_byte(data@[0]),
            is_codabar_stop_byte(data@.last()),
            kind == BarcodeKind::Codabar,
            forall|j: int| 1 <= j < i ==> is_codabar_body_byte(#[trigger] data@[j]),
        decreases data.len() - i,
    {
        if !is_codabar_body(data[i]) {
            assert(!is_codabar_body_byte(data@[i as int]));
            return Err(EncodeError::BarcodeData { kind });
        }
        i = i + 1;
    }
    let mut out: Vec<u8> = Vec::new();
    push_slice(&mut out, data);
    assert(out@ == data@);
    Ok(out)
}

fn is_code39(b: u8) -> (r: bool)
    ensures
        r == is_code39_byte(b),
{
    (0x30 <= b && b <= 0x39) || (0x41 <= b && b <= 0x5a) || b == 0x20 || b == 0x24 || b == 0x25
        || b == 0x2a || b == 0x2b || b == 0x2d || b == 0x2e || b == 0x2f
}

fn is_code93(b: u8) -> (r: bool)
    ensures
        r == is_code93_byte(b),
{
    (0x30 <= b && b <= 0x39) || (0x41 <= b && b <= 0x5a) || b == 0x20 || b == 0x24 || b == 0x25
        || b == 0x2b || b == 0x2d || b == 0x2e || b == 0x2f
}

/// `true` when every byte belongs to the CODE39 (or, with `code93`, CODE93) alphabet.
fn in_alphabet(data: &[u8], code93: bool) -> (r: bool)
    ensures
        r == (if code93 { all_code93(data@) } else { all_code39(data@) }),
{
    let mut i: usize = 0;
    while i < data.len()
        invariant
            i <= data.len(),
            code93 ==> forall|j: int| 0 <= j < i ==> is_code93_byte(#[trigger] data@[j]),
            !code93 ==> forall|j: int| 0 <= j < i ==> is_code39_byte(#[trigger] data@[j]),
        decreases data.len() - i,
    {
        let ok = if code93 { is_code93(data[i]) } else { is_code39(data[i]) };
        if !ok {
            return false;
        }
        i = i + 1;
    }
    true
}

fn plain_admitted(kind: BarcodeKind, data: &[u8]) -> (r: bool)
    ensures
        r == plain_admits(kind, data@),
{
    let n = data.len();
    match kind {
        BarcodeKind::UpcA => is_digits(data) && (n == 11 || n == 12),
        BarcodeKind::UpcE => is_digits(data) && (n == 6 || n == 7 || n == 8 || n == 11 || n == 12)
            && (n == 6 || data[0] == 0x30),
        BarcodeKind::Ean13 => is_digits(data) && (n == 12 || n == 13),
        BarcodeKind::Ean8 => is_digits(data) && (n == 7 || n == 8),
        BarcodeKind::Itf => is_digits(data) && 2 <= n && n <= 254 && n % 2 == 0,
        BarcodeKind::Code39 => 1 <= n && n <= 255 && ascii_only(data) && in_alphabet(data, false),
        BarcodeKind::Code93 => 1 <= n && n <= 255 && ascii_only(data) && in_alphabet(data, true),
        BarcodeKind::Gs1_128 => 2 <= n && n <= 255 && ascii_only(data),
        _ => false,
    }
}

fn encoded_payload(kind: BarcodeKind, data: &[u8]) -> (r: Result<Vec<u8>, EncodeError>)
    ensures
        bytes_result(r) == spec_payload(kind, data@),
{
    match kind {
        BarcodeKind::Code128 { set } => return encode_code128(set, data),
        BarcodeKind::Codabar => return encode_codabar(data),
        _ => {},
    }
    if !plain_admitted(kind, data) {
        return Err(EncodeError::BarcodeData { kind });
    }
    let n = data.len();
    if n > 255 {
        return Err(EncodeError::BarcodeTooLong { len: n });
    }
    let mut out: Vec<u8> = Vec::new();
    push_slice(&mut out, data);
    assert(out@ == data@);
    Ok(out)
}

fn admit_options(options: BarcodeOptions) -> (r: Result<BarcodeOptions, EncodeError>)
    ensures
        r == spec_admit_options(options),
{
    // TM-T20III `GS f` permits only fonts A and B.
    match options.font {
        BarcodeFont::A | BarcodeFont::B => {},
        _ => return Err(EncodeError::HriFont(options.font.byte())),
    }
    if options.width < 2 || options.width > 6 {
        return Err(EncodeError::BarcodeWidth(options.width));
    }
    if options.height == 0 {
        return Err(EncodeError::BarcodeHeight(options.height));
    }
    Ok(options)
}

fn accept(barcode: &Barcode) -> (r: Result<ValidatedBarcode, EncodeError>)
    ensures
        match r {
            Ok(v) => spec_payload(barcode.kind, utf8(barcode.data@)) == Ok::<Seq<u8>, EncodeError>(v.payload@)
                && spec_admit_options(barcode.options) == Ok::<BarcodeOptions, EncodeError>(v.options)
                && v.kind == barcode.kind,
            Err(e) => match spec_payload(barcode.kind, utf8(barcode.data@)) {
                Err(pe) => e == pe,
                Ok(_) => spec_admit_options(barcode.options) == Err::<BarcodeOptions, EncodeError>(e),
            },
        },
{
    let payload = encoded_payload(barcode.kind, barcode.data.as_str().as_bytes())?;
    let options = admit_options(barcode.options)?;
    Ok(ValidatedBarcode { kind: barcode.kind, payload, options })
}

/// Admit `data` as a `kind` payload without producing bytes.
pub fn validate(kind: BarcodeKind, data: &str) -> (r: Result<(), EncodeError>)
    ensures
        match spec_payload(kind, utf8(data@)) {
            Ok(_) => r == Ok::<(), EncodeError>(()),
            Err(e) => r == Err::<(), EncodeError>(e),
        },
{
    match encoded_payload(kind, data.as_bytes()) {
        Ok(_) => Ok(()),
        Err(e) => Err(e),
    }
}

/// The `GS w` / `GS h` / `GS f` / `GS H` / `GS k` bytes for one barcode.
pub fn encode(barcode: &Barcode) -> (r: Result<Vec<u8>, EncodeError>)
    ensures
        bytes_result(r) == spec_encode(*barcode),
{
    let checked = accept(barcode)?;
    let n = checked.payload.len();
    proof {
        match barcode.kind {
            BarcodeKind::Code128 { set } => {},
            _ => {},
        }
    }
    let mut out: Vec<u8> = Vec::new();
    out.push(0x1d);
    out.push(0x77);
    out.push(checked.options.width);
    out.push(0x1d);
    out.push(0x68);
    out.push(checked.options.height);
    out.push(0x1d);
    out.push(0x66);
    out.push(checked.options.font.byte());
    out.push(0x1d);
    out.push(0x48);
    out.push(checked.options.hri_position.byte());
    out.push(0x1d);
    out.push(0x6b);
    out.push(checked.kind.function_b_byte());
    out.push(n as u8);
    assert(out@ =~= seq![0x1du8, 0x77u8, checked.options.width, 0x1du8, 0x68u8, checked.options.height, 0x1du8, 0x66u8,
        checked.options.font.spec_byte(), 0x1du8, 0x48u8, checked.options.hri_position.spec_byte(), 0x1du8, 0x6bu8,
        checked.kind.spec_function_b_byte(), n as u8]);
    push_vec(&mut out, checked.payload);
    Ok(out)
}

} // verus!
