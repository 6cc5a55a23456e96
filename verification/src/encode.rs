//! `encode` is a function. A valid command list becomes bytes; illegal
//! combinations are errors.

use vstd::prelude::*;

use crate::barcode;
use crate::bytes::{bytes_result, push_slice, push_vec};
use crate::command::{
    Align, CashDrawerPin, Command, CutKind, Font, LineSpacing, PrintSpeed, Underline,
};
use crate::cp437::{encode_cp437, spec_cp437};
use crate::document::Document;
use crate::error::EncodeError;
use crate::graphics;
use crate::status;
use crate::symbol;

verus! {

pub const ESC: u8 = 0x1b;
pub const GS: u8 = 0x1d;
pub const HT: u8 = 0x09;
pub const CAN: u8 = 0x18;
pub const DRAWER_T1: u8 = 0x19;
pub const DRAWER_T2: u8 = 0x78;

pub open spec fn lo(n: u16) -> u8 {
    (n % 256) as u8
}

pub open spec fn hi(n: u16) -> u8 {
    (n / 256) as u8
}

pub open spec fn flag(on: bool) -> u8 {
    if on {
        1
    } else {
        0
    }
}

/// The bytes of one command, or why it has none.
#[verifier::opaque]
pub open spec fn spec_command_bytes(cmd: Command) -> Result<Seq<u8>, EncodeError> {
    match cmd {
        Command::Init => Ok(seq![ESC, 0x40u8]),
        Command::Cancel => Ok(seq![CAN]),
        Command::Cut { kind } => Ok(
            match kind {
                CutKind::Full => seq![GS, 0x56u8, 0x41u8, 0u8],
                CutKind::Partial => seq![GS, 0x56u8, 0x42u8, 0u8],
            },
        ),
        Command::Feed { lines } => Ok(Seq::new(lines as nat, |i: int| 0x0au8)),
        Command::FeedDots { dots } => Ok(seq![ESC, 0x4au8, dots]),
        Command::CharSpacing { dots } => Ok(seq![ESC, 0x20u8, dots]),
        Command::AbsolutePosition { dots } => Ok(seq![ESC, 0x24u8, lo(dots), hi(dots)]),
        Command::RelativePosition { dots } => Ok(
            seq![ESC, 0x5cu8, lo(dots as u16), hi(dots as u16)],
        ),
        Command::HorizontalTab => Ok(seq![HT]),
        Command::SetTabs(stops) => Ok(seq![ESC, 0x44u8] + stops@ + seq![0u8]),
        Command::LeftMargin { dots } => Ok(seq![GS, 0x4cu8, lo(dots), hi(dots)]),
        Command::PrintAreaWidth { dots } => Ok(seq![GS, 0x57u8, lo(dots), hi(dots)]),
        Command::PrintSpeed(speed) => match speed {
            PrintSpeed::Default => Ok(seq![GS, 0x28u8, 0x4bu8, 2u8, 0u8, 50u8, 0u8]),
            PrintSpeed::Level(n) => if 1 <= n <= 13 {
                Ok(seq![GS, 0x28u8, 0x4bu8, 2u8, 0u8, 50u8, n])
            } else {
                Err(EncodeError::PrintSpeed(n))
            },
        },
        Command::LineSpacing(LineSpacing::Default) => Ok(seq![ESC, 0x32u8]),
        Command::LineSpacing(LineSpacing::Dots(n)) => Ok(seq![ESC, 0x33u8, n]),
        Command::Align(a) => Ok(
            seq![ESC, 0x61u8, match a {
                Align::Left => 0u8,
                Align::Center => 1u8,
                Align::Right => 2u8,
            }],
        ),
        Command::Font(f) => Ok(
            seq![ESC, 0x4du8, match f {
                Font::A => 0u8,
                Font::B => 1u8,
            }],
        ),
        Command::Bold(on) => Ok(seq![ESC, 0x45u8, flag(on)]),
        Command::Underline(u) => Ok(
            seq![ESC, 0x2du8, match u {
                Underline::Off => 0u8,
                Underline::Single => 1u8,
                Underline::Double => 2u8,
            }],
        ),
        Command::DoubleStrike(on) => Ok(seq![ESC, 0x47u8, flag(on)]),
        Command::Invert(on) => Ok(seq![GS, 0x42u8, flag(on)]),
        Command::UpsideDown(on) => Ok(seq![ESC, 0x7bu8, flag(on)]),
        Command::Rotate90(on) => Ok(seq![ESC, 0x56u8, flag(on)]),
        Command::Size { width, height } => if 1 <= width <= 8 && 1 <= height <= 8 {
            Ok(seq![GS, 0x21u8, ((((width - 1) as u8) << 4u8) | ((height - 1) as u8)) as u8])
        } else {
            Err(EncodeError::Size { width, height })
        },
        Command::Smoothing(on) => Ok(seq![GS, 0x62u8, flag(on)]),
        Command::CodePage(page) => Ok(seq![ESC, 0x74u8, page.spec_byte()]),
        Command::CharacterSet(n) => Ok(seq![ESC, 0x52u8, n]),
        Command::Text(s) => Ok(spec_cp437(s@)),
        Command::Raw(bytes) => Ok(bytes@),
        Command::MotionUnits { x, y } => Ok(seq![GS, 0x50u8, x, y]),
        Command::CashDrawer(pin) => Ok(
            seq![ESC, 0x70u8, match pin {
                CashDrawerPin::Pin2 => 0u8,
                CashDrawerPin::Pin5 => 1u8,
            }, DRAWER_T1, DRAWER_T2],
        ),
        Command::Barcode(b) => barcode::spec_encode(b),
        Command::Qr(q) => symbol::qr::spec_encode_qr(q),
        Command::Pdf417(p) => symbol::pdf417::spec_encode_pdf417(p),
        Command::Gs1DataBar(g) => symbol::gs1::spec_encode_gs1(g),
        Command::MaxiCode(m) => symbol::maxicode::spec_encode_maxi(m),
        Command::DataMatrix(d) => symbol::datamatrix::spec_encode_data_matrix(d),
        Command::Graphics(g) => Ok(graphics::spec_graphics_bytes(g)),
        Command::StatusRequest(r) => Ok(status::spec_request_bytes(r)),
    }
}

/// The bytes of a command list: each command's bytes in order, or the first
/// command's error.
pub open spec fn spec_encode_commands(cmds: Seq<Command>) -> Result<Seq<u8>, EncodeError>
    decreases cmds.len(),
{
    if cmds.len() == 0 {
        Ok(Seq::empty())
    } else {
        match spec_encode_commands(cmds.drop_last()) {
            Err(e) => Err(e),
            Ok(head) => match spec_command_bytes(cmds.last()) {
                Err(e) => Err(e),
                Ok(tail) => Ok(head + tail),
            },
        }
    }
}

/// Joining two encodings: the first error wins, otherwise the bytes concatenate.
pub open spec fn join(a: Result<Seq<u8>, EncodeError>, b: Result<Seq<u8>, EncodeError>) -> Result<Seq<u8>, EncodeError> {
    match a {
        Err(e) => Err(e),
        Ok(x) => match b {
            Err(e) => Err(e),
            Ok(y) => Ok(x + y),
        },
    }
}

/// Encoding is a homomorphism from command concatenation to byte concatenation:
/// the bytes of `a ++ b` are the bytes of `a` followed by the bytes of `b`, and
/// the first failing command decides the error.
pub proof fn lemma_encode_concat(a: Seq<Command>, b: Seq<Command>)
    ensures
        spec_encode_commands(a + b) == join(spec_encode_commands(a), spec_encode_commands(b)),
    decreases b.len(),
{
    if b.len() == 0 {
        assert(a + b =~= a);
        match spec_encode_commands(a) {
            Ok(x) => assert(x + Seq::<u8>::empty() =~= x),
            Err(_) => {},
        }
    } else {
        lemma_encode_concat(a, b.drop_last());
        assert((a + b).drop_last() =~= a + b.drop_last());
        assert((a + b).last() == b.last());
        match spec_encode_commands(a) {
            Ok(x) => match spec_encode_commands(b.drop_last()) {
                Ok(y) => match spec_command_bytes(b.last()) {
                    Ok(z) => assert(x + y + z =~= x + (y + z)),
                    Err(_) => {},
                },
                Err(_) => {},
            },
            Err(_) => {},
        }
    }
}

/// Every command of `cmds` has bytes.
pub open spec fn all_encode(cmds: Seq<Command>) -> bool {
    forall|i: int| 0 <= i < cmds.len() ==> (#[trigger] spec_command_bytes(cmds[i])) is Ok
}

/// A command list encodes when each of its commands does.
pub proof fn lemma_all_encode(cmds: Seq<Command>)
    requires
        all_encode(cmds),
    ensures
        spec_encode_commands(cmds) is Ok,
    decreases cmds.len(),
{
    if cmds.len() > 0 {
        let p = cmds.drop_last();
        assert forall|i: int| 0 <= i < p.len() implies (#[trigger] spec_command_bytes(p[i])) is Ok by {
            assert(p[i] == cmds[i]);
        }
        lemma_all_encode(p);
        assert(spec_command_bytes(cmds[cmds.len() - 1]) is Ok);
    }
}

/// A single command encodes as itself in a one-command document.
pub proof fn lemma_encode_single(c: Command)
    ensures
        spec_encode_commands(seq![c]) == spec_command_bytes(c),
{
    assert(seq![c].drop_last() =~= Seq::<Command>::empty());
    assert(seq![c].last() == c);
    assert(spec_encode_commands(seq![c].drop_last()) == Ok::<Seq<u8>, EncodeError>(Seq::empty()));
    match spec_command_bytes(c) {
        Ok(x) => assert(Seq::<u8>::empty() + x =~= x),
        Err(_) => {},
    }
}

/// Lower every command of `doc` to printer bytes.
pub fn encode(doc: &Document) -> (r: Result<Vec<u8>, EncodeError>)
    ensures
        bytes_result(r) == spec_encode_commands(doc@),
{
    let cmds = doc.commands();
    let mut out: Vec<u8> = Vec::new();
    let mut i: usize = 0;
    while i < cmds.len()
        invariant
            cmds@ == doc@,
            i <= cmds@.len(),
            spec_encode_commands(cmds@.take(i as int)) == Ok::<Seq<u8>, EncodeError>(out@),
        decreases cmds.len() - i,
    {
        let ghost before = out@;
        assert(cmds@.take(i + 1).drop_last() =~= cmds@.take(i as int));
        match encode_one(&cmds[i], &mut out) {
            Ok(()) => {},
            Err(e) => {
                proof {
                    assert(spec_encode_commands(cmds@.take(i + 1)) == Err::<Seq<u8>, EncodeError>(e));
                    lemma_encode_prefix_error(cmds@, i as int + 1, e);
                }
                return Err(e);
            },
        }
        i = i + 1;
    }
    assert(cmds@.take(cmds.len() as int) =~= cmds@);
    Ok(out)
}

/// An error in a prefix is the error of the whole list.
proof fn lemma_encode_prefix_error(cmds: Seq<Command>, n: int, e: EncodeError)
    requires
        0 <= n <= cmds.len(),
        spec_encode_commands(cmds.take(n)) == Err::<Seq<u8>, EncodeError>(e),
    ensures
        spec_encode_commands(cmds) == Err::<Seq<u8>, EncodeError>(e),
{
    lemma_encode_concat(cmds.take(n), cmds.skip(n));
    assert(cmds.take(n) + cmds.skip(n) =~= cmds);
}

/// Two little-endian bytes of `n`.
pub fn u16_le(n: u16) -> (b: (u8, u8))
    ensures
        b == (lo(n), hi(n)),
{
    ((n % 256) as u8, (n / 256) as u8)
}

fn push3(out: &mut Vec<u8>, a: u8, b: u8, c: u8)
    ensures
        final(out)@ == old(out)@ + seq![a, b, c],
{
    out.push(a);
    out.push(b);
    out.push(c);
    assert(final(out)@ =~= old(out)@ + seq![a, b, c]);
}

fn push4(out: &mut Vec<u8>, a: u8, b: u8, c: u8, d: u8)
    ensures
        final(out)@ == old(out)@ + seq![a, b, c, d],
{
    out.push(a);
    out.push(b);
    out.push(c);
    out.push(d);
    assert(final(out)@ =~= old(out)@ + seq![a, b, c, d]);
}

fn flag_byte(on: bool) -> (b: u8)
    ensures
        b == flag(on),
{
    if on {
        1
    } else {
        0
    }
}

/// Append one command's bytes to `out`; on error `out` is left as it was.
fn encode_one(cmd: &Command, out: &mut Vec<u8>) -> (r: Result<(), EncodeError>)
    ensures
        match spec_command_bytes(*cmd) {
            Ok(b) => r is Ok && final(out)@ == old(out)@ + b,
            Err(e) => r == Err::<(), EncodeError>(e) && final(out)@ == old(out)@,
        },
{
    reveal(spec_command_bytes);
    match cmd {
        Command::Init => {
            out.push(ESC);
            out.push(0x40);
            assert(out@ =~= old(out)@ + seq![ESC, 0x40u8]);
        },
        Command::Cancel => {
            out.push(CAN);
            assert(out@ =~= old(out)@ + seq![CAN]);
        },
        Command::Cut { kind } => match kind {
            CutKind::Full => push4(out, GS, 0x56, 0x41, 0),
            CutKind::Partial => push4(out, GS, 0x56, 0x42, 0),
        },
        Command::Feed { lines } => {
            let mut k: u8 = 0;
            while k < *lines
                invariant
                    k <= *lines,
                    out@ == old(out)@ + Seq::new(k as nat, |i: int| 0x0au8),
                decreases *lines - k,
            {
                out.push(0x0a);
                k = k + 1;
                assert(out@ =~= old(out)@ + Seq::new(k as nat, |i: int| 0x0au8));
            }
        },
        Command::FeedDots { dots } => push3(out, ESC, 0x4a, *dots),
        Command::CharSpacing { dots } => push3(out, ESC, 0x20, *dots),
        Command::AbsolutePosition { dots } => {
            let (l, h) = u16_le(*dots);
            push4(out, ESC, 0x24, l, h);
        },
        Command::RelativePosition { dots } => {
            let (l, h) = u16_le(*dots as u16);
            push4(out, ESC, 0x5c, l, h);
        },
        Command::HorizontalTab => {
            out.push(HT);
            assert(out@ =~= old(out)@ + seq![HT]);
        },
        Command::SetTabs(stops) => {
            out.push(ESC);
            out.push(0x44);
            push_slice(out, stops.as_slice());
            out.push(0);
            assert(out@ =~= old(out)@ + (seq![ESC, 0x44u8] + stops@ + seq![0u8]));
        },
        Command::LeftMargin { dots } => {
            let (l, h) = u16_le(*dots);
            push4(out, GS, 0x4c, l, h);
        },
        Command::PrintAreaWidth { dots } => {
            let (l, h) = u16_le(*dots);
            push4(out, GS, 0x57, l, h);
        },
        Command::PrintSpeed(speed) => {
            let m = match speed {
                PrintSpeed::Default => 0,
                PrintSpeed::Level(n) => {
                    if 1 <= *n && *n <= 13 {
                        *n
                    } else {
                        return Err(EncodeError::PrintSpeed(*n));
                    }
                },
            };
            push4(out, GS, 0x28, 0x4b, 2);
            push3(out, 0, 50, m);
            assert(out@ =~= old(out)@ + seq![GS, 0x28u8, 0x4bu8, 2u8, 0u8, 50u8, m]);
        },
        Command::LineSpacing(LineSpacing::Default) => {
            out.push(ESC);
            out.push(0x32);
            assert(out@ =~= old(out)@ + seq![ESC, 0x32u8]);
        },
        Command::LineSpacing(LineSpacing::Dots(n)) => push3(out, ESC, 0x33, *n),
        Command::Align(a) => {
            let n = match a {
                Align::Left => 0,
                Align::Center => 1,
                Align::Right => 2,
            };
            push3(out, ESC, 0x61, n);
        },
        Command::Font(font) => {
            let n = match font {
                Font::A => 0,
                Font::B => 1,
            };
            push3(out, ESC, 0x4d, n);
        },
        Command::Bold(on) => push3(out, ESC, 0x45, flag_byte(*on)),
        Command::Underline(u) => {
            let n = match u {
                Underline::Off => 0,
                Underline::Single => 1,
                Underline::Double => 2,
            };
            push3(out, ESC, 0x2d, n);
        },
        Command::DoubleStrike(on) => push3(out, ESC, 0x47, flag_byte(*on)),
        Command::Invert(on) => push3(out, GS, 0x42, flag_byte(*on)),
        Command::UpsideDown(on) => push3(out, ESC, 0x7b, flag_byte(*on)),
        Command::Rotate90(on) => push3(out, ESC, 0x56, flag_byte(*on)),
        Command::Size { width, height } => {
            if !(1 <= *width && *width <= 8) || !(1 <= *height && *height <= 8) {
                return Err(EncodeError::Size { width: *width, height: *height });
            }
            push3(out, GS, 0x21, ((*width - 1) << 4u8) | (*height - 1));
        },
        Command::Smoothing(on) => push3(out, GS, 0x62, flag_byte(*on)),
        Command::CodePage(page) => push3(out, ESC, 0x74, page.byte()),
        Command::CharacterSet(n) => push3(out, ESC, 0x52, *n),
        Command::Text(s) => push_vec(out, encode_cp437(s.as_str())),
        Command::Raw(bytes) => push_slice(out, bytes.as_slice()),
        Command::MotionUnits { x, y } => push4(out, GS, 0x50, *x, *y),
        Command::CashDrawer(pin) => {
            let m = match pin {
                CashDrawerPin::Pin2 => 0,
                CashDrawerPin::Pin5 => 1,
            };
            push3(out, ESC, 0x70, m);
            out.push(DRAWER_T1);
            out.push(DRAWER_T2);
            assert(out@ =~= old(out)@ + seq![ESC, 0x70u8, m, DRAWER_T1, DRAWER_T2]);
        },
        Command::Barcode(b) => push_vec(out, barcode::encode(b)?),
        Command::Qr(q) => push_vec(out, symbol::encode_qr(q)?),
        Command::Pdf417(p) => push_vec(out, symbol::encode_pdf417(p)?),
        Command::Gs1DataBar(g) => push_vec(out, symbol::encode_gs1(g)?),
        Command::MaxiCode(m) => push_vec(out, symbol::encode_maxi(m)?),
        Command::DataMatrix(d) => push_vec(out, symbol::encode_data_matrix(d)?),
        Command::Graphics(g) => push_vec(out, graphics::encode(g)?),
        Command::StatusRequest(req) => push_vec(out, status::encode_request(*req)),
    }
    Ok(())
}

} // verus!
