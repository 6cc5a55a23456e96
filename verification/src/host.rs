//! Host helpers that lower to [`crate::command::Command`].

use vstd::prelude::*;

use crate::barcode::{Barcode, BarcodeKind, BarcodeOptions};
use crate::command::{Align, CodePage, Command, CutKind, Font, LineSpacing};
use crate::document::Document;
use crate::symbol::{Qr, QrEcc, QrModel};
use crate::text::{append, decimal, digit_char, owned, push_char, push_decimal};
use crate::{COLS_A, COLS_B, ROW_DOTS_A};

verus! {

/// `c` prints the text `s`.
pub open spec fn text_is(c: Command, s: Seq<char>) -> bool {
    c matches Command::Text(t) && t@ == s
}

/// `n` copies of `c`.
pub open spec fn repeated(c: char, n: nat) -> Seq<char> {
    Seq::new(n, |i: int| c)
}

/// A string of `n` copies of `c`.
fn repeat_char(c: char, n: usize) -> (s: String)
    ensures
        s@ == repeated(c, n as nat),
{
    let mut s = String::new();
    let mut i: usize = 0;
    while i < n
        invariant
            i <= n,
            s@ == repeated(c, i as nat),
        decreases n - i,
    {
        push_char(&mut s, c);
        i = i + 1;
        assert(s@ =~= repeated(c, i as nat));
    }
    s
}

/// A rule: `glyph` repeated across `cols` columns.
pub fn rule(cols: usize, glyph: char) -> (c: Command)
    ensures
        text_is(c, repeated(glyph, cols as nat)),
{
    Command::Text(repeat_char(glyph, cols))
}

/// The last command of a page: feed three lines, then a partial cut.
pub open spec fn ends_page(d: Seq<Command>) -> bool {
    &&& d.len() >= 2
    &&& d[d.len() - 2] == (Command::Feed { lines: 3 })
    &&& d[d.len() - 1] == (Command::Cut { kind: CutKind::Partial })
}

/// A page of CP437 text: init, code page, the text, feed, partial cut.
pub open spec fn text_page_is(d: Seq<Command>, s: Seq<char>) -> bool {
    &&& d.len() == 5
    &&& d[0] == Command::Init
    &&& d[1] == Command::CodePage(CodePage::Pc437)
    &&& text_is(d[2], s)
    &&& ends_page(d)
}

/// The connectivity page.
pub fn hello() -> (d: Document)
    ensures
        text_page_is(d@, "SYSTEM ONLINE"@),
{
    text_page("SYSTEM ONLINE")
}

pub fn text_page(text: &str) -> (d: Document)
    ensures
        text_page_is(d@, text@),
{
    let mut cmds: Vec<Command> = Vec::new();
    cmds.push(Command::Init);
    cmds.push(Command::CodePage(CodePage::Pc437));
    cmds.push(Command::Text(owned(text)));
    cmds.push(Command::Feed { lines: 3 });
    cmds.push(Command::Cut { kind: CutKind::Partial });
    Document::new(cmds)
}

/// The digits `1, 2, ..., cols`, each taken modulo ten.
pub open spec fn spec_digit_ruler(cols: nat) -> Seq<char> {
    Seq::new(cols, |i: int| digit_char((i + 1) % 10))
}

fn digit_ruler(cols: usize) -> (s: String)
    ensures
        s@ == spec_digit_ruler(cols as nat),
{
    let mut s = String::new();
    let mut i: usize = 0;
    while i < cols
        invariant
            i <= cols,
            s@ == spec_digit_ruler(i as nat),
        decreases cols - i,
    {
        push_char(&mut s, crate::text::digit(((i + 1) % 10) as u64));
        i = i + 1;
        assert(s@ =~= spec_digit_ruler(i as nat));
    }
    s
}

/// The spacing stripes for `n` dots of line spacing: a label, `n`, four rows
/// of upper half blocks, then the default spacing again.
pub open spec fn spacing_block(d: Seq<Command>, at: int, n: u8) -> bool {
    &&& text_is(d[at], "n="@ + decimal(n as nat) + ":\n"@)
    &&& d[at + 1] == Command::LineSpacing(LineSpacing::Dots(n))
    &&& forall|r: int|
        0 <= r < 4 ==> text_is(#[trigger] d[at + 2 + 2 * r], repeated('▀', 20)) && d[at + 3 + 2
            * r] == (Command::Feed { lines: 1 })
    &&& d[at + 10] == Command::LineSpacing(LineSpacing::Default)
    &&& d[at + 11] == (Command::Feed { lines: 1 })
}

fn push_spacing_block(cmds: &mut Vec<Command>, n: u8)
    ensures
        final(cmds)@.len() == old(cmds)@.len() + 12,
        final(cmds)@.take(old(cmds)@.len() as int) == old(cmds)@,
        spacing_block(final(cmds)@, old(cmds)@.len() as int, n),
{
    let mut label = String::new();
    append(&mut label, "n=");
    push_decimal(&mut label, n as u64);
    append(&mut label, ":\n");
    cmds.push(Command::Text(label));
    cmds.push(Command::LineSpacing(LineSpacing::Dots(n)));
    let ghost at = old(cmds)@.len() as int;
    let mut r: usize = 0;
    while r < 4
        invariant
            r <= 4,
            at == old(cmds)@.len(),
            cmds@.len() == at + 2 + 2 * r,
            cmds@.take(at) == old(cmds)@,
            text_is(cmds@[at], "n="@ + decimal(n as nat) + ":\n"@),
            cmds@[at + 1] == Command::LineSpacing(LineSpacing::Dots(n)),
            forall|q: int|
                0 <= q < r ==> text_is(#[trigger] cmds@[at + 2 + 2 * q], repeated('▀', 20))
                    && cmds@[at + 3 + 2 * q] == (Command::Feed { lines: 1 }),
        decreases 4 - r,
    {
        cmds.push(Command::Text(repeat_char('▀', 20)));
        cmds.push(Command::Feed { lines: 1 });
        r = r + 1;
    }
    let ghost mid = cmds@;
    cmds.push(Command::LineSpacing(LineSpacing::Default));
    cmds.push(Command::Feed { lines: 1 });
    assert forall|q: int| 0 <= q < at + 10 implies cmds@[q] == mid[q] by {}
    assert forall|q: int|
        0 <= q < 4 implies text_is(#[trigger] cmds@[at + 2 + 2 * q], repeated('▀', 20))
        && cmds@[at + 3 + 2 * q] == (Command::Feed { lines: 1 }) by {
        assert(cmds@[at + 2 + 2 * q] == mid[at + 2 + 2 * q]);
        assert(cmds@[at + 3 + 2 * q] == mid[at + 3 + 2 * q]);
    }
    assert(cmds@.take(at) =~= old(cmds)@) by {
        assert forall|q: int| 0 <= q < at implies cmds@[q] == old(cmds)@[q] by {
            assert(mid.take(at)[q] == old(cmds)@[q]);
        }
    }
}

proof fn lemma_spacing_block_kept(a: Seq<Command>, b: Seq<Command>, at: int, n: u8)
    requires
        spacing_block(a, at, n),
        forall|i: int| at <= i < at + 12 ==> #[trigger] b[i] == a[i],
    ensures
        spacing_block(b, at, n),
{
    assert(b[at] == a[at]);
    assert(b[at + 1] == a[at + 1]);
    assert(b[at + 10] == a[at + 10]);
    assert(b[at + 11] == a[at + 11]);
    assert forall|r: int| 0 <= r < 4 implies text_is(#[trigger] b[at + 2 + 2 * r], repeated('▀', 20))
        && b[at + 3 + 2 * r] == (Command::Feed { lines: 1 }) by {
        assert(b[at + 2 + 2 * r] == a[at + 2 + 2 * r]);
        assert(b[at + 3 + 2 * r] == a[at + 3 + 2 * r]);
        assert(text_is(a[at + 2 + 2 * r], repeated('▀', 20)));
    }
}

/// The calibration page: a Font A and a Font B digit ruler, then line
/// spacing stripes for each candidate spacing, an inverted band, and a cut.
pub open spec fn ruler_is(d: Seq<Command>) -> bool {
    &&& d.len() == 56
    &&& d[0] == Command::Init
    &&& d[1] == Command::CodePage(CodePage::Pc437)
    &&& d[2] == Command::Align(Align::Left)
    &&& text_is(d[3], "FONT A ruler (48 cols):\n"@)
    &&& text_is(d[4], spec_digit_ruler(48))
    &&& d[5] == (Command::Feed { lines: 2 })
    &&& d[6] == Command::Font(Font::B)
    &&& text_is(d[7], "FONT B ruler (64 cols):\n"@)
    &&& text_is(d[8], spec_digit_ruler(64))
    &&& d[9] == (Command::Feed { lines: 2 })
    &&& d[10] == Command::Font(Font::A)
    &&& text_is(d[11], "SPACING: pick the n with EQUAL clean\n"@)
    &&& text_is(d[12], "black/white stripes. solid black =\n"@)
    &&& text_is(d[13], "overlap; wide white = gaps.\n\n"@)
    &&& spacing_block(d, 14, 24)
    &&& spacing_block(d, 26, 43)
    &&& spacing_block(d, 38, 48)
    &&& d[50] == Command::Invert(true)
    &&& text_is(d[51], "  INVERT BAND  "@)
    &&& d[52] == Command::Invert(false)
    &&& d[53] == (Command::Feed { lines: 1 })
    &&& ends_page(d)
}

/// The column and line spacing calibration page.
pub fn ruler() -> (d: Document)
    ensures
        ruler_is(d@),
{
    let mut cmds: Vec<Command> = Vec::new();
    cmds.push(Command::Init);
    cmds.push(Command::CodePage(CodePage::Pc437));
    cmds.push(Command::Align(Align::Left));
    cmds.push(Command::Text(owned("FONT A ruler (48 cols):\n")));
    cmds.push(Command::Text(digit_ruler(COLS_A as usize)));
    cmds.push(Command::Feed { lines: 2 });
    cmds.push(Command::Font(Font::B));
    cmds.push(Command::Text(owned("FONT B ruler (64 cols):\n")));
    cmds.push(Command::Text(digit_ruler(COLS_B as usize)));
    cmds.push(Command::Feed { lines: 2 });
    cmds.push(Command::Font(Font::A));
    cmds.push(Command::Text(owned("SPACING: pick the n with EQUAL clean\n")));
    cmds.push(Command::Text(owned("black/white stripes. solid black =\n")));
    cmds.push(Command::Text(owned("overlap; wide white = gaps.\n\n")));
    let ghost head = cmds@;
    assert(head[0] == Command::Init);
    assert(head[1] == Command::CodePage(CodePage::Pc437));
    assert(head[2] == Command::Align(Align::Left));
    assert(text_is(head[3], "FONT A ruler (48 cols):\n"@));
    assert(text_is(head[4], spec_digit_ruler(48)));
    assert(head[5] == (Command::Feed { lines: 2 }));
    assert(head[6] == Command::Font(Font::B));
    assert(text_is(head[7], "FONT B ruler (64 cols):\n"@));
    assert(text_is(head[8], spec_digit_ruler(64)));
    assert(head[9] == (Command::Feed { lines: 2 }));
    assert(head[10] == Command::Font(Font::A));
    assert(text_is(head[11], "SPACING: pick the n with EQUAL clean\n"@));
    assert(text_is(head[12], "black/white stripes. solid black =\n"@));
    assert(text_is(head[13], "overlap; wide white = gaps.\n\n"@));
    push_spacing_block(&mut cmds, ROW_DOTS_A);
    let ghost first = cmds@;
    push_spacing_block(&mut cmds, 43);
    let ghost second = cmds@;
    push_spacing_block(&mut cmds, 48);
    let ghost third = cmds@;
    cmds.push(Command::Invert(true));
    cmds.push(Command::Text(owned("  INVERT BAND  ")));
    cmds.push(Command::Invert(false));
    cmds.push(Command::Feed { lines: 1 });
    cmds.push(Command::Feed { lines: 3 });
    cmds.push(Command::Cut { kind: CutKind::Partial });
    proof {
        assert forall|i: int| 0 <= i < 14 implies cmds@[i] == head[i] by {
            assert(first.take(14)[i] == head[i]);
            assert(second.take(26)[i] == first[i]);
            assert(third.take(38)[i] == second[i]);
        }
        assert forall|i: int| 14 <= i < 26 implies cmds@[i] == first[i] by {
            assert(second.take(26)[i] == first[i]);
            assert(third.take(38)[i] == second[i]);
        }
        assert forall|i: int| 26 <= i < 38 implies cmds@[i] == second[i] by {
            assert(third.take(38)[i] == second[i]);
        }
        assert forall|i: int| 38 <= i < 50 implies cmds@[i] == third[i] by {}
        lemma_spacing_block_kept(first, cmds@, 14, 24);
        lemma_spacing_block_kept(second, cmds@, 26, 43);
        lemma_spacing_block_kept(third, cmds@, 38, 48);
    }
    Document::new(cmds)
}

/// A centered QR page: Model 2, module size 4, ECC level M.
pub open spec fn qr_page_is(d: Seq<Command>, data: Seq<char>) -> bool {
    &&& d.len() == 5
    &&& d[0] == Command::Init
    &&& d[1] == Command::Align(Align::Center)
    &&& d[2] matches Command::Qr(q) && q.data@ == data && q.model == QrModel::Model2 && q.size
        == 4 && q.ecc == QrEcc::M
    &&& ends_page(d)
}

/// A centered EAN-13 page with the default bar options.
pub open spec fn ean13_page_is(d: Seq<Command>, digits: Seq<char>) -> bool {
    &&& d.len() == 5
    &&& d[0] == Command::Init
    &&& d[1] == Command::Align(Align::Center)
    &&& d[2] matches Command::Barcode(b) && b.kind == BarcodeKind::Ean13 && b.data@ == digits
        && b.options == (BarcodeOptions {
        width: 3,
        height: 102,
        font: crate::barcode::BarcodeFont::A,
        hri_position: crate::barcode::HriPosition::Below,
    })
    &&& ends_page(d)
}

pub fn qr_page(data: &str) -> (d: Document)
    ensures
        qr_page_is(d@, data@),
{
    let mut cmds: Vec<Command> = Vec::new();
    cmds.push(Command::Init);
    cmds.push(Command::Align(Align::Center));
    cmds.push(Command::Qr(Qr { data: owned(data), model: QrModel::Model2, size: 4, ecc: QrEcc::M }));
    cmds.push(Command::Feed { lines: 3 });
    cmds.push(Command::Cut { kind: CutKind::Partial });
    Document::new(cmds)
}

pub fn ean13_page(digits: &str) -> (d: Document)
    ensures
        ean13_page_is(d@, digits@),
{
    let mut cmds: Vec<Command> = Vec::new();
    cmds.push(Command::Init);
    cmds.push(Command::Align(Align::Center));
    cmds.push(
        Command::Barcode(
            Barcode { kind: BarcodeKind::Ean13, data: owned(digits), options: BarcodeOptions::default() },
        ),
    );
    cmds.push(Command::Feed { lines: 3 });
    cmds.push(Command::Cut { kind: CutKind::Partial });
    Document::new(cmds)
}

} // verus!
