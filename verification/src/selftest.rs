//! Named paper cases. Each one is a [`Document`]; the command line prints them.

use vstd::prelude::*;

use crate::barcode::{Barcode, BarcodeFont, BarcodeKind, BarcodeOptions, Code128Set, HriPosition};
use crate::command::{Align, CashDrawerPin, CodePage, Command, CutKind, Font, Underline};
use crate::document::Document;
use crate::bytes::{lemma_ascii_utf8, utf8};
use crate::encode::{all_encode, lemma_all_encode, spec_command_bytes, spec_encode_commands};
use crate::graphics::{Graphics, GraphicsScale};
use crate::host::{hello, repeated, rule, ruler, ruler_is, text_is, text_page_is};
use crate::raster::Raster;
use crate::symbol::{
    DataMatrix, DataMatrixType, Gs1DataBar, Gs1DataBarType, Gs1DataBarWidth, MaxiCode,
    MaxiCodeMode, Pdf417, Pdf417Ecc, Pdf417Kind, Qr, QrEcc, QrModel,
};
use crate::text::{append, owned, same_text};
use crate::{COLS_A, PRINTABLE_DOTS};

verus! {

/// One named test page.
#[derive(Debug, Clone, Copy, PartialEq, Eq)]
pub struct Case {
    pub id: &'static str,
    pub title: &'static str,
    pub expect: &'static str,
    /// Printed by `tm20 test all`. The drawer is opt-in.
    pub in_all: bool,
}

/// The cases, in the order the command line lists them.
pub open spec fn spec_catalog() -> Seq<Case> {
    seq![
        Case { id: "hello", title: "connectivity", expect: "SYSTEM ONLINE, then a partial cut", in_all: false },
        Case { id: "ruler", title: "column / spacing calibration", expect: "48-col Font A and 64-col Font B rulers; even ▀ stripes", in_all: false },
        Case { id: "style", title: "text style", expect: "left/center/right, Font A/B, bold, underlines, invert, 2x size", in_all: true },
        Case { id: "glyphs", title: "CP437 block art", expect: "░▒▓█▀▄ and a box-drawing frame, not question marks", in_all: true },
        Case { id: "barcodes", title: "1D barcodes", expect: "UPC-A, EAN-13, EAN-8, CODE39, ITF, CODABAR with HRI below", in_all: true },
        Case { id: "code128", title: "CODE93 / CODE128 / GS1-128", expect: "CODE93 TM20, CODE128 TM20, GS1-128; function B, no NUL terminator", in_all: true },
        Case { id: "qr", title: "QR Model 2", expect: "scannable QR for https://example.com/tm20", in_all: true },
        Case { id: "pdf417", title: "PDF417", expect: "a PDF417 stack, or firmware ignores it", in_all: true },
        Case { id: "datamatrix", title: "DataMatrix", expect: "a square DataMatrix, or firmware ignores it", in_all: true },
        Case { id: "maxicode", title: "MaxiCode", expect: "a MaxiCode bullseye, or firmware ignores it", in_all: true },
        Case { id: "gs1", title: "GS1 DataBar stacked", expect: "a stacked GS1 DataBar, or firmware ignores it", in_all: true },
        Case { id: "graphics", title: "GS ( L bitmap", expect: "128x64 checkerboard, then a 576-dot black strip", in_all: true },
        Case { id: "layout", title: "print position / feed dots", expect: "ITEM left, $12.00 at a fixed column; spaced text; a 30-dot gap", in_all: true },
        Case { id: "upside", title: "upside-down text", expect: "UPSIDE DOWN on the physical right until you flip the slip", in_all: true },
        Case { id: "rotate", title: "ESC V 90° clockwise", expect: "ROTATE stays on the left; each glyph turned 90°", in_all: true },
        Case { id: "drawer", title: "cash drawer pulse", expect: "pin 2 pulse; kick if a drawer is wired. skip if not.", in_all: false },
    ]
}

/// `id` names a case of the catalog.
pub open spec fn catalog_has(id: Seq<char>) -> bool {
    exists|i: int| 0 <= i < spec_catalog().len() && (#[trigger] spec_catalog()[i]).id@ == id
}

pub fn catalog() -> (c: &'static [Case])
    ensures
        c@ == spec_catalog(),
{
    let c: &'static [Case] = &[
        Case { id: "hello", title: "connectivity", expect: "SYSTEM ONLINE, then a partial cut", in_all: false },
        Case { id: "ruler", title: "column / spacing calibration", expect: "48-col Font A and 64-col Font B rulers; even ▀ stripes", in_all: false },
        Case { id: "style", title: "text style", expect: "left/center/right, Font A/B, bold, underlines, invert, 2x size", in_all: true },
        Case { id: "glyphs", title: "CP437 block art", expect: "░▒▓█▀▄ and a box-drawing frame, not question marks", in_all: true },
        Case { id: "barcodes", title: "1D barcodes", expect: "UPC-A, EAN-13, EAN-8, CODE39, ITF, CODABAR with HRI below", in_all: true },
        Case { id: "code128", title: "CODE93 / CODE128 / GS1-128", expect: "CODE93 TM20, CODE128 TM20, GS1-128; function B, no NUL terminator", in_all: true },
        Case { id: "qr", title: "QR Model 2", expect: "scannable QR for https://example.com/tm20", in_all: true },
        Case { id: "pdf417", title: "PDF417", expect: "a PDF417 stack, or firmware ignores it", in_all: true },
        Case { id: "datamatrix", title: "DataMatrix", expect: "a square DataMatrix, or firmware ignores it", in_all: true },
        Case { id: "maxicode", title: "MaxiCode", expect: "a MaxiCode bullseye, or firmware ignores it", in_all: true },
        Case { id: "gs1", title: "GS1 DataBar stacked", expect: "a stacked GS1 DataBar, or firmware ignores it", in_all: true },
        Case { id: "graphics", title: "GS ( L bitmap", expect: "128x64 checkerboard, then a 576-dot black strip", in_all: true },
        Case { id: "layout", title: "print position / feed dots", expect: "ITEM left, $12.00 at a fixed column; spaced text; a 30-dot gap", in_all: true },
        Case { id: "upside", title: "upside-down text", expect: "UPSIDE DOWN on the physical right until you flip the slip", in_all: true },
        Case { id: "rotate", title: "ESC V 90° clockwise", expect: "ROTATE stays on the left; each glyph turned 90°", in_all: true },
        Case { id: "drawer", title: "cash drawer pulse", expect: "pin 2 pulse; kick if a drawer is wired. skip if not.", in_all: false },
    ];
    assert(c@ =~= spec_catalog());
    c
}

/// No two cases share an id.
pub proof fn lemma_catalog_ids_unique(i: int, j: int)
    requires
        0 <= i < j < spec_catalog().len(),
    ensures
        spec_catalog()[i].id@ != spec_catalog()[j].id@,
{
    let ids = seq![
        "hello"@,
        "ruler"@,
        "style"@,
        "glyphs"@,
        "barcodes"@,
        "code128"@,
        "qr"@,
        "pdf417"@,
        "datamatrix"@,
        "maxicode"@,
        "gs1"@,
        "graphics"@,
        "layout"@,
        "upside"@,
        "rotate"@,
        "drawer"@,
    ];
    assert(ids.len() == 16);
    reveal_strlit("hello");
    reveal_strlit("ruler");
    reveal_strlit("style");
    reveal_strlit("glyphs");
    reveal_strlit("barcodes");
    reveal_strlit("code128");
    reveal_strlit("qr");
    reveal_strlit("pdf417");
    reveal_strlit("datamatrix");
    reveal_strlit("maxicode");
    reveal_strlit("gs1");
    reveal_strlit("graphics");
    reveal_strlit("layout");
    reveal_strlit("upside");
    reveal_strlit("rotate");
    reveal_strlit("drawer");
    assert forall|k: int| 0 <= k < 16 implies #[trigger] spec_catalog()[k].id@ == ids[k] by {}
    assert(spec_catalog()[i].id@ == ids[i]);
    assert(spec_catalog()[j].id@ == ids[j]);
    assert(ids[i].len() != ids[j].len() || ids[i][0] != ids[j][0]);
}

/// The case named `id`.
pub fn find(id: &str) -> (r: Option<Case>)
    ensures
        catalog_has(id@) <==> r is Some,
        r matches Some(c) ==> c.id@ == id@ && spec_catalog().contains(c),
{
    let cases = catalog();
    let mut i: usize = 0;
    while i < cases.len()
        invariant
            cases@ == spec_catalog(),
            i <= cases@.len(),
            forall|j: int| 0 <= j < i ==> (#[trigger] cases@[j]).id@ != id@,
        decreases cases@.len() - i,
    {
        if same_text(cases[i].id, id) {
            assert(spec_catalog()[i as int].id@ == id@);
            return Some(cases[i]);
        }
        i = i + 1;
    }
    None
}

/// The opening of a case: reset, code page, left-aligned Font A, the
/// heading `TEST id`, and a Font A rule.
pub open spec fn opens_case(d: Seq<Command>, id: Seq<char>) -> bool {
    &&& d.len() >= 7
    &&& d[0] == Command::Init
    &&& d[1] == Command::CodePage(CodePage::Pc437)
    &&& d[2] == Command::Align(Align::Left)
    &&& d[3] == Command::Font(Font::A)
    &&& text_is(d[4], "TEST "@ + id + "\n"@)
    &&& text_is(d[5], repeated('─', 48))
    &&& d[6] == (Command::Feed { lines: 1 })
}

/// The close of a case: every sticky style back to its default, three
/// lines of feed, and a partial cut.
pub open spec fn closes_case(d: Seq<Command>) -> bool {
    let n = d.len() as int;
    &&& n >= 13
    &&& d[n - 13] == Command::Align(Align::Left)
    &&& d[n - 12] == Command::Font(Font::A)
    &&& d[n - 11] == (Command::Size { width: 1, height: 1 })
    &&& d[n - 10] == Command::Bold(false)
    &&& d[n - 9] == Command::Underline(Underline::Off)
    &&& d[n - 8] == Command::Invert(false)
    &&& d[n - 7] == Command::UpsideDown(false)
    &&& d[n - 6] == Command::Rotate90(false)
    &&& d[n - 5] == (Command::CharSpacing { dots: 0 })
    &&& d[n - 4] == (Command::LeftMargin { dots: 0 })
    &&& d[n - 3] == (Command::PrintAreaWidth { dots: 576 })
    &&& d[n - 2] == (Command::Feed { lines: 3 })
    &&& d[n - 1] == (Command::Cut { kind: CutKind::Partial })
}

/// What one command of a case body is: an exact command, a line of text,
/// tab stops, or a code or image built from the given data.
pub enum PageStep {
    Exact(Command),
    Text(Seq<char>),
    Tabs(Seq<u8>),
    Barcode(BarcodeKind, Seq<char>),
    Qr(Seq<char>, QrModel, u8, QrEcc),
    Pdf417(Seq<char>),
    DataMatrix(Seq<char>, DataMatrixType, u8),
    MaxiCode(Seq<char>, MaxiCodeMode),
    Gs1DataBar(Seq<char>, Gs1DataBarWidth, Gs1DataBarType),
    Image(u16, u32, Seq<u8>),
}

/// A labelled line: the label and a newline.
pub open spec fn label_step(label: Seq<char>) -> PageStep {
    PageStep::Text(label + "\n"@)
}

/// The catalog's barcode options: module width 3, height 102, HRI in Font A below.
pub open spec fn catalog_barcode_options() -> BarcodeOptions {
    BarcodeOptions { width: 3, height: 102, font: BarcodeFont::A, hri_position: HriPosition::Below }
}

/// `c` is the command that `step` describes. Codes use the catalog's
/// settings: default barcode options, the default PDF417 layout, and images
/// at normal scale.
pub open spec fn step_is(c: Command, step: PageStep) -> bool {
    match step {
        PageStep::Exact(x) => c == x,
        PageStep::Text(t) => text_is(c, t),
        PageStep::Tabs(t) => c matches Command::SetTabs(v) && v@ == t,
        PageStep::Barcode(kind, data) => c matches Command::Barcode(b) && b.kind == kind && b.data@
            == data && b.options == catalog_barcode_options(),
        PageStep::Qr(data, model, size, ecc) => c matches Command::Qr(q) && q.data@ == data
            && q.model == model && q.size == size && q.ecc == ecc,
        PageStep::Pdf417(data) => c matches Command::Pdf417(code) && code.data@ == data
            && code.columns == 0 && code.rows == 0 && code.width == 3 && code.row_height == 3
            && code.kind == Pdf417Kind::Standard && code.ecc == Pdf417Ecc::Ratio(1),
        PageStep::DataMatrix(data, kind, size) => c matches Command::DataMatrix(m) && m.data@ == data
            && m.kind == kind && m.size == size,
        PageStep::MaxiCode(data, mode) => c matches Command::MaxiCode(m) && m.data@ == data && m.mode
            == mode,
        PageStep::Gs1DataBar(data, width, kind) => c matches Command::Gs1DataBar(g) && g.data@ == data
            && g.width == width && g.kind == kind,
        PageStep::Image(width, height, pixels) => c matches Command::Graphics(g)
            && g.spec_raster().spec_width() == width && g.spec_raster().spec_height() == height
            && g.spec_raster().spec_pixels() == pixels && g.spec_scale() == GraphicsScale::Normal,
    }
}

/// Each command of `cmds` is what the step at its position describes.
pub open spec fn matches_steps(cmds: Seq<Command>, steps: Seq<PageStep>) -> bool {
    &&& cmds.len() == steps.len()
    &&& forall|i: int| 0 <= i < cmds.len() ==> step_is(#[trigger] cmds[i], steps[i])
}

/// A case page: the opening, a body that `body` describes, and the close.
pub open spec fn case_page(d: Seq<Command>, id: Seq<char>, body: Seq<PageStep>) -> bool {
    &&& opens_case(d, id)
    &&& closes_case(d)
    &&& d.len() == 7 + body.len() + 13
    &&& matches_steps(d.subrange(7, 7 + body.len() as int), body)
}

/// A command with no text or data of its own whose parameters the printer
/// accepts.
pub open spec fn plain_setting(c: Command) -> bool {
    match c {
        Command::Align(_) | Command::Font(_) | Command::Bold(_) | Command::Underline(_)
        | Command::DoubleStrike(_) | Command::Smoothing(_) | Command::Invert(_)
        | Command::UpsideDown(_) | Command::Rotate90(_) | Command::CashDrawer(_)
        | Command::HorizontalTab | Command::Feed { .. } | Command::FeedDots { .. }
        | Command::CharSpacing { .. } | Command::AbsolutePosition { .. }
        | Command::LeftMargin { .. } => true,
        Command::Size { width, height } => 1 <= width <= 8 && 1 <= height <= 8,
        _ => false,
    }
}

/// Tab stops and images always have bytes.
proof fn lemma_tabs_and_images_encode(c: Command)
    requires
        c is SetTabs || c is Graphics,
    ensures
        spec_command_bytes(c) is Ok,
{
    reveal(spec_command_bytes);
}

/// The codes on the catalog pages have bytes: their data fits and their
/// settings are ones the printer accepts.
proof fn lemma_sample_encodes(c: Command)
    requires
        step_is(c, PageStep::Qr("https://example.com/tm20"@, QrModel::Model2, 4, QrEcc::M))
            || step_is(c, PageStep::Pdf417("tm20 pdf417"@)) || step_is(
            c,
            PageStep::DataMatrix("tm20"@, DataMatrixType::Square(0), 3),
        ) || step_is(c, PageStep::MaxiCode("tm20"@, MaxiCodeMode::Mode4)) || step_is(
            c,
            PageStep::Gs1DataBar("1240123456789"@, Gs1DataBarWidth::S, Gs1DataBarType::Stacked),
        ),
    ensures
        spec_command_bytes(c) is Ok,
{
    reveal(spec_command_bytes);
    reveal_strlit("https://example.com/tm20");
    lemma_ascii_utf8("https://example.com/tm20"@);
    reveal_strlit("tm20 pdf417");
    lemma_ascii_utf8("tm20 pdf417"@);
    reveal_strlit("tm20");
    lemma_ascii_utf8("tm20"@);
    reveal_strlit("1240123456789");
    lemma_ascii_utf8("1240123456789"@);
}

/// Append a command that has bytes.
fn push_ok(cmds: &mut Vec<Command>, cmd: Command)
    requires
        spec_command_bytes(cmd) is Ok,
    ensures
        final(cmds)@ == old(cmds)@.push(cmd),
        all_encode(old(cmds)@) ==> all_encode(final(cmds)@),
{
    cmds.push(cmd);
    proof {
        if all_encode(old(cmds)@) {
            assert forall|i: int| 0 <= i < cmds@.len() implies (#[trigger] spec_command_bytes(
                cmds@[i],
            )) is Ok by {
                if i < old(cmds)@.len() {
                    assert(cmds@[i] == old(cmds)@[i]);
                }
            }
        }
    }
}

/// A case body under construction, with what each of its commands is.
struct Page {
    cmds: Vec<Command>,
    steps: Ghost<Seq<PageStep>>,
}

impl Page {
    #[verifier::opaque]
    spec fn wf(&self) -> bool {
        matches_steps(self.cmds@, self.steps@) && all_encode(self.cmds@)
    }

    spec fn spec_steps(&self) -> Seq<PageStep> {
        self.steps@
    }

    fn new() -> (p: Self)
        ensures
            p.wf(),
            p.spec_steps() == Seq::<PageStep>::empty(),
    {
        let p = Page { cmds: Vec::new(), steps: Ghost(Seq::empty()) };
        proof {
            reveal(Page::wf);
        }
        p
    }

    /// Append `c`, which `step` describes.
    fn add(&mut self, c: Command, Ghost(step): Ghost<PageStep>)
        requires
            old(self).wf(),
            step_is(c, step),
            spec_command_bytes(c) is Ok,
        ensures
            final(self).wf(),
            final(self).spec_steps() == old(self).spec_steps().push(step),
    {
        proof {
            reveal(Page::wf);
        }
        let ghost before = self.cmds@;
        push_ok(&mut self.cmds, c);
        self.steps = Ghost(self.steps@.push(step));
        proof {
            assert forall|i: int| 0 <= i < self.cmds@.len() implies step_is(
                #[trigger] self.cmds@[i],
                self.steps@[i],
            ) by {
                if i < before.len() {
                    assert(self.cmds@[i] == before[i]);
                }
            }
        }
    }

    /// A setting, a feed, a tab or a drawer pulse.
    fn exact(&mut self, c: Command)
        requires
            old(self).wf(),
            plain_setting(c),
        ensures
            final(self).wf(),
            final(self).spec_steps() == old(self).spec_steps().push(PageStep::Exact(c)),
    {
        proof {
            reveal(spec_command_bytes);
        }
        let ghost step = PageStep::Exact(c);
        self.add(c, Ghost(step));
    }

    /// A line of text.
    fn text(&mut self, s: &str)
        requires
            old(self).wf(),
        ensures
            final(self).wf(),
            final(self).spec_steps() == old(self).spec_steps().push(PageStep::Text(s@)),
    {
        proof {
            reveal(spec_command_bytes);
        }
        self.add(Command::Text(owned(s)), Ghost(PageStep::Text(s@)));
    }

    /// A label on a line of its own.
    fn label(&mut self, label: &str)
        requires
            old(self).wf(),
        ensures
            final(self).wf(),
            final(self).spec_steps() == old(self).spec_steps().push(label_step(label@)),
    {
        let mut s = owned(label);
        append(&mut s, "\n");
        proof {
            reveal(spec_command_bytes);
        }
        self.add(Command::Text(s), Ghost(label_step(label@)));
    }

    /// A Font A rule across the tape.
    fn rule(&mut self)
        requires
            old(self).wf(),
        ensures
            final(self).wf(),
            final(self).spec_steps() == old(self).spec_steps().push(
                PageStep::Text(repeated('─', 48)),
            ),
    {
        proof {
            reveal(spec_command_bytes);
        }
        let line = rule(COLS_A as usize, '─');
        self.add(line, Ghost(PageStep::Text(repeated('─', 48))));
    }

    /// A barcode of `kind` over `data`, which the kind admits.
    fn barcode(&mut self, kind: BarcodeKind, data: &str)
        requires
            old(self).wf(),
            crate::barcode::spec_payload(kind, utf8(data@)) is Ok,
        ensures
            final(self).wf(),
            final(self).spec_steps() == old(self).spec_steps().push(PageStep::Barcode(kind, data@)),
    {
        proof {
            reveal(spec_command_bytes);
        }
        let code = Command::Barcode(
            Barcode { kind, data: owned(data), options: BarcodeOptions::default() },
        );
        self.add(code, Ghost(PageStep::Barcode(kind, data@)));
    }
}

fn start(id: &str) -> (c: Vec<Command>)
    ensures
        c@.len() == 7,
        opens_case(c@, id@),
        all_encode(c@),
{
    proof {
        reveal(spec_command_bytes);
    }
    let mut heading = owned("TEST ");
    append(&mut heading, id);
    append(&mut heading, "\n");
    let mut c: Vec<Command> = Vec::new();
    push_ok(&mut c, Command::Init);
    push_ok(&mut c, Command::CodePage(CodePage::Pc437));
    push_ok(&mut c, Command::Align(Align::Left));
    push_ok(&mut c, Command::Font(Font::A));
    push_ok(&mut c, Command::Text(heading));
    let line = rule(COLS_A as usize, '─');
    push_ok(&mut c, line);
    push_ok(&mut c, Command::Feed { lines: 1 });
    c
}

fn finish(cmds: Vec<Command>) -> (d: Document)
    ensures
        d@.len() == cmds@.len() + 13,
        d@.take(cmds@.len() as int) == cmds@,
        closes_case(d@),
        all_encode(cmds@) ==> all_encode(d@),
{
    proof {
        reveal(spec_command_bytes);
    }
    let mut cmds = cmds;
    let ghost before = cmds@;
    push_ok(&mut cmds, Command::Align(Align::Left));
    push_ok(&mut cmds, Command::Font(Font::A));
    push_ok(&mut cmds, Command::Size { width: 1, height: 1 });
    push_ok(&mut cmds, Command::Bold(false));
    push_ok(&mut cmds, Command::Underline(Underline::Off));
    push_ok(&mut cmds, Command::Invert(false));
    push_ok(&mut cmds, Command::UpsideDown(false));
    push_ok(&mut cmds, Command::Rotate90(false));
    push_ok(&mut cmds, Command::CharSpacing { dots: 0 });
    push_ok(&mut cmds, Command::LeftMargin { dots: 0 });
    push_ok(&mut cmds, Command::PrintAreaWidth { dots: PRINTABLE_DOTS });
    push_ok(&mut cmds, Command::Feed { lines: 3 });
    push_ok(&mut cmds, Command::Cut { kind: CutKind::Partial });
    assert(cmds@.take(before.len() as int) =~= before);
    Document::new(cmds)
}

fn framed(id: &str, page: Page) -> (d: Document)
    requires
        page.wf(),
    ensures
        case_page(d@, id@, page.spec_steps()),
        all_encode(d@),
{
    proof {
        reveal(Page::wf);
    }
    let ghost steps = page.spec_steps();
    let mut body = page.cmds;
    let ghost b = body@;
    let mut c = start(id);
    let ghost opening = c@;
    c.append(&mut body);
    proof {
        assert forall|i: int| 0 <= i < c@.len() implies (#[trigger] spec_command_bytes(c@[i]))
            is Ok by {
            if i < 7 {
                assert(c@[i] == opening[i]);
            } else {
                assert(c@[i] == b[i - 7]);
            }
        }
    }
    let d = finish(c);
    proof {
        assert(d@.take(7 + b.len() as int) == opening + b);
        assert forall|i: int| 0 <= i < 7 implies d@[i] == opening[i] by {
            assert(d@.take(7 + b.len() as int)[i] == (opening + b)[i]);
        }
        assert(d@.subrange(7, 7 + b.len() as int) =~= b) by {
            assert forall|i: int| 0 <= i < b.len() implies d@.subrange(7, 7 + b.len() as int)[i]
                == b[i] by {
                assert(d@.take(7 + b.len() as int)[7 + i] == (opening + b)[7 + i]);
            }
        }
    }
    d
}

/// The sample data of each barcode on the catalog pages is admitted by its kind.
proof fn lemma_upc_a_sample()
    ensures
        crate::barcode::spec_payload(BarcodeKind::UpcA, utf8("042100005264"@)) is Ok,
{
    reveal_strlit("042100005264");
    lemma_ascii_utf8("042100005264"@);
}

proof fn lemma_ean13_sample()
    ensures
        crate::barcode::spec_payload(BarcodeKind::Ean13, utf8("5901234123457"@)) is Ok,
{
    reveal_strlit("5901234123457");
    lemma_ascii_utf8("5901234123457"@);
}

proof fn lemma_ean8_sample()
    ensures
        crate::barcode::spec_payload(BarcodeKind::Ean8, utf8("96385074"@)) is Ok,
{
    reveal_strlit("96385074");
    lemma_ascii_utf8("96385074"@);
}

proof fn lemma_code39_sample()
    ensures
        crate::barcode::spec_payload(BarcodeKind::Code39, utf8("TM20"@)) is Ok,
{
    reveal_strlit("TM20");
    lemma_ascii_utf8("TM20"@);
}

proof fn lemma_itf_sample()
    ensures
        crate::barcode::spec_payload(BarcodeKind::Itf, utf8("123456"@)) is Ok,
{
    reveal_strlit("123456");
    lemma_ascii_utf8("123456"@);
}

proof fn lemma_codabar_sample()
    ensures
        crate::barcode::spec_payload(BarcodeKind::Codabar, utf8("A40156B"@)) is Ok,
{
    reveal_strlit("A40156B");
    lemma_ascii_utf8("A40156B"@);
}

proof fn lemma_code93_sample()
    ensures
        crate::barcode::spec_payload(BarcodeKind::Code93, utf8("TM20"@)) is Ok,
{
    reveal_strlit("TM20");
    lemma_ascii_utf8("TM20"@);
}

proof fn lemma_code128_sample()
    ensures
        crate::barcode::spec_payload(BarcodeKind::Code128 { set: Code128Set::B }, utf8("TM20"@)) is Ok,
{
    reveal_strlit("TM20");
    lemma_ascii_utf8("TM20"@);
    reveal_with_fuel(crate::barcode::escape_braces, 5);
    assert(utf8("TM20"@).drop_last().drop_last().drop_last().drop_last().len() == 0);
}

proof fn lemma_gs1_128_sample()
    ensures
        crate::barcode::spec_payload(BarcodeKind::Gs1_128, utf8("0101234567890128"@)) is Ok,
{
    reveal_strlit("0101234567890128");
    lemma_ascii_utf8("0101234567890128"@);
}

/// The body of the `style` page.
pub open spec fn style_steps() -> Seq<PageStep> {
    seq![
        label_step("align left"@),
        PageStep::Exact(Command::Align(Align::Center)),
        label_step("align center"@),
        PageStep::Exact(Command::Align(Align::Right)),
        label_step("align right"@),
        PageStep::Exact(Command::Align(Align::Left)),
        PageStep::Exact(Command::Font(Font::A)),
        label_step("Font A 12x24"@),
        PageStep::Exact(Command::Font(Font::B)),
        label_step("Font B 9x17"@),
        PageStep::Exact(Command::Font(Font::A)),
        PageStep::Exact(Command::Bold(true)),
        label_step("bold on"@),
        PageStep::Exact(Command::Bold(false)),
        PageStep::Exact(Command::Underline(Underline::Single)),
        label_step("underline single"@),
        PageStep::Exact(Command::Underline(Underline::Double)),
        label_step("underline double"@),
        PageStep::Exact(Command::Underline(Underline::Off)),
        PageStep::Exact(Command::DoubleStrike(true)),
        label_step("double strike"@),
        PageStep::Exact(Command::DoubleStrike(false)),
        PageStep::Exact(Command::Smoothing(true)),
        label_step("smoothing on"@),
        PageStep::Exact(Command::Smoothing(false)),
        PageStep::Exact(Command::Invert(true)),
        label_step("  INVERT  "@),
        PageStep::Exact(Command::Invert(false)),
        PageStep::Exact(Command::Feed { lines: 1 }),
        PageStep::Exact(Command::Size { width: 2, height: 2 }),
        label_step("SIZE 2x"@),
        PageStep::Exact(Command::Size { width: 1, height: 1 }),
        label_step("size 1x"@),
    ]
}

fn style() -> (d: Document)
    ensures
        case_page(d@, "style"@, style_steps()),
        all_encode(d@),
{
    let mut p = Page::new();
    p.label("align left");
    p.exact(Command::Align(Align::Center));
    p.label("align center");
    p.exact(Command::Align(Align::Right));
    p.label("align right");
    p.exact(Command::Align(Align::Left));
    p.exact(Command::Font(Font::A));
    p.label("Font A 12x24");
    p.exact(Command::Font(Font::B));
    p.label("Font B 9x17");
    p.exact(Command::Font(Font::A));
    p.exact(Command::Bold(true));
    p.label("bold on");
    p.exact(Command::Bold(false));
    p.exact(Command::Underline(Underline::Single));
    p.label("underline single");
    p.exact(Command::Underline(Underline::Double));
    p.label("underline double");
    p.exact(Command::Underline(Underline::Off));
    p.exact(Command::DoubleStrike(true));
    p.label("double strike");
    p.exact(Command::DoubleStrike(false));
    p.exact(Command::Smoothing(true));
    p.label("smoothing on");
    p.exact(Command::Smoothing(false));
    p.exact(Command::Invert(true));
    p.label("  INVERT  ");
    p.exact(Command::Invert(false));
    p.exact(Command::Feed { lines: 1 });
    p.exact(Command::Size { width: 2, height: 2 });
    p.label("SIZE 2x");
    p.exact(Command::Size { width: 1, height: 1 });
    p.label("size 1x");
    framed("style", p)
}

/// The body of the `glyphs` page.
pub open spec fn glyphs_steps() -> Seq<PageStep> {
    seq![
        label_step("blocks: ░▒▓█▀▄"@),
        label_step("box:"@),
        label_step("┌────────┐"@),
        label_step("│ tm20   │"@),
        label_step("└────────┘"@),
        label_step("rule:"@),
        PageStep::Text(repeated('─', 48)),
        PageStep::Exact(Command::Feed { lines: 1 }),
    ]
}

fn glyphs() -> (d: Document)
    ensures
        case_page(d@, "glyphs"@, glyphs_steps()),
        all_encode(d@),
{
    let mut p = Page::new();
    p.label("blocks: ░▒▓█▀▄");
    p.label("box:");
    p.label("┌────────┐");
    p.label("│ tm20   │");
    p.label("└────────┘");
    p.label("rule:");
    p.rule();
    p.exact(Command::Feed { lines: 1 });
    framed("glyphs", p)
}

/// The body of the `barcodes` page.
pub open spec fn barcodes_steps() -> Seq<PageStep> {
    seq![
        PageStep::Exact(Command::Align(Align::Center)),
        label_step("UPC-A"@),
        PageStep::Barcode(BarcodeKind::UpcA, "042100005264"@),
        PageStep::Exact(Command::Feed { lines: 1 }),
        label_step("EAN-13"@),
        PageStep::Barcode(BarcodeKind::Ean13, "5901234123457"@),
        PageStep::Exact(Command::Feed { lines: 1 }),
        label_step("EAN-8"@),
        PageStep::Barcode(BarcodeKind::Ean8, "96385074"@),
        PageStep::Exact(Command::Feed { lines: 1 }),
        label_step("CODE39"@),
        PageStep::Barcode(BarcodeKind::Code39, "TM20"@),
        PageStep::Exact(Command::Feed { lines: 1 }),
        label_step("ITF"@),
        PageStep::Barcode(BarcodeKind::Itf, "123456"@),
        PageStep::Exact(Command::Feed { lines: 1 }),
        label_step("CODABAR"@),
        PageStep::Barcode(BarcodeKind::Codabar, "A40156B"@),
        PageStep::Exact(Command::Feed { lines: 1 }),
    ]
}

fn barcodes() -> (d: Document)
    ensures
        case_page(d@, "barcodes"@, barcodes_steps()),
        all_encode(d@),
{
    let mut p = Page::new();
    p.exact(Command::Align(Align::Center));
    p.label("UPC-A");
    proof {
        lemma_upc_a_sample();
    }
    p.barcode(BarcodeKind::UpcA, "042100005264");
    p.exact(Command::Feed { lines: 1 });
    p.label("EAN-13");
    proof {
        lemma_ean13_sample();
    }
    p.barcode(BarcodeKind::Ean13, "5901234123457");
    p.exact(Command::Feed { lines: 1 });
    p.label("EAN-8");
    proof {
        lemma_ean8_sample();
    }
    p.barcode(BarcodeKind::Ean8, "96385074");
    p.exact(Command::Feed { lines: 1 });
    p.label("CODE39");
    proof {
        lemma_code39_sample();
    }
    p.barcode(BarcodeKind::Code39, "TM20");
    p.exact(Command::Feed { lines: 1 });
    p.label("ITF");
    proof {
        lemma_itf_sample();
    }
    p.barcode(BarcodeKind::Itf, "123456");
    p.exact(Command::Feed { lines: 1 });
    p.label("CODABAR");
    proof {
        lemma_codabar_sample();
    }
    p.barcode(BarcodeKind::Codabar, "A40156B");
    p.exact(Command::Feed { lines: 1 });
    framed("barcodes", p)
}

/// The body of the `code128` page.
pub open spec fn code128_steps() -> Seq<PageStep> {
    seq![
        PageStep::Exact(Command::Align(Align::Center)),
        label_step("CODE93"@),
        PageStep::Barcode(BarcodeKind::Code93, "TM20"@),
        PageStep::Exact(Command::Feed { lines: 1 }),
        label_step("CODE128 set B"@),
        PageStep::Barcode(BarcodeKind::Code128 { set: Code128Set::B }, "TM20"@),
        PageStep::Exact(Command::Feed { lines: 1 }),
        label_step("GS1-128"@),
        PageStep::Barcode(BarcodeKind::Gs1_128, "0101234567890128"@),
        PageStep::Exact(Command::Feed { lines: 1 }),
    ]
}

fn code128() -> (d: Document)
    ensures
        case_page(d@, "code128"@, code128_steps()),
        all_encode(d@),
{
    let mut p = Page::new();
    p.exact(Command::Align(Align::Center));
    p.label("CODE93");
    proof {
        lemma_code93_sample();
    }
    p.barcode(BarcodeKind::Code93, "TM20");
    p.exact(Command::Feed { lines: 1 });
    p.label("CODE128 set B");
    proof {
        lemma_code128_sample();
    }
    p.barcode(BarcodeKind::Code128 { set: Code128Set::B }, "TM20");
    p.exact(Command::Feed { lines: 1 });
    p.label("GS1-128");
    proof {
        lemma_gs1_128_sample();
    }
    p.barcode(BarcodeKind::Gs1_128, "0101234567890128");
    p.exact(Command::Feed { lines: 1 });
    framed("code128", p)
}

/// The body of the `qr` page.
pub open spec fn qr_steps() -> Seq<PageStep> {
    seq![
        PageStep::Exact(Command::Align(Align::Center)),
        label_step("https://example.com/tm20"@),
        PageStep::Qr("https://example.com/tm20"@, QrModel::Model2, 4, QrEcc::M),
    ]
}

fn qr() -> (d: Document)
    ensures
        case_page(d@, "qr"@, qr_steps()),
        all_encode(d@),
{
    let mut p = Page::new();
    p.exact(Command::Align(Align::Center));
    p.label("https://example.com/tm20");
    let code = Command::Qr(Qr { data: owned("https://example.com/tm20"), model: QrModel::Model2, size: 4, ecc: QrEcc::M });
    proof {
        lemma_sample_encodes(code);
    }
    p.add(code, Ghost(PageStep::Qr("https://example.com/tm20"@, QrModel::Model2, 4, QrEcc::M)));
    framed("qr", p)
}

/// The body of the `pdf417` page.
pub open spec fn pdf417_steps() -> Seq<PageStep> {
    seq![
        PageStep::Exact(Command::Align(Align::Center)),
        PageStep::Pdf417("tm20 pdf417"@),
    ]
}

fn pdf417() -> (d: Document)
    ensures
        case_page(d@, "pdf417"@, pdf417_steps()),
        all_encode(d@),
{
    let mut p = Page::new();
    p.exact(Command::Align(Align::Center));
    let mut code = Pdf417::default();
    code.data = owned("tm20 pdf417");
    let code = Command::Pdf417(code);
    proof {
        lemma_sample_encodes(code);
    }
    p.add(code, Ghost(PageStep::Pdf417("tm20 pdf417"@)));
    framed("pdf417", p)
}

/// The body of the `datamatrix` page.
pub open spec fn datamatrix_steps() -> Seq<PageStep> {
    seq![
        PageStep::Exact(Command::Align(Align::Center)),
        PageStep::DataMatrix("tm20"@, DataMatrixType::Square(0), 3),
    ]
}

fn datamatrix() -> (d: Document)
    ensures
        case_page(d@, "datamatrix"@, datamatrix_steps()),
        all_encode(d@),
{
    let mut p = Page::new();
    p.exact(Command::Align(Align::Center));
    let code = Command::DataMatrix(DataMatrix { data: owned("tm20"), kind: DataMatrixType::Square(0), size: 3 });
    proof {
        lemma_sample_encodes(code);
    }
    p.add(code, Ghost(PageStep::DataMatrix("tm20"@, DataMatrixType::Square(0), 3)));
    framed("datamatrix", p)
}

/// The body of the `maxicode` page.
pub open spec fn maxicode_steps() -> Seq<PageStep> {
    seq![
        PageStep::Exact(Command::Align(Align::Center)),
        label_step("Mode 4 (arbitrary data)"@),
        PageStep::MaxiCode("tm20"@, MaxiCodeMode::Mode4),
    ]
}

fn maxicode() -> (d: Document)
    ensures
        case_page(d@, "maxicode"@, maxicode_steps()),
        all_encode(d@),
{
    let mut p = Page::new();
    p.exact(Command::Align(Align::Center));
    p.label("Mode 4 (arbitrary data)");
    let code = Command::MaxiCode(MaxiCode { data: owned("tm20"), mode: MaxiCodeMode::Mode4 });
    proof {
        lemma_sample_encodes(code);
    }
    p.add(code, Ghost(PageStep::MaxiCode("tm20"@, MaxiCodeMode::Mode4)));
    framed("maxicode", p)
}

/// The body of the `gs1` page.
pub open spec fn gs1_steps() -> Seq<PageStep> {
    seq![
        PageStep::Exact(Command::Align(Align::Center)),
        PageStep::Gs1DataBar("1240123456789"@, Gs1DataBarWidth::S, Gs1DataBarType::Stacked),
    ]
}

fn gs1() -> (d: Document)
    ensures
        case_page(d@, "gs1"@, gs1_steps()),
        all_encode(d@),
{
    let mut p = Page::new();
    p.exact(Command::Align(Align::Center));
    let code = Command::Gs1DataBar(Gs1DataBar { data: owned("1240123456789"), width: Gs1DataBarWidth::S, kind: Gs1DataBarType::Stacked });
    proof {
        lemma_sample_encodes(code);
    }
    p.add(code, Ghost(PageStep::Gs1DataBar("1240123456789"@, Gs1DataBarWidth::S, Gs1DataBarType::Stacked)));
    framed("gs1", p)
}

/// The byte at column `k` of row `y` of a checkerboard of 8 x 8 tiles: black
/// when its tile column and tile row add up to an even number.
pub open spec fn checker_byte(k: int, y: int) -> u8 {
    if (k % 2 + (y / 8) % 2) % 2 == 0 {
        0xff
    } else {
        0
    }
}

/// The packed rows of a checkerboard, `width_bytes` bytes per row.
pub open spec fn checker_pixels(width_bytes: int, height: int) -> Seq<u8> {
    Seq::new((width_bytes * height) as nat, |i: int| checker_byte(i % width_bytes, i / width_bytes))
}

/// `n` bytes of solid black.
pub open spec fn solid_pixels(n: nat) -> Seq<u8> {
    Seq::new(n, |i: int| 0xffu8)
}

/// Rows that fill whole bytes have no padding to clear.
proof fn lemma_whole_bytes_normalized(width: u16, p: Seq<u8>)
    requires
        width % 8 == 0,
    ensures
        crate::raster::normalized(width, p) == p,
{
    assert(crate::raster::normalized(width, p) =~= p);
}

/// The packed rows of a checkerboard of 8 x 8 tiles, `width_bytes` bytes per
/// row.
fn checkerboard(width_bytes: usize, height: usize) -> (p: Vec<u8>)
    requires
        width_bytes * height <= usize::MAX,
    ensures
        p@ == checker_pixels(width_bytes as int, height as int),
{
    let mut p: Vec<u8> = Vec::new();
    let mut y: usize = 0;
    while y < height
        invariant
            y <= height,
            width_bytes * height <= usize::MAX,
            p@.len() == width_bytes * y,
            forall|i: int|
                0 <= i < p@.len() ==> #[trigger] p@[i] == checker_byte(
                    i % width_bytes as int,
                    i / width_bytes as int,
                ),
        decreases height - y,
    {
        let mut k: usize = 0;
        while k < width_bytes
            invariant
                k <= width_bytes,
                y < height,
                width_bytes * height <= usize::MAX,
                p@.len() == width_bytes * y + k,
                forall|i: int|
                    0 <= i < p@.len() ==> #[trigger] p@[i] == checker_byte(
                        i % width_bytes as int,
                        i / width_bytes as int,
                    ),
            decreases width_bytes - k,
        {
            assert(width_bytes * y + k < width_bytes * height) by (nonlinear_arith)
                requires
                    k < width_bytes,
                    y < height,
            ;
            let byte: u8 = if (k % 2 + (y / 8) % 2) % 2 == 0 {
                0xff
            } else {
                0
            };
            proof {
                let at = width_bytes * y + k;
                vstd::arithmetic::div_mod::lemma_fundamental_div_mod_converse_mod(
                    at as int,
                    width_bytes as int,
                    y as int,
                    k as int,
                );
                vstd::arithmetic::div_mod::lemma_fundamental_div_mod_converse_div(
                    at as int,
                    width_bytes as int,
                    y as int,
                    k as int,
                );
                assert(at as int == y as int * width_bytes as int + k as int) by (nonlinear_arith)
                    requires
                        at == width_bytes * y + k,
                ;
            }
            let ghost before = p@;
            p.push(byte);
            proof {
                assert forall|i: int| 0 <= i < p@.len() implies #[trigger] p@[i] == checker_byte(
                    i % width_bytes as int,
                    i / width_bytes as int,
                ) by {
                    if i < before.len() {
                        assert(p@[i] == before[i]);
                    }
                }
            }
            k = k + 1;
        }
        assert(width_bytes * (y + 1) == width_bytes * y + width_bytes) by (nonlinear_arith);
        y = y + 1;
    }
    assert(p@ =~= checker_pixels(width_bytes as int, height as int));
    p
}

/// `n` bytes of solid black.
fn solid(n: usize) -> (p: Vec<u8>)
    ensures
        p@ == solid_pixels(n as nat),
{
    let mut p: Vec<u8> = Vec::new();
    let mut i: usize = 0;
    while i < n
        invariant
            i <= n,
            p@ == solid_pixels(i as nat),
        decreases n - i,
    {
        p.push(0xff);
        i = i + 1;
        assert(p@ =~= solid_pixels(i as nat));
    }
    p
}

/// The body of the `graphics` page.
pub open spec fn graphics_steps() -> Seq<PageStep> {
    seq![
        PageStep::Exact(Command::Align(Align::Center)),
        label_step("128x64 checkerboard GS ( L"@),
        PageStep::Image(128, 64, checker_pixels(16, 64)),
        PageStep::Exact(Command::Feed { lines: 1 }),
        label_step("576-dot black strip"@),
        PageStep::Image(576, 16, solid_pixels(1152)),
    ]
}

fn graphics() -> (d: Document)
    ensures
        case_page(d@, "graphics"@, graphics_steps()),
        all_encode(d@),
{
    let mut p = Page::new();
    p.exact(Command::Align(Align::Center));
    p.label("128x64 checkerboard GS ( L");
    let board = Raster::from_packed(128, 64, checkerboard(16, 64));
    proof {
        lemma_whole_bytes_normalized(128, checker_pixels(16, 64));
    }
    if let Ok(raster) = board {
        if let Ok(g) = Graphics::new(raster, GraphicsScale::Normal) {
            let image = Command::Graphics(g);
            proof {
                lemma_tabs_and_images_encode(image);
            }
            p.add(image, Ghost(PageStep::Image(128, 64, checker_pixels(16, 64))));
        }
    }
    p.exact(Command::Feed { lines: 1 });
    p.label("576-dot black strip");
    let strip = Raster::from_packed(PRINTABLE_DOTS, 16, solid(72 * 16));
    proof {
        lemma_whole_bytes_normalized(576, solid_pixels(1152));
    }
    if let Ok(raster) = strip {
        if let Ok(g) = Graphics::new(raster, GraphicsScale::Normal) {
            let image = Command::Graphics(g);
            proof {
                lemma_tabs_and_images_encode(image);
            }
            p.add(image, Ghost(PageStep::Image(576, 16, solid_pixels(1152))));
        }
    }
    framed("graphics", p)
}

/// The body of the `layout` page.
pub open spec fn layout_steps() -> Seq<PageStep> {
    seq![
        label_step("absolute: ITEM then $12.00"@),
        PageStep::Text("ITEM"@),
        PageStep::Exact(Command::AbsolutePosition { dots: 400 }),
        PageStep::Text("$12.00\n"@),
        label_step("tabs at 16 and 32"@),
        PageStep::Tabs(seq![16u8, 32u8]),
        PageStep::Text("A"@),
        PageStep::Exact(Command::HorizontalTab),
        PageStep::Text("B"@),
        PageStep::Exact(Command::HorizontalTab),
        PageStep::Text("C\n"@),
        label_step("char spacing 3"@),
        PageStep::Exact(Command::CharSpacing { dots: 3 }),
        PageStep::Text("SPACED\n"@),
        PageStep::Exact(Command::CharSpacing { dots: 0 }),
        label_step("feed 30 dots"@),
        PageStep::Exact(Command::FeedDots { dots: 30 }),
        label_step("after feed-dots"@),
        label_step("left margin 48"@),
        PageStep::Exact(Command::LeftMargin { dots: 48 }),
        PageStep::Text("indented\n"@),
        PageStep::Exact(Command::LeftMargin { dots: 0 }),
    ]
}

fn layout() -> (d: Document)
    ensures
        case_page(d@, "layout"@, layout_steps()),
        all_encode(d@),
{
    let mut p = Page::new();
    p.label("absolute: ITEM then $12.00");
    p.text("ITEM");
    p.exact(Command::AbsolutePosition { dots: 400 });
    p.text("$12.00\n");
    p.label("tabs at 16 and 32");
    let mut tabs: Vec<u8> = Vec::new();
    tabs.push(16);
    tabs.push(32);
    assert(tabs@ =~= seq![16u8, 32u8]);
    let stops = Command::SetTabs(tabs);
    proof {
        lemma_tabs_and_images_encode(stops);
    }
    p.add(stops, Ghost(PageStep::Tabs(seq![16u8, 32u8])));
    p.text("A");
    p.exact(Command::HorizontalTab);
    p.text("B");
    p.exact(Command::HorizontalTab);
    p.text("C\n");
    p.label("char spacing 3");
    p.exact(Command::CharSpacing { dots: 3 });
    p.text("SPACED\n");
    p.exact(Command::CharSpacing { dots: 0 });
    p.label("feed 30 dots");
    p.exact(Command::FeedDots { dots: 30 });
    p.label("after feed-dots");
    p.label("left margin 48");
    p.exact(Command::LeftMargin { dots: 48 });
    p.text("indented\n");
    p.exact(Command::LeftMargin { dots: 0 });
    framed("layout", p)
}

/// The body of the `upside` page.
pub open spec fn upside_steps() -> Seq<PageStep> {
    seq![
        label_step("before"@),
        PageStep::Exact(Command::UpsideDown(true)),
        label_step("UPSIDE DOWN"@),
        PageStep::Exact(Command::UpsideDown(false)),
        label_step("after"@),
    ]
}

fn upside() -> (d: Document)
    ensures
        case_page(d@, "upside"@, upside_steps()),
        all_encode(d@),
{
    let mut p = Page::new();
    p.label("before");
    p.exact(Command::UpsideDown(true));
    p.label("UPSIDE DOWN");
    p.exact(Command::UpsideDown(false));
    p.label("after");
    framed("upside", p)
}

/// The body of the `rotate` page.
pub open spec fn rotate_steps() -> Seq<PageStep> {
    seq![
        label_step("before"@),
        PageStep::Exact(Command::Rotate90(true)),
        label_step("ROTATE"@),
        PageStep::Exact(Command::Rotate90(false)),
        label_step("after"@),
    ]
}

fn rotate() -> (d: Document)
    ensures
        case_page(d@, "rotate"@, rotate_steps()),
        all_encode(d@),
{
    let mut p = Page::new();
    p.label("before");
    p.exact(Command::Rotate90(true));
    p.label("ROTATE");
    p.exact(Command::Rotate90(false));
    p.label("after");
    framed("rotate", p)
}

/// The body of the `drawer` page.
pub open spec fn drawer_steps() -> Seq<PageStep> {
    seq![
        label_step("pulse pin 2"@),
        PageStep::Exact(Command::CashDrawer(CashDrawerPin::Pin2)),
    ]
}

fn drawer() -> (d: Document)
    ensures
        case_page(d@, "drawer"@, drawer_steps()),
        all_encode(d@),
{
    let mut p = Page::new();
    p.label("pulse pin 2");
    p.exact(Command::CashDrawer(CashDrawerPin::Pin2));
    framed("drawer", p)
}

/// Every command of a text page has bytes.
pub proof fn lemma_text_page_encodes(d: Seq<Command>, s: Seq<char>)
    requires
        text_page_is(d, s),
    ensures
        all_encode(d),
{
    reveal(spec_command_bytes);
    assert forall|i: int| 0 <= i < d.len() implies (#[trigger] spec_command_bytes(d[i])) is Ok by {
        if i == 3 {
            assert(d[i] == d[d.len() - 2]);
        } else if i == 4 {
            assert(d[i] == d[d.len() - 1]);
        }
    }
}

/// Every command of the ruler page has bytes.
pub proof fn lemma_ruler_encodes(d: Seq<Command>)
    requires
        ruler_is(d),
    ensures
        all_encode(d),
{
    reveal(spec_command_bytes);
    assert forall|i: int| 0 <= i < d.len() implies (#[trigger] spec_command_bytes(d[i])) is Ok by {
        if 14 <= i < 50 {
            let at: int = if i < 26 {
                14
            } else if i < 38 {
                26
            } else {
                38
            };
            let k = i - at;
            if 2 <= k < 10 {
                let r = (k - 2) / 2;
                assert(0 <= r < 4);
                if k % 2 == 0 {
                    assert(i == at + 2 + 2 * r);
                    assert(text_is(d[at + 2 + 2 * r], repeated('▀', 20)));
                } else {
                    assert(i == at + 3 + 2 * r);
                    assert(text_is(d[at + 2 + 2 * r], repeated('▀', 20)));
                }
            }
        } else if i == 54 {
            assert(d[i] == d[d.len() - 2]);
        } else if i == 55 {
            assert(d[i] == d[d.len() - 1]);
        }
    }
}

/// The page that the case `id` prints.
pub open spec fn page_of(id: Seq<char>, d: Seq<Command>) -> bool {
    if id == "hello"@ {
        text_page_is(d, "SYSTEM ONLINE"@)
    } else if id == "ruler"@ {
        ruler_is(d)
    } else if id == "style"@ {
        case_page(d, id, style_steps())
    } else if id == "glyphs"@ {
        case_page(d, id, glyphs_steps())
    } else if id == "barcodes"@ {
        case_page(d, id, barcodes_steps())
    } else if id == "code128"@ {
        case_page(d, id, code128_steps())
    } else if id == "qr"@ {
        case_page(d, id, qr_steps())
    } else if id == "pdf417"@ {
        case_page(d, id, pdf417_steps())
    } else if id == "datamatrix"@ {
        case_page(d, id, datamatrix_steps())
    } else if id == "maxicode"@ {
        case_page(d, id, maxicode_steps())
    } else if id == "gs1"@ {
        case_page(d, id, gs1_steps())
    } else if id == "graphics"@ {
        case_page(d, id, graphics_steps())
    } else if id == "layout"@ {
        case_page(d, id, layout_steps())
    } else if id == "upside"@ {
        case_page(d, id, upside_steps())
    } else if id == "rotate"@ {
        case_page(d, id, rotate_steps())
    } else if id == "drawer"@ {
        case_page(d, id, drawer_steps())
    } else {
        false
    }
}

impl Case {
    /// The page of a catalog case: the connectivity and ruler pages as the
    /// host helpers make them, every other case between its opening and its
    /// reset.
    pub fn doc(self) -> (d: Document)
        requires
            catalog_has(self.id@),
        ensures
            self.id@ == "hello"@ ==> text_page_is(d@, "SYSTEM ONLINE"@),
            self.id@ == "ruler"@ ==> ruler_is(d@),
            self.id@ != "hello"@ && self.id@ != "ruler"@ ==> opens_case(d@, self.id@)
                && closes_case(d@),
            page_of(self.id@, d@),
            spec_encode_commands(d@) is Ok,
    {
        proof {
            reveal_strlit("hello");
            reveal_strlit("ruler");
            reveal_strlit("style");
            reveal_strlit("glyphs");
            reveal_strlit("barcodes");
            reveal_strlit("code128");
            reveal_strlit("qr");
            reveal_strlit("pdf417");
            reveal_strlit("datamatrix");
            reveal_strlit("maxicode");
            reveal_strlit("gs1");
            reveal_strlit("graphics");
            reveal_strlit("layout");
            reveal_strlit("upside");
            reveal_strlit("rotate");
            reveal_strlit("drawer");
            assert("hello"@[0] != "ruler"@[0]);
        }
        if same_text(self.id, "hello") {
            let d = hello();
            proof {
                lemma_text_page_encodes(d@, "SYSTEM ONLINE"@);
                lemma_all_encode(d@);
            }
            return d;
        }
        if same_text(self.id, "ruler") {
            let d = ruler();
            proof {
                lemma_ruler_encodes(d@);
                lemma_all_encode(d@);
            }
            return d;
        }
        if same_text(self.id, "style") {
            let d = style();
            proof {
                lemma_all_encode(d@);
            }
            return d;
        }
        if same_text(self.id, "glyphs") {
            let d = glyphs();
            proof {
                lemma_all_encode(d@);
            }
            return d;
        }
        if same_text(self.id, "barcodes") {
            let d = barcodes();
            proof {
                lemma_all_encode(d@);
            }
            return d;
        }
        if same_text(self.id, "code128") {
            let d = code128();
            proof {
                lemma_all_encode(d@);
            }
            return d;
        }
        if same_text(self.id, "qr") {
            let d = qr();
            proof {
                lemma_all_encode(d@);
            }
            return d;
        }
        if same_text(self.id, "pdf417") {
            let d = pdf417();
            proof {
                lemma_all_encode(d@);
            }
            return d;
        }
        if same_text(self.id, "datamatrix") {
            let d = datamatrix();
            proof {
                lemma_all_encode(d@);
            }
            return d;
        }
        if same_text(self.id, "maxicode") {
            let d = maxicode();
            proof {
                lemma_all_encode(d@);
            }
            return d;
        }
        if same_text(self.id, "gs1") {
            let d = gs1();
            proof {
                lemma_all_encode(d@);
            }
            return d;
        }
        if same_text(self.id, "graphics") {
            let d = graphics();
            proof {
                lemma_all_encode(d@);
            }
            return d;
        }
        if same_text(self.id, "layout") {
            let d = layout();
            proof {
                lemma_all_encode(d@);
            }
            return d;
        }
        if same_text(self.id, "upside") {
            let d = upside();
            proof {
                lemma_all_encode(d@);
            }
            return d;
        }
        if same_text(self.id, "rotate") {
            let d = rotate();
            proof {
                lemma_all_encode(d@);
            }
            return d;
        }
        if same_text(self.id, "drawer") {
            let d = drawer();
            proof {
                lemma_all_encode(d@);
            }
            return d;
        }
        proof {
            let k = choose|k: int|
                0 <= k < spec_catalog().len() && (#[trigger] spec_catalog()[k]).id@ == self.id@;
            assert(spec_catalog()[k].id@ == self.id@);
            assert(false);
        }
        hello()
    }
}

} // verus!
