//! Bounded paper projections.
//!
//! Untrusted source strings are parsed into [`PaperText`] once. A digest is
//! packed against a dot budget and overflow is represented explicitly; there
//! is no unbounded continuation mode.

use vstd::prelude::*;

use crate::connector::{control_char, is_control};
use crate::document::Document;
use crate::error::EncodeError;
use crate::policy::Privacy;
use crate::text::{append, decimal, push_char, push_decimal};

verus! {

pub const MAX_TAPE_DOTS: u32 = 800;

pub const MAX_DIGEST_ITEMS: usize = 7;

const BODY_LINE_DOTS: u32 = 37;

const MASTHEAD_DOTS: u32 = 102;

const HEAD_DOTS: u32 = 37;

const RULE_DOTS: u32 = 18;

const FOOTER_DOTS: u32 = 37;

const CHARS_PER_LINE: usize = 40;

/// The Unicode White_Space property.
pub open spec fn white_space(c: char) -> bool {
    let n = c as u32;
    (0x09 <= n && n <= 0x0d) || n == 0x20 || n == 0x85 || n == 0xa0 || n == 0x1680 || (0x2000
        <= n && n <= 0x200a) || n == 0x2028 || n == 0x2029 || n == 0x202f || n == 0x205f || n
        == 0x3000
}

/// `char::is_whitespace`.
pub fn is_white_space(c: char) -> (r: bool)
    ensures
        r == white_space(c),
{
    let n = c as u32;
    (0x09 <= n && n <= 0x0d) || n == 0x20 || n == 0x85 || n == 0xa0 || n == 0x1680 || (0x2000
        <= n && n <= 0x200a) || n == 0x2028 || n == 0x2029 || n == 0x202f || n == 0x205f || n
        == 0x3000
}

/// A character that paper text refuses: NUL, or a control character that is
/// not whitespace.
pub open spec fn refused_char(c: char) -> bool {
    c == '\0' || (control_char(c) && !white_space(c))
}

/// The words of `s` joined by single spaces, with the text so far and whether
/// a gap is pending before the next word.
pub open spec fn collapse(s: Seq<char>) -> (Seq<char>, bool)
    decreases s.len(),
{
    if s.len() == 0 {
        (Seq::empty(), false)
    } else {
        let (out, gap) = collapse(s.drop_last());
        let c = s.last();
        if white_space(c) {
            (out, out.len() > 0)
        } else if gap {
            (out.push(' ').push(c), false)
        } else {
            (out.push(c), false)
        }
    }
}

/// `s` split at whitespace, the words joined by single spaces.
pub open spec fn normalize_space(s: Seq<char>) -> Seq<char> {
    collapse(s).0
}

/// What [`PaperText::parse`] gives for `s`.
pub open spec fn paper_text(s: Seq<char>) -> Result<Seq<char>, PaperError> {
    if exists|i: int| 0 <= i < s.len() && refused_char(#[trigger] s[i]) {
        Err(PaperError::ControlCharacter)
    } else if normalize_space(s).len() == 0 {
        Err(PaperError::EmptyText)
    } else {
        Ok(normalize_space(s))
    }
}

/// `t` is already collapsed: its only whitespace is single spaces between
/// two other characters.
pub open spec fn collapsed(t: Seq<char>) -> bool {
    forall|i: int|
        0 <= i < t.len() && white_space(#[trigger] t[i]) ==> t[i] == ' ' && 0 < i < t.len() - 1
            && !white_space(t[i - 1]) && !white_space(t[i + 1])
}

proof fn lemma_collapsed_push(t: Seq<char>, c: char)
    requires
        collapsed(t),
        !white_space(c),
    ensures
        collapsed(t.push(c)),
        t.len() > 0 ==> collapsed(t.push(' ').push(c)),
{
    let u = t.push(c);
    assert forall|i: int| 0 <= i < u.len() && white_space(#[trigger] u[i]) implies u[i] == ' ' && 0
        < i < u.len() - 1 && !white_space(u[i - 1]) && !white_space(u[i + 1]) by {
        assert(u[i] == t[i]);
        assert(u[i - 1] == t[i - 1]);
        if i + 1 < t.len() {
            assert(u[i + 1] == t[i + 1]);
        }
    }
    if t.len() > 0 {
        let w = t.push(' ').push(c);
        assert(white_space(' '));
        assert forall|i: int| 0 <= i < w.len() && white_space(#[trigger] w[i]) implies w[i] == ' '
            && 0 < i < w.len() - 1 && !white_space(w[i - 1]) && !white_space(w[i + 1]) by {
            if i < t.len() {
                assert(w[i] == t[i]);
                if i > 0 {
                    assert(w[i - 1] == t[i - 1]);
                }
                if i + 1 < t.len() {
                    assert(w[i + 1] == t[i + 1]);
                }
            } else if i == t.len() {
                assert(w[i - 1] == t[t.len() - 1]);
                assert(!white_space(t[t.len() - 1]));
            }
        }
    }
}

/// What `collapse` gives is collapsed, holds only characters of `s` and
/// spaces, and a pending gap follows some text.
proof fn lemma_collapse_shape(s: Seq<char>)
    ensures
        collapsed(collapse(s).0),
        collapse(s).1 ==> collapse(s).0.len() > 0,
        forall|i: int|
            0 <= i < collapse(s).0.len() ==> #[trigger] collapse(s).0[i] == ' ' || s.contains(
                collapse(s).0[i],
            ),
    decreases s.len(),
{
    if s.len() > 0 {
        let p = s.drop_last();
        lemma_collapse_shape(p);
        let (out, gap) = collapse(p);
        let c = s.last();
        if !white_space(c) {
            lemma_collapsed_push(out, c);
        }
        let o = collapse(s).0;
        assert forall|i: int| 0 <= i < o.len() implies #[trigger] o[i] == ' ' || s.contains(o[i]) by {
            if i < out.len() {
                assert(o[i] == out[i]);
                if out[i] != ' ' {
                    let j = choose|j: int| 0 <= j < p.len() && p[j] == out[i];
                    assert(s[j] == p[j]);
                }
            } else {
                assert(s[s.len() - 1] == c);
            }
        }
    }
}

/// Collapsing collapsed text changes nothing.
proof fn lemma_collapse_collapsed(t: Seq<char>)
    requires
        collapsed(t),
    ensures
        collapse(t) == (t, false),
    decreases t.len(),
{
    if t.len() > 0 {
        let c = t.last();
        assert(!white_space(c)) by {
            if white_space(t[t.len() - 1]) {
            }
        }
        let p = t.drop_last();
        if p.len() > 0 && white_space(p.last()) {
            let q = p.drop_last();
            assert(white_space(t[t.len() - 2]));
            assert forall|i: int| 0 <= i < q.len() && white_space(#[trigger] q[i]) implies q[i] == ' '
                && 0 < i < q.len() - 1 && !white_space(q[i - 1]) && !white_space(q[i + 1]) by {
                assert(q[i] == t[i]);
                assert(white_space(t[i]));
                assert(q[i - 1] == t[i - 1]);
                if i + 1 < q.len() {
                    assert(q[i + 1] == t[i + 1]);
                } else {
                    assert(i + 1 == t.len() - 2);
                    assert(!white_space(t[i + 1]));
                }
            }
            assert(q.len() > 0);
            lemma_collapse_collapsed(q);
            assert(p.drop_last() == q);
            assert(p.last() == ' ');
            assert(collapse(p) == (q, true));
            assert(t =~= q.push(' ').push(c));
        } else {
            assert forall|i: int| 0 <= i < p.len() && white_space(#[trigger] p[i]) implies p[i] == ' '
                && 0 < i < p.len() - 1 && !white_space(p[i - 1]) && !white_space(p[i + 1]) by {
                assert(p[i] == t[i]);
                assert(white_space(t[i]));
                assert(p[i - 1] == t[i - 1]);
                if i + 1 < p.len() {
                    assert(p[i + 1] == t[i + 1]);
                } else {
                    assert(p.last() == p[i]);
                }
            }
            lemma_collapse_collapsed(p);
            assert(t =~= p.push(c));
        }
    } else {
        assert(t =~= Seq::<char>::empty());
    }
}

/// Parsing the text that a parse gave back gives it back unchanged.
pub proof fn lemma_paper_text_idempotent(s: Seq<char>)
    requires
        paper_text(s) is Ok,
    ensures
        paper_text(paper_text(s)->Ok_0) == paper_text(s),
{
    let t = normalize_space(s);
    lemma_collapse_shape(s);
    lemma_collapse_collapsed(t);
    assert forall|i: int| 0 <= i < t.len() implies !refused_char(#[trigger] t[i]) by {
        if t[i] != ' ' {
            let j = choose|j: int| 0 <= j < s.len() && s[j] == t[i];
            assert(!refused_char(s[j]));
        } else {
            assert(!control_char(' '));
        }
    }
}

/// Text normalized for paper: nonempty, no control characters, and words
/// separated by single spaces.
#[derive(Debug, Clone, PartialEq, Eq)]
pub struct PaperText(String);

impl PaperText {
    pub closed spec fn view(&self) -> Seq<char> {
        self.0@
    }

    pub fn parse(input: &str) -> (r: Result<Self, PaperError>)
        ensures
            match paper_text(input@) {
                Ok(t) => r matches Ok(p) && p@ == t,
                Err(e) => r == Err::<Self, PaperError>(e),
            },
    {
        let n = input.unicode_len();
        let mut i: usize = 0;
        while i < n
            invariant
                n == input@.len(),
                i <= n,
                forall|j: int| 0 <= j < i ==> !refused_char(#[trigger] input@[j]),
            decreases n - i,
        {
            let c = input.get_char(i);
            if c == '\0' || (is_control(c) && !is_white_space(c)) {
                return Err(PaperError::ControlCharacter);
            }
            i = i + 1;
        }
        let mut out = String::new();
        let mut gap = false;
        let mut k: usize = 0;
        while k < n
            invariant
                n == input@.len(),
                k <= n,
                (out@, gap) == collapse(input@.take(k as int)),
            decreases n - k,
        {
            let c = input.get_char(k);
            proof {
                assert(input@.take(k + 1).drop_last() =~= input@.take(k as int));
            }
            if is_white_space(c) {
                gap = out.unicode_len() > 0;
            } else {
                if gap {
                    push_char(&mut out, ' ');
                }
                push_char(&mut out, c);
                gap = false;
            }
            k = k + 1;
        }
        assert(input@.take(n as int) =~= input@);
        if out.unicode_len() == 0 {
            return Err(PaperError::EmptyText);
        }
        Ok(PaperText(out))
    }

    pub fn as_str(&self) -> (s: &str)
        ensures
            s@ == self@,
    {
        self.0.as_str()
    }
}

/// The copy that a source offers: a subject, and perhaps an excerpt.
#[derive(Debug, Clone, PartialEq, Eq)]
pub enum SourceCopy {
    Subject(PaperText),
    SubjectAndExcerpt { subject: PaperText, excerpt: PaperText },
}

impl SourceCopy {
    pub fn metadata(subject: &str) -> (r: Result<Self, PaperError>)
        ensures
            match paper_text(subject@) {
                Ok(t) => r matches Ok(SourceCopy::Subject(p)) && p@ == t,
                Err(e) => r == Err::<Self, PaperError>(e),
            },
    {
        match PaperText::parse(subject) {
            Ok(p) => Ok(SourceCopy::Subject(p)),
            Err(e) => Err(e),
        }
    }

    pub fn excerpt(subject: &str, excerpt: &str) -> (r: Result<Self, PaperError>)
        ensures
            match (paper_text(subject@), paper_text(excerpt@)) {
                (Err(e), _) => r == Err::<Self, PaperError>(e),
                (Ok(_), Err(e)) => r == Err::<Self, PaperError>(e),
                (Ok(s), Ok(x)) => r matches Ok(SourceCopy::SubjectAndExcerpt { subject, excerpt })
                    && subject@ == s && excerpt@ == x,
            },
    {
        let subject = match PaperText::parse(subject) {
            Ok(p) => p,
            Err(e) => {
                return Err(e);
            },
        };
        let excerpt = match PaperText::parse(excerpt) {
            Ok(p) => p,
            Err(e) => {
                return Err(e);
            },
        };
        Ok(SourceCopy::SubjectAndExcerpt { subject, excerpt })
    }

    /// The text that `privacy` lets onto paper.
    pub open spec fn spec_projected(self, privacy: Privacy) -> Option<Seq<char>> {
        match (privacy, self) {
            (Privacy::MetadataOnly, SourceCopy::Subject(s)) => Some(s@),
            (Privacy::MetadataOnly, SourceCopy::SubjectAndExcerpt { subject, .. }) => Some(
                subject@,
            ),
            (_, SourceCopy::SubjectAndExcerpt { excerpt, .. }) => Some(excerpt@),
            (_, SourceCopy::Subject(_)) => None,
        }
    }

    /// Metadata shows the subject; an excerpt privacy shows the excerpt and
    /// needs one.
    pub fn project(self, privacy: Privacy) -> (r: Result<ProjectedCopy, PaperError>)
        ensures
            match self.spec_projected(privacy) {
                Some(t) => r matches Ok(p) && p@ == t && p.spec_privacy() == privacy,
                None => r == Err::<ProjectedCopy, PaperError>(PaperError::MissingExcerpt(privacy)),
            },
    {
        let text = match privacy {
            Privacy::MetadataOnly => match self {
                SourceCopy::Subject(subject) => subject,
                SourceCopy::SubjectAndExcerpt { subject, .. } => subject,
            },
            _ => match self {
                SourceCopy::SubjectAndExcerpt { excerpt, .. } => excerpt,
                SourceCopy::Subject(_) => {
                    return Err(PaperError::MissingExcerpt(privacy));
                },
            },
        };
        Ok(ProjectedCopy { privacy, text })
    }
}

/// Source text already cut down to what a privacy level allows.
#[derive(Debug, Clone, PartialEq, Eq)]
pub struct ProjectedCopy {
    privacy: Privacy,
    text: PaperText,
}

impl ProjectedCopy {
    pub closed spec fn view(&self) -> Seq<char> {
        self.text@
    }

    pub closed spec fn spec_privacy(&self) -> Privacy {
        self.privacy
    }

    pub fn privacy(&self) -> (p: Privacy)
        ensures
            p == self.spec_privacy(),
    {
        self.privacy
    }

    pub fn as_str(&self) -> (s: &str)
        ensures
            s@ == self@,
    {
        self.text.as_str()
    }
}


#[derive(Debug, Clone, Copy, PartialEq, Eq, PartialOrd, Ord, Structural)]
pub enum Section {
    People,
    Work,
    Mail,
    Network,
}

/// The sections in the order a digest prints them.
pub open spec fn section_at(i: int) -> Section {
    if i == 0 {
        Section::People
    } else if i == 1 {
        Section::Work
    } else if i == 2 {
        Section::Mail
    } else {
        Section::Network
    }
}

fn section_from(i: usize) -> (s: Section)
    ensures
        s == section_at(i as int),
{
    if i == 0 {
        Section::People
    } else if i == 1 {
        Section::Work
    } else if i == 2 {
        Section::Mail
    } else {
        Section::Network
    }
}

impl Section {
    pub open spec fn spec_label(self) -> Seq<char> {
        match self {
            Section::People => "PEOPLE"@,
            Section::Work => "WORK"@,
            Section::Mail => "MAIL"@,
            Section::Network => "NETWORK"@,
        }
    }

    fn label(self) -> (s: &'static str)
        ensures
            s@ == self.spec_label(),
    {
        match self {
            Section::People => "PEOPLE",
            Section::Work => "WORK",
            Section::Mail => "MAIL",
            Section::Network => "NETWORK",
        }
    }
}

/// One notice of a digest.
#[derive(Debug, Clone, PartialEq, Eq)]
pub struct DigestItem {
    section: Section,
    source: PaperText,
    sender: PaperText,
    age: PaperText,
    summary: ProjectedCopy,
    updates: u32,
}

impl DigestItem {
    pub closed spec fn spec_section(&self) -> Section {
        self.section
    }

    pub closed spec fn source_text(&self) -> Seq<char> {
        self.source@
    }

    pub closed spec fn sender_text(&self) -> Seq<char> {
        self.sender@
    }

    pub closed spec fn age_text(&self) -> Seq<char> {
        self.age@
    }

    pub closed spec fn summary_text(&self) -> Seq<char> {
        self.summary@
    }

    pub closed spec fn spec_updates(&self) -> u32 {
        self.updates
    }

    pub fn parse(
        section: Section,
        source: &str,
        sender: &str,
        age: &str,
        summary: ProjectedCopy,
        updates: u32,
    ) -> (r: Result<Self, PaperError>)
        ensures
            match (paper_text(source@), paper_text(sender@), paper_text(age@)) {
                (Err(e), _, _) => r == Err::<Self, PaperError>(e),
                (Ok(_), Err(e), _) => r == Err::<Self, PaperError>(e),
                (Ok(_), Ok(_), Err(e)) => r == Err::<Self, PaperError>(e),
                (Ok(a), Ok(b), Ok(c)) => r matches Ok(item) && item.spec_section() == section
                    && item.source_text() == a && item.sender_text() == b && item.age_text() == c
                    && item.summary_text() == summary@ && item.spec_updates() == updates,
            },
    {
        let source = match PaperText::parse(source) {
            Ok(p) => p,
            Err(e) => {
                return Err(e);
            },
        };
        let sender = match PaperText::parse(sender) {
            Ok(p) => p,
            Err(e) => {
                return Err(e);
            },
        };
        let age = match PaperText::parse(age) {
            Ok(p) => p,
            Err(e) => {
                return Err(e);
            },
        };
        Ok(DigestItem { section, source, sender, age, summary, updates })
    }

    fn estimated_dots(&self) -> (d: u32)
        requires
            item_dots(*self) <= u32::MAX,
        ensures
            d == item_dots(*self),
    {
        let lines = wrapped_lines(self.summary.as_str());
        let extra: u32 = if self.updates > 1 {
            BODY_LINE_DOTS
        } else {
            0
        };
        BODY_LINE_DOTS + lines * BODY_LINE_DOTS + extra
    }
}

/// Lines of the tape that `n` characters take, at least one, capped at
/// `u32::MAX`.
pub open spec fn wrapped_lines_of(n: nat) -> int {
    let len: int = if n == 0 {
        1
    } else {
        n as int
    };
    let lines = (len + 39) / 40;
    if lines > u32::MAX {
        u32::MAX as int
    } else {
        lines
    }
}

/// The estimated height of an item: its byline, its wrapped summary, and an
/// update count when there is more than one.
pub open spec fn item_dots(item: DigestItem) -> int {
    37 + wrapped_lines_of(item.summary_text().len()) * 37 + if item.spec_updates() > 1 {
        37int
    } else {
        0int
    }
}

fn wrapped_lines(text: &str) -> (r: u32)
    ensures
        r == wrapped_lines_of(text@.len()),
{
    let n = text.unicode_len();
    let len: usize = if n == 0 {
        1
    } else {
        n
    };
    let lines: usize = len / CHARS_PER_LINE + if len % CHARS_PER_LINE != 0 {
        1
    } else {
        0
    };
    assert(lines == (len + 39) / 40);
    if lines > 0xffff_ffff {
        0xffff_ffff
    } else {
        lines as u32
    }
}

/// A character that markdown would read as markup.
pub open spec fn markdown_special(c: char) -> bool {
    c == '\\' || c == '`' || c == '*' || c == '_' || c == '{' || c == '}' || c == '[' || c == ']'
        || c == '<' || c == '>' || c == '#' || c == '|' || c == '!'
}

/// `s` with a backslash before every markdown special character.
pub open spec fn escaped(s: Seq<char>) -> Seq<char>
    decreases s.len(),
{
    if s.len() == 0 {
        Seq::empty()
    } else {
        escaped(s.drop_last()) + if markdown_special(s.last()) {
            seq!['\\', s.last()]
        } else {
            seq![s.last()]
        }
    }
}

/// Append `text` to `out`, escaping markdown.
fn push_escaped(out: &mut String, text: &str)
    ensures
        final(out)@ == old(out)@ + escaped(text@),
{
    let n = text.unicode_len();
    let mut k: usize = 0;
    while k < n
        invariant
            n == text@.len(),
            k <= n,
            out@ == old(out)@ + escaped(text@.take(k as int)),
        decreases n - k,
    {
        let c = text.get_char(k);
        proof {
            assert(text@.take(k + 1).drop_last() =~= text@.take(k as int));
        }
        let special = c == '\\' || c == '`' || c == '*' || c == '_' || c == '{' || c == '}' || c
            == '[' || c == ']' || c == '<' || c == '>' || c == '#' || c == '|' || c == '!';
        let ghost before = out@;
        if special {
            push_char(out, '\\');
        }
        push_char(out, c);
        proof {
            if special {
                assert(out@ =~= before + seq!['\\', c]);
            } else {
                assert(out@ =~= before + seq![c]);
            }
        }
        k = k + 1;
    }
    assert(text@.take(n as int) =~= text@);
}

/// The markdown of one digest item.
pub open spec fn item_markdown(item: DigestItem) -> Seq<char> {
    "\n**"@ + escaped(item.source_text()) + " · "@ + escaped(item.sender_text()) + " · "@
        + escaped(item.age_text()) + "**\n\n"@ + escaped(item.summary_text()) + "\n"@ + if item.spec_updates()
        > 1 {
        "\n`"@ + decimal(item.spec_updates() as nat) + " updates`\n"@
    } else {
        Seq::empty()
    }
}

/// The update count shows only past one update: an item with at most one
/// update ends with its summary line, and the same item with more updates
/// renders as that plus one `n updates` line, which costs one more printed
/// line of height.
pub proof fn lemma_update_line(a: DigestItem, b: DigestItem)
    requires
        a.source_text() == b.source_text(),
        a.sender_text() == b.sender_text(),
        a.age_text() == b.age_text(),
        a.summary_text() == b.summary_text(),
        a.spec_updates() <= 1,
        b.spec_updates() > 1,
    ensures
        item_markdown(a).skip(item_markdown(a).len() - (escaped(a.summary_text()).len() + 1))
            == escaped(a.summary_text()) + "\n"@,
        item_markdown(b) == item_markdown(a) + "\n`"@ + decimal(b.spec_updates() as nat)
            + " updates`\n"@,
        item_dots(b) == item_dots(a) + 37,
{
    let m = item_markdown(a);
    let tail = escaped(a.summary_text()) + "\n"@;
    let head = "\n**"@ + escaped(a.source_text()) + " · "@ + escaped(a.sender_text()) + " · "@
        + escaped(a.age_text()) + "**\n\n"@;
    reveal_strlit("\n");
    assert(m =~= head + tail);
    assert(m.len() - (escaped(a.summary_text()).len() + 1) == head.len());
    assert((head + tail).skip(head.len() as int) =~= tail);
    let line = "\n`"@ + decimal(b.spec_updates() as nat) + " updates`\n"@;
    assert(item_markdown(b) =~= head + tail + line);
}

fn push_item(out: &mut String, item: &DigestItem)
    ensures
        final(out)@ == old(out)@ + item_markdown(*item),
{
    append(out, "\n**");
    push_escaped(out, item.source.as_str());
    append(out, " · ");
    push_escaped(out, item.sender.as_str());
    append(out, " · ");
    push_escaped(out, item.age.as_str());
    append(out, "**\n\n");
    push_escaped(out, item.summary.as_str());
    append(out, "\n");
    if item.updates > 1 {
        append(out, "\n`");
        push_decimal(out, item.updates as u64);
        append(out, " updates`\n");
    }
    proof {
        let d = if item.spec_updates() > 1 {
            "\n`"@ + decimal(item.spec_updates() as nat) + " updates`\n"@
        } else {
            Seq::<char>::empty()
        };
        assert(final(out)@ =~= old(out)@ + item_markdown(*item));
    }
}

/// Packing the items `k..limit` of one section against the budget: the dots
/// used at the end, the items admitted, and their markdown. An item is
/// admitted when it fits together with the section heading that its section
/// still needs.
pub open spec fn pack(
    items: Seq<DigestItem>,
    section: Section,
    k: int,
    limit: int,
    used: int,
    written: bool,
) -> (int, int, Seq<char>)
    decreases limit - k,
{
    if k >= limit {
        (used, 0, Seq::empty())
    } else if items[k].spec_section() != section {
        pack(items, section, k + 1, limit, used, written)
    } else {
        let cost = (if written {
            0int
        } else {
            37int
        }) + item_dots(items[k]);
        if used + cost > 800 {
            pack(items, section, k + 1, limit, used, written)
        } else {
            let head = if written {
                Seq::empty()
            } else {
                "\n## "@ + section.spec_label() + "\n"@
            };
            let rest = pack(items, section, k + 1, limit, used + cost, true);
            (rest.0, rest.1 + 1, head + item_markdown(items[k]) + rest.2)
        }
    }
}

/// Packing the sections `s..4` in order.
pub open spec fn pack_sections(items: Seq<DigestItem>, limit: int, s: int, used: int) -> (
    int,
    int,
    Seq<char>,
)
    decreases 4 - s,
{
    if s < 0 || s >= 4 {
        (used, 0, Seq::empty())
    } else {
        let p = pack(items, section_at(s), 0, limit, used, false);
        let rest = pack_sections(items, limit, s + 1, p.0);
        (rest.0, p.1 + rest.1, p.2 + rest.2)
    }
}

/// The number of items `k..limit` in `section`.
pub open spec fn section_count(items: Seq<DigestItem>, section: Section, k: int, limit: int) -> int
    decreases limit - k,
{
    if k >= limit {
        0
    } else {
        section_count(items, section, k + 1, limit) + if items[k].spec_section() == section {
            1int
        } else {
            0int
        }
    }
}

proof fn lemma_pack_bounds(
    items: Seq<DigestItem>,
    section: Section,
    k: int,
    limit: int,
    used: int,
    written: bool,
)
    requires
        used <= 800,
    ensures
        used <= pack(items, section, k, limit, used, written).0 <= 800,
        0 <= pack(items, section, k, limit, used, written).1 <= section_count(
            items,
            section,
            k,
            limit,
        ),
    decreases limit - k,
{
    if k < limit {
        lemma_pack_bounds(items, section, k + 1, limit, used, written);
        let cost = (if written {
            0int
        } else {
            37int
        }) + item_dots(items[k]);
        if items[k].spec_section() == section && used + cost <= 800 {
            lemma_pack_bounds(items, section, k + 1, limit, used + cost, true);
        }
    }
}

proof fn lemma_pack_sections_bounds(items: Seq<DigestItem>, limit: int, s: int, used: int)
    requires
        used <= 800,
        0 <= s <= 4,
    ensures
        used <= pack_sections(items, limit, s, used).0 <= 800,
        0 <= pack_sections(items, limit, s, used).1 <= (if s <= 0 {
            section_count(items, Section::People, 0, limit)
        } else {
            0
        }) + (if s <= 1 {
            section_count(items, Section::Work, 0, limit)
        } else {
            0
        }) + (if s <= 2 {
            section_count(items, Section::Mail, 0, limit)
        } else {
            0
        }) + (if s <= 3 {
            section_count(items, Section::Network, 0, limit)
        } else {
            0
        }),
    decreases 4 - s,
{
    if s < 4 {
        lemma_pack_bounds(items, section_at(s), 0, limit, used, false);
        let p = pack(items, section_at(s), 0, limit, used, false);
        lemma_pack_sections_bounds(items, limit, s + 1, p.0);
    }
}

proof fn lemma_section_counts(items: Seq<DigestItem>, k: int, limit: int)
    requires
        k <= limit,
    ensures
        section_count(items, Section::People, k, limit) + section_count(items, Section::Work, k, limit)
            + section_count(items, Section::Mail, k, limit) + section_count(
            items,
            Section::Network,
            k,
            limit,
        ) == limit - k,
    decreases limit - k,
{
    if k < limit {
        lemma_section_counts(items, k + 1, limit);
    }
}


/// A digest edition: a title, an identifier, the items it may print, and how
/// many items there were in all.
#[derive(Debug, Clone, PartialEq, Eq)]
pub struct Digest {
    title: PaperText,
    id: PaperText,
    items: Vec<DigestItem>,
    total_items: usize,
}

impl Digest {
    pub closed spec fn title_text(&self) -> Seq<char> {
        self.title@
    }

    pub closed spec fn id_text(&self) -> Seq<char> {
        self.id@
    }

    pub closed spec fn spec_items(&self) -> Seq<DigestItem> {
        self.items@
    }

    pub closed spec fn spec_total(&self) -> int {
        self.total_items as int
    }

    /// The total counts at least the items supplied.
    pub open spec fn wf(&self) -> bool {
        self.spec_total() >= self.spec_items().len()
    }

    pub fn parse(title: &str, id: &str, items: Vec<DigestItem>, total_items: usize) -> (r: Result<
        Self,
        PaperError,
    >)
        ensures
            total_items < items@.len() ==> (r matches Err(
                PaperError::TotalBelowItems { total, items: n },
            ) && total == total_items && n == items@.len()),
            total_items >= items@.len() ==> match (paper_text(title@), paper_text(id@)) {
                (Err(e), _) => r == Err::<Self, PaperError>(e),
                (Ok(_), Err(e)) => r == Err::<Self, PaperError>(e),
                (Ok(t), Ok(i)) => r matches Ok(d) && d.title_text() == t && d.id_text() == i
                    && d.spec_items() == items@ && d.spec_total() == total_items && d.wf(),
            },
    {
        if total_items < items.len() {
            return Err(PaperError::TotalBelowItems { total: total_items, items: items.len() });
        }
        let title = match PaperText::parse(title) {
            Ok(p) => p,
            Err(e) => {
                return Err(e);
            },
        };
        let id = match PaperText::parse(id) {
            Ok(p) => p,
            Err(e) => {
                return Err(e);
            },
        };
        Ok(Digest { title, id, items, total_items })
    }
}

/// An urgent single-notice edition.
#[derive(Debug, Clone, PartialEq, Eq)]
pub struct Interrupt {
    title: PaperText,
    source: PaperText,
    sender: PaperText,
    age: PaperText,
    summary: ProjectedCopy,
    id: PaperText,
}

impl Interrupt {
    pub closed spec fn title_text(&self) -> Seq<char> {
        self.title@
    }

    pub closed spec fn source_text(&self) -> Seq<char> {
        self.source@
    }

    pub closed spec fn sender_text(&self) -> Seq<char> {
        self.sender@
    }

    pub closed spec fn age_text(&self) -> Seq<char> {
        self.age@
    }

    pub closed spec fn summary_text(&self) -> Seq<char> {
        self.summary@
    }

    pub closed spec fn id_text(&self) -> Seq<char> {
        self.id@
    }

    pub fn parse(
        title: &str,
        source: &str,
        sender: &str,
        age: &str,
        summary: ProjectedCopy,
        id: &str,
    ) -> (r: Result<Self, PaperError>)
        ensures
            match (
                paper_text(title@),
                paper_text(source@),
                paper_text(sender@),
                paper_text(age@),
                paper_text(id@),
            ) {
                (Err(e), _, _, _, _) => r == Err::<Self, PaperError>(e),
                (Ok(_), Err(e), _, _, _) => r == Err::<Self, PaperError>(e),
                (Ok(_), Ok(_), Err(e), _, _) => r == Err::<Self, PaperError>(e),
                (Ok(_), Ok(_), Ok(_), Err(e), _) => r == Err::<Self, PaperError>(e),
                (Ok(_), Ok(_), Ok(_), Ok(_), Err(e)) => r == Err::<Self, PaperError>(e),
                (Ok(t), Ok(o), Ok(n), Ok(a), Ok(d)) => r matches Ok(i) && i.title_text() == t
                    && i.source_text() == o && i.sender_text() == n && i.age_text() == a
                    && i.id_text() == d && i.summary_text() == summary@,
            },
    {
        let title = match PaperText::parse(title) {
            Ok(p) => p,
            Err(e) => {
                return Err(e);
            },
        };
        let source = match PaperText::parse(source) {
            Ok(p) => p,
            Err(e) => {
                return Err(e);
            },
        };
        let sender = match PaperText::parse(sender) {
            Ok(p) => p,
            Err(e) => {
                return Err(e);
            },
        };
        let age = match PaperText::parse(age) {
            Ok(p) => p,
            Err(e) => {
                return Err(e);
            },
        };
        let id = match PaperText::parse(id) {
            Ok(p) => p,
            Err(e) => {
                return Err(e);
            },
        };
        Ok(Interrupt { title, source, sender, age, summary, id })
    }
}

/// Markdown for the tape, with its estimated height and how many notices it
/// printed and left out.
#[derive(Debug, Clone, PartialEq, Eq)]
pub struct RenderedEdition {
    pub markdown: String,
    pub estimated_height_dots: u32,
    pub included: usize,
    pub omitted: usize,
}

/// An edition lowered to printer commands and bytes.
#[derive(Debug, Clone, PartialEq, Eq)]
pub struct CompiledEdition {
    pub document: Document,
    pub bytes: Vec<u8>,
    pub height_dots: u32,
}

/// The dots of tape spent so far.
struct TapeBudget {
    used: u32,
}

impl TapeBudget {
    fn new(base: u32) -> (b: Self)
        ensures
            b.used == base,
    {
        TapeBudget { used: base }
    }

    fn admits(&self, dots: u32) -> (r: bool)
        ensures
            r == (self.used + dots <= MAX_TAPE_DOTS),
    {
        self.used.saturating_add(dots) <= MAX_TAPE_DOTS
    }

    fn charge(&mut self, dots: u32)
        requires
            old(self).used + dots <= u32::MAX,
        ensures
            final(self).used == old(self).used + dots,
    {
        self.used = self.used + dots;
    }
}

/// The number of items a digest considers: at most seven.
pub open spec fn digest_limit(d: Digest) -> int {
    if d.spec_items().len() < 7 {
        d.spec_items().len() as int
    } else {
        7
    }
}

/// The packed body of a digest: dots used, items printed, markdown.
pub open spec fn digest_body(d: Digest) -> (int, int, Seq<char>) {
    pack_sections(d.spec_items(), digest_limit(d), 0, 157)
}

/// Items counted in the total but not printed.
pub open spec fn digest_omitted(d: Digest) -> int {
    if d.spec_total() > digest_body(d).1 {
        d.spec_total() - digest_body(d).1
    } else {
        0
    }
}

/// The markdown of a digest.
pub open spec fn digest_markdown(d: Digest) -> Seq<char> {
    "# "@ + escaped(d.title_text()) + "\n\n---\n"@ + digest_body(d).2 + "\n---\n\n`"@ + escaped(
        d.id_text(),
    ) + "`"@ + (if digest_omitted(d) > 0 {
        " · "@ + decimal(digest_omitted(d) as nat) + " more online"@
    } else {
        Seq::empty()
    }) + "\n"@
}

/// Pack a digest onto at most `MAX_TAPE_DOTS` of tape: sections in order,
/// within each the first seven items in order, each admitted while it fits.
pub fn render_digest(digest: &Digest) -> (r: RenderedEdition)
    requires
        forall|k: int|
            0 <= k < digest_limit(*digest) ==> item_dots(#[trigger] digest.spec_items()[k]) + 37
                <= u32::MAX,
    ensures
        r.markdown@ == digest_markdown(*digest),
        r.estimated_height_dots == digest_body(*digest).0,
        r.included == digest_body(*digest).1,
        r.omitted == digest_omitted(*digest),
        r.estimated_height_dots <= MAX_TAPE_DOTS,
        r.included <= MAX_DIGEST_ITEMS,
        r.included <= digest.spec_items().len(),
        digest.wf() ==> r.included + r.omitted == digest.spec_total(),
{
    let items = &digest.items;
    let mut budget = TapeBudget::new(MASTHEAD_DOTS + RULE_DOTS + FOOTER_DOTS);
    let mut markdown = String::new();
    append(&mut markdown, "# ");
    push_escaped(&mut markdown, digest.title.as_str());
    append(&mut markdown, "\n\n---\n");
    let ghost head = markdown@;
    let mut included: usize = 0;
    let limit: usize = if items.len() < MAX_DIGEST_ITEMS {
        items.len()
    } else {
        MAX_DIGEST_ITEMS
    };
    let ghost whole = pack_sections(items@, limit as int, 0, 157);
    proof {
        lemma_pack_sections_bounds(items@, limit as int, 0, 157);
        lemma_section_counts(items@, 0, limit as int);
    }
    let mut s: usize = 0;
    while s < 4
        invariant
            items@ == digest.spec_items(),
            limit as int == digest_limit(*digest),
            limit <= 7,
            limit <= items@.len(),
            forall|k: int| 0 <= k < limit ==> item_dots(#[trigger] items@[k]) + 37 <= u32::MAX,
            s <= 4,
            budget.used <= 800,
            included <= 7 * s,
            whole == pack_sections(items@, limit as int, 0, 157),
            whole.0 == pack_sections(items@, limit as int, s as int, budget.used as int).0,
            whole.1 == included + pack_sections(items@, limit as int, s as int, budget.used as int).1,
            head + whole.2 == markdown@ + pack_sections(
                items@,
                limit as int,
                s as int,
                budget.used as int,
            ).2,
        decreases 4 - s,
    {
        let section = section_from(s);
        let ghost start_used = budget.used as int;
        let ghost start_included = included as int;
        let ghost start_md = markdown@;
        let ghost sect = pack(items@, section, 0, limit as int, start_used, false);
        let mut written = false;
        let mut k: usize = 0;
        while k < limit
            invariant
                items@ == digest.spec_items(),
                limit <= 7,
                limit <= items@.len(),
                forall|j: int| 0 <= j < limit ==> item_dots(#[trigger] items@[j]) + 37 <= u32::MAX,
                k <= limit,
                budget.used <= 800,
                included <= start_included + k,
                start_included <= 7 * s,
                s < 4,
                sect == pack(items@, section, 0, limit as int, start_used, false),
                sect.0 == pack(items@, section, k as int, limit as int, budget.used as int, written).0,
                start_included + sect.1 == included + pack(
                    items@,
                    section,
                    k as int,
                    limit as int,
                    budget.used as int,
                    written,
                ).1,
                start_md + sect.2 == markdown@ + pack(
                    items@,
                    section,
                    k as int,
                    limit as int,
                    budget.used as int,
                    written,
                ).2,
            decreases limit - k,
        {
            let item = &items[k];
            if item.section == section {
                let dots = item.estimated_dots();
                let section_cost: u32 = if written {
                    0
                } else {
                    HEAD_DOTS
                };
                let cost = section_cost + dots;
                if budget.admits(cost) {
                    let ghost before_md = markdown@;
                    if !written {
                        append(&mut markdown, "\n## ");
                        append(&mut markdown, section.label());
                        append(&mut markdown, "\n");
                        budget.charge(HEAD_DOTS);
                    }
                    let ghost with_head = markdown@;
                    push_item(&mut markdown, item);
                    budget.charge(dots);
                    included = included + 1;
                    proof {
                        let h = if written {
                            Seq::<char>::empty()
                        } else {
                            "\n## "@ + section.spec_label() + "\n"@
                        };
                        assert(with_head =~= before_md + h);
                        assert(markdown@ =~= before_md + (h + item_markdown(items@[k as int])));
                    }
                    written = true;
                }
            }
            k = k + 1;
        }
        s = s + 1;
        proof {
            assert(markdown@ =~= start_md + sect.2);
        }
    }
    let used = budget.used;
    let omitted = digest.total_items.saturating_sub(included);
    append(&mut markdown, "\n---\n\n`");
    push_escaped(&mut markdown, digest.id.as_str());
    append(&mut markdown, "`");
    let ghost before_tail = markdown@;
    if omitted > 0 {
        append(&mut markdown, " · ");
        push_decimal(&mut markdown, omitted as u64);
        append(&mut markdown, " more online");
    }
    append(&mut markdown, "\n");
    proof {
        let tail = if omitted > 0 {
            " · "@ + decimal(omitted as nat) + " more online"@
        } else {
            Seq::<char>::empty()
        };
        assert(markdown@ =~= "# "@ + escaped(digest.title_text()) + "\n\n---\n"@ + whole.2
            + "\n---\n\n`"@ + escaped(digest.id_text()) + "`"@ + tail + "\n"@);
    }
    RenderedEdition { markdown, estimated_height_dots: used, included, omitted }
}

/// The estimated height of an interrupt edition.
pub open spec fn interrupt_dots(i: Interrupt) -> int {
    102 + 18 + 37 + wrapped_lines_of(i.summary_text().len()) * 37 + 37
}

/// The markdown of an interrupt edition.
pub open spec fn interrupt_markdown(i: Interrupt) -> Seq<char> {
    "# "@ + escaped(i.title_text()) + "\n\n---\n\n**"@ + escaped(i.source_text()) + " · "@
        + escaped(i.sender_text()) + " · "@ + escaped(i.age_text()) + "**\n\n"@ + escaped(
        i.summary_text(),
    ) + "\n\n---\n\n`"@ + escaped(i.id_text()) + "`\n"@
}

/// Render an interrupt, refusing one taller than `MAX_TAPE_DOTS`.
pub fn render_interrupt(interrupt: &Interrupt) -> (r: Result<RenderedEdition, PaperError>)
    requires
        interrupt_dots(*interrupt) <= u32::MAX,
    ensures
        interrupt_dots(*interrupt) > 800 ==> (r matches Err(PaperError::TooTall { height, limit })
            && height == interrupt_dots(*interrupt) && limit == MAX_TAPE_DOTS),
        interrupt_dots(*interrupt) <= 800 ==> (r matches Ok(e) && e.markdown@ == interrupt_markdown(
            *interrupt,
        ) && e.estimated_height_dots == interrupt_dots(*interrupt) && e.included == 1
            && e.omitted == 0),
{
    let summary_dots = wrapped_lines(interrupt.summary.as_str()) * BODY_LINE_DOTS;
    let estimated_height_dots = MASTHEAD_DOTS + RULE_DOTS + BODY_LINE_DOTS + summary_dots
        + FOOTER_DOTS;
    if estimated_height_dots > MAX_TAPE_DOTS {
        return Err(PaperError::TooTall { height: estimated_height_dots, limit: MAX_TAPE_DOTS });
    }
    let mut markdown = String::new();
    append(&mut markdown, "# ");
    push_escaped(&mut markdown, interrupt.title.as_str());
    append(&mut markdown, "\n\n---\n\n**");
    push_escaped(&mut markdown, interrupt.source.as_str());
    append(&mut markdown, " · ");
    push_escaped(&mut markdown, interrupt.sender.as_str());
    append(&mut markdown, " · ");
    push_escaped(&mut markdown, interrupt.age.as_str());
    append(&mut markdown, "**\n\n");
    push_escaped(&mut markdown, interrupt.summary.as_str());
    append(&mut markdown, "\n\n---\n\n`");
    push_escaped(&mut markdown, interrupt.id.as_str());
    append(&mut markdown, "`\n");
    assert(markdown@ =~= interrupt_markdown(*interrupt));
    Ok(RenderedEdition { markdown, estimated_height_dots, included: 1, omitted: 0 })
}

#[derive(Debug)]
pub enum PaperError {
    EmptyText,
    ControlCharacter,
    MissingExcerpt(Privacy),
    TotalBelowItems { total: usize, items: usize },
    TooTall { height: u32, limit: u32 },
    Encode(EncodeError),
}

} // verus!
