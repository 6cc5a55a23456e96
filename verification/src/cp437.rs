//! Unicode → CP437 mapping for TM-T20III block art and text.

use vstd::prelude::*;

verus! {

/// The CP437 byte of a non-ASCII character, where code page 437 has one.
pub open spec fn spec_map_extended(ch: char) -> Option<u8> {
    match ch {
        '░' => Some(0xb0u8),
        '▒' => Some(0xb1u8),
        '▓' => Some(0xb2u8),
        '█' => Some(0xdbu8),
        '▄' => Some(0xdcu8),
        '▌' => Some(0xddu8),
        '▐' => Some(0xdeu8),
        '▀' => Some(0xdfu8),
        '■' => Some(0xfeu8),
        '─' => Some(0xc4u8),
        '│' => Some(0xb3u8),
        '┌' => Some(0xdau8),
        '┐' => Some(0xbfu8),
        '└' => Some(0xc0u8),
        '┘' => Some(0xd9u8),
        '├' => Some(0xc3u8),
        '┤' => Some(0xb4u8),
        '┬' => Some(0xc2u8),
        '┴' => Some(0xc1u8),
        '┼' => Some(0xc5u8),
        '═' => Some(0xcdu8),
        '║' => Some(0xbau8),
        '╔' => Some(0xc9u8),
        '╗' => Some(0xbbu8),
        '╚' => Some(0xc8u8),
        '╝' => Some(0xbcu8),
        '╠' => Some(0xccu8),
        '╣' => Some(0xb9u8),
        '╦' => Some(0xcbu8),
        '╩' => Some(0xcau8),
        '╬' => Some(0xceu8),
        '╒' => Some(0xd5u8),
        '╓' => Some(0xd6u8),
        '╕' => Some(0xb8u8),
        '╖' => Some(0xb7u8),
        '╘' => Some(0xd4u8),
        '╙' => Some(0xd3u8),
        '╛' => Some(0xbeu8),
        '╜' => Some(0xbdu8),
        '╞' => Some(0xc6u8),
        '╟' => Some(0xc7u8),
        '╡' => Some(0xb5u8),
        '╢' => Some(0xb6u8),
        '╤' => Some(0xd1u8),
        '╥' => Some(0xd2u8),
        '╧' => Some(0xcfu8),
        '╨' => Some(0xd0u8),
        '╪' => Some(0xd8u8),
        '╫' => Some(0xd7u8),
        '°' => Some(0xf8u8),
        '·' => Some(0xfau8),
        '∙' | '•' => Some(0xf9u8),
        '√' => Some(0xfbu8),
        '±' => Some(0xf1u8),
        '≈' => Some(0xf7u8),
        '∞' => Some(0xecu8),
        '²' => Some(0xfdu8),
        'ⁿ' => Some(0xfcu8),
        '÷' => Some(0xf6u8),
        '≥' => Some(0xf2u8),
        '≤' => Some(0xf3u8),
        '≡' => Some(0xf0u8),
        '∩' => Some(0xefu8),
        '⌐' => Some(0xa9u8),
        '¬' => Some(0xaau8),
        '½' => Some(0xabu8),
        '¼' => Some(0xacu8),
        '¡' => Some(0xadu8),
        '¿' => Some(0xa8u8),
        '«' => Some(0xaeu8),
        '»' => Some(0xafu8),
        '¢' => Some(0x9bu8),
        '£' => Some(0x9cu8),
        '¥' => Some(0x9du8),
        '₧' => Some(0x9eu8),
        'ƒ' => Some(0x9fu8),
        'ª' => Some(0xa6u8),
        'º' => Some(0xa7u8),
        '⌠' => Some(0xf4u8),
        '⌡' => Some(0xf5u8),
        'α' => Some(0xe0u8),
        'ß' | 'β' => Some(0xe1u8),
        'Γ' => Some(0xe2u8),
        'π' => Some(0xe3u8),
        'Σ' => Some(0xe4u8),
        'σ' => Some(0xe5u8),
        'µ' | 'μ' => Some(0xe6u8),
        'τ' => Some(0xe7u8),
        'Φ' => Some(0xe8u8),
        'Θ' | 'θ' => Some(0xe9u8),
        'Ω' => Some(0xeau8),
        'δ' => Some(0xebu8),
        'φ' => Some(0xedu8),
        'ε' => Some(0xeeu8),
        'Ç' => Some(0x80u8),
        'ü' => Some(0x81u8),
        'é' => Some(0x82u8),
        'â' => Some(0x83u8),
        'ä' => Some(0x84u8),
        'à' => Some(0x85u8),
        'å' => Some(0x86u8),
        'ç' => Some(0x87u8),
        'ê' => Some(0x88u8),
        'ë' => Some(0x89u8),
        'è' => Some(0x8au8),
        'ï' => Some(0x8bu8),
        'î' => Some(0x8cu8),
        'ì' => Some(0x8du8),
        'Ä' => Some(0x8eu8),
        'Å' => Some(0x8fu8),
        'É' => Some(0x90u8),
        'æ' => Some(0x91u8),
        'Æ' => Some(0x92u8),
        'ô' => Some(0x93u8),
        'ö' => Some(0x94u8),
        'ò' => Some(0x95u8),
        'û' => Some(0x96u8),
        'ù' => Some(0x97u8),
        'ÿ' => Some(0x98u8),
        'Ö' => Some(0x99u8),
        'Ü' => Some(0x9au8),
        'á' => Some(0xa0u8),
        'í' => Some(0xa1u8),
        'ó' => Some(0xa2u8),
        'ú' => Some(0xa3u8),
        'ñ' => Some(0xa4u8),
        'Ñ' => Some(0xa5u8),
        _ => None,
    }
}

/// The published code page 437 table, upper half: the character each byte
/// from 0x80 up prints as.
pub open spec fn code_page_437(b: u8) -> Option<char> {
    match b {
        0x80u8 => Some('\u{c7}'),  // Ç
        0x81u8 => Some('\u{fc}'),  // ü
        0x82u8 => Some('\u{e9}'),  // é
        0x83u8 => Some('\u{e2}'),  // â
        0x84u8 => Some('\u{e4}'),  // ä
        0x85u8 => Some('\u{e0}'),  // à
        0x86u8 => Some('\u{e5}'),  // å
        0x87u8 => Some('\u{e7}'),  // ç
        0x88u8 => Some('\u{ea}'),  // ê
        0x89u8 => Some('\u{eb}'),  // ë
        0x8au8 => Some('\u{e8}'),  // è
        0x8bu8 => Some('\u{ef}'),  // ï
        0x8cu8 => Some('\u{ee}'),  // î
        0x8du8 => Some('\u{ec}'),  // ì
        0x8eu8 => Some('\u{c4}'),  // Ä
        0x8fu8 => Some('\u{c5}'),  // Å
        0x90u8 => Some('\u{c9}'),  // É
        0x91u8 => Some('\u{e6}'),  // æ
        0x92u8 => Some('\u{c6}'),  // Æ
        0x93u8 => Some('\u{f4}'),  // ô
        0x94u8 => Some('\u{f6}'),  // ö
        0x95u8 => Some('\u{f2}'),  // ò
        0x96u8 => Some('\u{fb}'),  // û
        0x97u8 => Some('\u{f9}'),  // ù
        0x98u8 => Some('\u{ff}'),  // ÿ
        0x99u8 => Some('\u{d6}'),  // Ö
        0x9au8 => Some('\u{dc}'),  // Ü
        0x9bu8 => Some('\u{a2}'),  // ¢
        0x9cu8 => Some('\u{a3}'),  // £
        0x9du8 => Some('\u{a5}'),  // ¥
        0x9eu8 => Some('\u{20a7}'),  // ₧
        0x9fu8 => Some('\u{192}'),  // ƒ
        0xa0u8 => Some('\u{e1}'),  // á
        0xa1u8 => Some('\u{ed}'),  // í
        0xa2u8 => Some('\u{f3}'),  // ó
        0xa3u8 => Some('\u{fa}'),  // ú
        0xa4u8 => Some('\u{f1}'),  // ñ
        0xa5u8 => Some('\u{d1}'),  // Ñ
        0xa6u8 => Some('\u{aa}'),  // ª
        0xa7u8 => Some('\u{ba}'),  // º
        0xa8u8 => Some('\u{bf}'),  // ¿
        0xa9u8 => Some('\u{2310}'),  // ⌐
        0xaau8 => Some('\u{ac}'),  // ¬
        0xabu8 => Some('\u{bd}'),  // ½
        0xacu8 => Some('\u{bc}'),  // ¼
        0xadu8 => Some('\u{a1}'),  // ¡
        0xaeu8 => Some('\u{ab}'),  // «
        0xafu8 => Some('\u{bb}'),  // »
        0xb0u8 => Some('\u{2591}'),  // ░
        0xb1u8 => Some('\u{2592}'),  // ▒
        0xb2u8 => Some('\u{2593}'),  // ▓
        0xb3u8 => Some('\u{2502}'),  // │
        0xb4u8 => Some('\u{2524}'),  // ┤
        0xb5u8 => Some('\u{2561}'),  // ╡
        0xb6u8 => Some('\u{2562}'),  // ╢
        0xb7u8 => Some('\u{2556}'),  // ╖
        0xb8u8 => Some('\u{2555}'),  // ╕
        0xb9u8 => Some('\u{2563}'),  // ╣
        0xbau8 => Some('\u{2551}'),  // ║
        0xbbu8 => Some('\u{2557}'),  // ╗
        0xbcu8 => Some('\u{255d}'),  // ╝
        0xbdu8 => Some('\u{255c}'),  // ╜
        0xbeu8 => Some('\u{255b}'),  // ╛
        0xbfu8 => Some('\u{2510}'),  // ┐
        0xc0u8 => Some('\u{2514}'),  // └
        0xc1u8 => Some('\u{2534}'),  // ┴
        0xc2u8 => Some('\u{252c}'),  // ┬
        0xc3u8 => Some('\u{251c}'),  // ├
        0xc4u8 => Some('\u{2500}'),  // ─
        0xc5u8 => Some('\u{253c}'),  // ┼
        0xc6u8 => Some('\u{255e}'),  // ╞
        0xc7u8 => Some('\u{255f}'),  // ╟
        0xc8u8 => Some('\u{255a}'),  // ╚
        0xc9u8 => Some('\u{2554}'),  // ╔
        0xcau8 => Some('\u{2569}'),  // ╩
        0xcbu8 => Some('\u{2566}'),  // ╦
        0xccu8 => Some('\u{2560}'),  // ╠
        0xcdu8 => Some('\u{2550}'),  // ═
        0xceu8 => Some('\u{256c}'),  // ╬
        0xcfu8 => Some('\u{2567}'),  // ╧
        0xd0u8 => Some('\u{2568}'),  // ╨
        0xd1u8 => Some('\u{2564}'),  // ╤
        0xd2u8 => Some('\u{2565}'),  // ╥
        0xd3u8 => Some('\u{2559}'),  // ╙
        0xd4u8 => Some('\u{2558}'),  // ╘
        0xd5u8 => Some('\u{2552}'),  // ╒
        0xd6u8 => Some('\u{2553}'),  // ╓
        0xd7u8 => Some('\u{256b}'),  // ╫
        0xd8u8 => Some('\u{256a}'),  // ╪
        0xd9u8 => Some('\u{2518}'),  // ┘
        0xdau8 => Some('\u{250c}'),  // ┌
        0xdbu8 => Some('\u{2588}'),  // █
        0xdcu8 => Some('\u{2584}'),  // ▄
        0xddu8 => Some('\u{258c}'),  // ▌
        0xdeu8 => Some('\u{2590}'),  // ▐
        0xdfu8 => Some('\u{2580}'),  // ▀
        0xe0u8 => Some('\u{3b1}'),  // α
        0xe1u8 => Some('\u{df}'),  // ß
        0xe2u8 => Some('\u{393}'),  // Γ
        0xe3u8 => Some('\u{3c0}'),  // π
        0xe4u8 => Some('\u{3a3}'),  // Σ
        0xe5u8 => Some('\u{3c3}'),  // σ
        0xe6u8 => Some('\u{b5}'),  // µ
        0xe7u8 => Some('\u{3c4}'),  // τ
        0xe8u8 => Some('\u{3a6}'),  // Φ
        0xe9u8 => Some('\u{398}'),  // Θ
        0xeau8 => Some('\u{3a9}'),  // Ω
        0xebu8 => Some('\u{3b4}'),  // δ
        0xecu8 => Some('\u{221e}'),  // ∞
        0xedu8 => Some('\u{3c6}'),  // φ
        0xeeu8 => Some('\u{3b5}'),  // ε
        0xefu8 => Some('\u{2229}'),  // ∩
        0xf0u8 => Some('\u{2261}'),  // ≡
        0xf1u8 => Some('\u{b1}'),  // ±
        0xf2u8 => Some('\u{2265}'),  // ≥
        0xf3u8 => Some('\u{2264}'),  // ≤
        0xf4u8 => Some('\u{2320}'),  // ⌠
        0xf5u8 => Some('\u{2321}'),  // ⌡
        0xf6u8 => Some('\u{f7}'),  // ÷
        0xf7u8 => Some('\u{2248}'),  // ≈
        0xf8u8 => Some('\u{b0}'),  // °
        0xf9u8 => Some('\u{2219}'),  // ∙
        0xfau8 => Some('\u{b7}'),  // ·
        0xfbu8 => Some('\u{221a}'),  // √
        0xfcu8 => Some('\u{207f}'),  // ⁿ
        0xfdu8 => Some('\u{b2}'),  // ²
        0xfeu8 => Some('\u{25a0}'),  // ■
        0xffu8 => Some('\u{a0}'),  // no-break space
        _ => None,
    }
}

/// The character a look-alike stands for on the tape: the bullet prints as
/// the bullet operator, Greek beta as sharp s, Greek mu as the micro sign,
/// small theta as capital theta; every other character stands for itself.
pub open spec fn printed_as(ch: char) -> char {
    match ch {
        '\u{2022}' => '\u{2219}',
        '\u{3b2}' => '\u{df}',
        '\u{3bc}' => '\u{b5}',
        '\u{3b8}' => '\u{398}',
        _ => ch,
    }
}

/// Every mapped character gets the byte that code page 437 prints as that
/// character: decoding the byte with the published table gives the
/// character back (up to the four look-alikes above). Mapped bytes are all
/// in the upper half.
pub proof fn lemma_mapped_byte_decodes(ch: char)
    ensures
        spec_map_extended(ch) matches Some(b) ==> 0x80 <= b && code_page_437(b) == Some(
            printed_as(ch),
        ),
{
}

/// Typographic punctuation folded to its ASCII form.
pub open spec fn spec_normalize(ch: char) -> Option<char> {
    match ch {
        '\u{2018}' | '\u{2019}' | '\u{02bc}' => Some('\''),
        '\u{201c}' | '\u{201d}' => Some('"'),
        '\u{2010}' | '\u{2011}' | '\u{2012}' | '\u{2013}' | '\u{2014}' | '\u{2015}'
        | '\u{2212}' => Some('-'),
        '\u{00a0}' => Some(' '),
        _ => None,
    }
}

/// The printer bytes for one character: an ellipsis is three dots, LF stays,
/// printable ASCII passes through, mapped characters take their CP437 byte,
/// other C0 controls and DEL vanish, and anything else becomes `?`.
pub open spec fn cp437_char(c: char) -> Seq<u8> {
    if c == '\u{2026}' {
        seq![0x2eu8, 0x2eu8, 0x2eu8]
    } else {
        let ch = match spec_normalize(c) {
            Some(n) => n,
            None => c,
        };
        let code = ch as u32;
        if ch == '\n' {
            seq![0x0au8]
        } else if 0x20 <= code <= 0x7e {
            seq![code as u8]
        } else {
            match spec_map_extended(ch) {
                Some(m) => seq![m],
                None => if code >= 0x20 && code != 0x7f {
                    seq![0x3fu8]
                } else {
                    Seq::empty()
                },
            }
        }
    }
}

/// The CP437 bytes of a whole text: the concatenation of its characters' bytes.
pub open spec fn spec_cp437(s: Seq<char>) -> Seq<u8>
    decreases s.len(),
{
    if s.len() == 0 {
        Seq::empty()
    } else {
        spec_cp437(s.drop_last()) + cp437_char(s.last())
    }
}

fn map_extended(ch: char) -> (r: Option<u8>)
    ensures
        r == spec_map_extended(ch),
{
    Some(match ch {
        '░' => 0xb0,
        '▒' => 0xb1,
        '▓' => 0xb2,
        '█' => 0xdb,
        '▄' => 0xdc,
        '▌' => 0xdd,
        '▐' => 0xde,
        '▀' => 0xdf,
        '■' => 0xfe,
        '─' => 0xc4,
        '│' => 0xb3,
        '┌' => 0xda,
        '┐' => 0xbf,
        '└' => 0xc0,
        '┘' => 0xd9,
        '├' => 0xc3,
        '┤' => 0xb4,
        '┬' => 0xc2,
        '┴' => 0xc1,
        '┼' => 0xc5,
        '═' => 0xcd,
        '║' => 0xba,
        '╔' => 0xc9,
        '╗' => 0xbb,
        '╚' => 0xc8,
        '╝' => 0xbc,
        '╠' => 0xcc,
        '╣' => 0xb9,
        '╦' => 0xcb,
        '╩' => 0xca,
        '╬' => 0xce,
        '╒' => 0xd5,
        '╓' => 0xd6,
        '╕' => 0xb8,
        '╖' => 0xb7,
        '╘' => 0xd4,
        '╙' => 0xd3,
        '╛' => 0xbe,
        '╜' => 0xbd,
        '╞' => 0xc6,
        '╟' => 0xc7,
        '╡' => 0xb5,
        '╢' => 0xb6,
        '╤' => 0xd1,
        '╥' => 0xd2,
        '╧' => 0xcf,
        '╨' => 0xd0,
        '╪' => 0xd8,
        '╫' => 0xd7,
        '°' => 0xf8,
        '·' => 0xfa,
        '∙' | '•' => 0xf9,
        '√' => 0xfb,
        '±' => 0xf1,
        '≈' => 0xf7,
        '∞' => 0xec,
        '²' => 0xfd,
        'ⁿ' => 0xfc,
        '÷' => 0xf6,
        '≥' => 0xf2,
        '≤' => 0xf3,
        '≡' => 0xf0,
        '∩' => 0xef,
        '⌐' => 0xa9,
        '¬' => 0xaa,
        '½' => 0xab,
        '¼' => 0xac,
        '¡' => 0xad,
        '¿' => 0xa8,
        '«' => 0xae,
        '»' => 0xaf,
        '¢' => 0x9b,
        '£' => 0x9c,
        '¥' => 0x9d,
        '₧' => 0x9e,
        'ƒ' => 0x9f,
        'ª' => 0xa6,
        'º' => 0xa7,
        '⌠' => 0xf4,
        '⌡' => 0xf5,
        'α' => 0xe0,
        'ß' | 'β' => 0xe1,
        'Γ' => 0xe2,
        'π' => 0xe3,
        'Σ' => 0xe4,
        'σ' => 0xe5,
        'µ' | 'μ' => 0xe6,
        'τ' => 0xe7,
        'Φ' => 0xe8,
        'Θ' | 'θ' => 0xe9,
        'Ω' => 0xea,
        'δ' => 0xeb,
        'φ' => 0xed,
        'ε' => 0xee,
        'Ç' => 0x80,
        'ü' => 0x81,
        'é' => 0x82,
        'â' => 0x83,
        'ä' => 0x84,
        'à' => 0x85,
        'å' => 0x86,
        'ç' => 0x87,
        'ê' => 0x88,
        'ë' => 0x89,
        'è' => 0x8a,
        'ï' => 0x8b,
        'î' => 0x8c,
        'ì' => 0x8d,
        'Ä' => 0x8e,
        'Å' => 0x8f,
        'É' => 0x90,
        'æ' => 0x91,
        'Æ' => 0x92,
        'ô' => 0x93,
        'ö' => 0x94,
        'ò' => 0x95,
        'û' => 0x96,
        'ù' => 0x97,
        'ÿ' => 0x98,
        'Ö' => 0x99,
        'Ü' => 0x9a,
        'á' => 0xa0,
        'í' => 0xa1,
        'ó' => 0xa2,
        'ú' => 0xa3,
        'ñ' => 0xa4,
        'Ñ' => 0xa5,
        _ => return None,
    })
}

fn normalize_char(ch: char) -> (r: Option<char>)
    ensures
        r == spec_normalize(ch),
{
    match ch {
        '\u{2018}' | '\u{2019}' | '\u{02bc}' => Some('\''),
        '\u{201c}' | '\u{201d}' => Some('"'),
        '\u{2010}' | '\u{2011}' | '\u{2012}' | '\u{2013}' | '\u{2014}' | '\u{2015}'
        | '\u{2212}' => Some('-'),
        '\u{00a0}' => Some(' '),
        _ => None,
    }
}

fn encode_char(c: char, bytes: &mut Vec<u8>)
    ensures
        final(bytes)@ == old(bytes)@ + cp437_char(c),
{
    if c == '\u{2026}' {
        bytes.push(0x2e);
        bytes.push(0x2e);
        bytes.push(0x2e);
        assert(final(bytes)@ =~= old(bytes)@ + cp437_char(c));
        return;
    }
    let ch = match normalize_char(c) {
        Some(n) => n,
        None => c,
    };
    let code = ch as u32;
    if ch == '\n' {
        bytes.push(0x0a);
    } else if 0x20 <= code && code <= 0x7e {
        bytes.push(code as u8);
    } else if let Some(mapped) = map_extended(ch) {
        bytes.push(mapped);
    } else if code >= 0x20 && code != 0x7f {
        bytes.push(0x3f);
    }
    assert(final(bytes)@ =~= old(bytes)@ + cp437_char(c));
}

/// Encode `s` as CP437 printer bytes.
///
/// Printable ASCII passes through. LF is kept. Other C0 controls are dropped.
/// Unmapped characters become `?`.
pub fn encode_cp437(s: &str) -> (bytes: Vec<u8>)
    ensures
        bytes@ == spec_cp437(s@),
{
    let mut bytes: Vec<u8> = Vec::new();
    for ch in it: s.chars()
        invariant
            it.seq() == s@,
            bytes@ == spec_cp437(s@.take(it.index() as int)),
    {
        proof {
            assert(s@.take(it.index() + 1).drop_last() == s@.take(it.index() as int));
        }
        encode_char(ch, &mut bytes);
    }
    assert(s@.take(s@.len() as int) == s@);
    bytes
}

} // verus!
