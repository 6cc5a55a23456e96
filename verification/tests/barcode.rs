use tm20::EncodeError;
use tm20::barcode::{Barcode, BarcodeKind, BarcodeOptions, Code128Set, encode, validate};

fn code(kind: BarcodeKind, data: &str) -> Barcode {
    Barcode {
        kind,
        data: data.into(),
        options: BarcodeOptions::default(),
    }
}

#[test]
fn barcode_ean13_length() {
    assert!(validate(BarcodeKind::Ean13, "5901234123457").is_ok());
    assert!(validate(BarcodeKind::Ean13, "590123412345").is_ok());
    assert!(validate(BarcodeKind::Ean13, "123").is_err());
    assert!(validate(BarcodeKind::Ean13, "590123412345a").is_err());
}

#[test]
fn barcode_upc_a_length() {
    assert!(validate(BarcodeKind::UpcA, "01234567890").is_ok());
    assert!(validate(BarcodeKind::UpcA, "012345678901").is_ok());
    assert!(validate(BarcodeKind::UpcA, "123").is_err());
}

#[test]
fn barcode_itf_even_digits() {
    assert!(validate(BarcodeKind::Itf, "1234").is_ok());
    assert!(validate(BarcodeKind::Itf, "123").is_err());
    assert!(validate(BarcodeKind::Itf, &"12".repeat(127)).is_ok());
    assert!(validate(BarcodeKind::Itf, &"12".repeat(128)).is_err());
}

#[test]
fn barcode_remaining_kinds() {
    assert!(validate(BarcodeKind::Ean8, "96385074").is_ok());
    assert!(validate(BarcodeKind::UpcE, "012345").is_ok());
    assert!(validate(BarcodeKind::Code39, "TM20").is_ok());
    assert!(validate(BarcodeKind::Codabar, "A40156B").is_ok());
    assert!(validate(BarcodeKind::Code39, "nope!").is_err());
}

#[test]
fn barcode_function_b_ean13() {
    let bytes = encode(&code(BarcodeKind::Ean13, "5901234123457")).unwrap();
    assert!(bytes.windows(4).any(|w| w == [0x1d, b'k', b'C', 13]));
    assert!(bytes.ends_with(b"5901234123457"));
    assert!(!bytes.ends_with(b"\0"));
}

#[test]
fn barcode_code128_function_b_prefixes_set() {
    let bytes = encode(&code(BarcodeKind::Code128 { set: Code128Set::B }, "TM20")).unwrap();
    assert!(bytes.windows(4).any(|w| w == [0x1d, b'k', b'I', 6]));
    assert!(bytes.ends_with(b"{BTM20"));
}

#[test]
fn barcode_code93_function_b() {
    let bytes = encode(&code(BarcodeKind::Code93, "TM20")).unwrap();
    assert!(bytes.windows(4).any(|w| w == [0x1d, b'k', b'H', 4]));
    assert!(bytes.ends_with(b"TM20"));
}

#[test]
fn barcode_code128_set_c_needs_even_digits() {
    let kind = BarcodeKind::Code128 { set: Code128Set::C };
    assert!(validate(kind, "1234").is_ok());
    assert!(validate(kind, "123").is_err());
    assert!(validate(kind, "12AB").is_err());
    let bytes = encode(&code(kind, "1234")).unwrap();
    assert!(bytes.ends_with(b"{C1234"));
}

#[test]
fn code128_set_b_escapes_literal_brace() {
    let kind = BarcodeKind::Code128 { set: Code128Set::B };
    assert!(validate(kind, "{").is_ok());
    let bytes = encode(&code(kind, "{1}")).unwrap();
    assert!(bytes.ends_with(b"{B{{1}"));
    assert!(bytes.windows(4).any(|w| w == [0x1d, b'k', b'I', 6]));
}

#[test]
fn code128_set_a_rejects_lowercase() {
    let kind = BarcodeKind::Code128 { set: Code128Set::A };
    assert!(validate(kind, "ABC").is_ok());
    assert!(validate(kind, "abc").is_err());
    assert!(validate(kind, "{").is_err());
}

#[test]
fn code128_length_counts_encoded_bytes() {
    let kind = BarcodeKind::Code128 { set: Code128Set::B };
    let max_plain = "A".repeat(253);
    assert!(validate(kind, &max_plain).is_ok());
    assert!(validate(kind, &"A".repeat(254)).is_err());
    let max_braces = "{".repeat(126);
    assert!(validate(kind, &max_braces).is_ok());
    assert!(validate(kind, &"{".repeat(127)).is_err());
}

#[test]
fn codabar_requires_start_stop() {
    assert!(validate(BarcodeKind::Codabar, "12").is_err());
    assert!(validate(BarcodeKind::Codabar, "A40156B").is_ok());
    assert!(validate(BarcodeKind::Codabar, "AB").is_ok());
    assert!(validate(BarcodeKind::Codabar, "A1B2C").is_err());
    assert!(validate(BarcodeKind::Codabar, "a40156b").is_ok());
}

#[test]
fn barcode_gs1_128() {
    assert!(validate(BarcodeKind::Gs1_128, "{1012345").is_ok());
    assert!(validate(BarcodeKind::Gs1_128, "x").is_err());
}

#[test]
fn barcode_width_rejects_one() {
    let err = encode(&Barcode {
        kind: BarcodeKind::Ean13,
        data: "5901234123457".into(),
        options: BarcodeOptions {
            width: 1,
            ..BarcodeOptions::default()
        },
    })
    .unwrap_err();
    assert!(matches!(err, EncodeError::BarcodeWidth(1)));
    assert!(
        encode(&Barcode {
            kind: BarcodeKind::Ean13,
            data: "5901234123457".into(),
            options: BarcodeOptions {
                width: 2,
                ..BarcodeOptions::default()
            },
        })
        .is_ok()
    );
}
