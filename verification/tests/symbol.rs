use tm20::EncodeError;
use tm20::symbol::packet::gs_k;
use tm20::symbol::qr::QR_MAX;
use tm20::symbol::{
    Gs1DataBar, Gs1DataBarType, Gs1DataBarWidth, Pdf417, Qr, QrEcc, QrModel, encode_gs1,
    encode_pdf417, encode_qr,
};

type GsKPacket = (u8, u8, Vec<u8>);

/// Walk `GS ( k` packets; each declared length must equal the bytes after `pH`.
fn walk_gs_k(bytes: &[u8]) -> Result<Vec<GsKPacket>, &'static str> {
    let mut i = 0;
    let mut packets = Vec::new();
    while i < bytes.len() {
        if i + 7 > bytes.len() || bytes[i] != 0x1d || bytes[i + 1] != b'(' || bytes[i + 2] != b'k'
        {
            return Err("not a GS ( k command");
        }
        let after_ph = usize::from(bytes[i + 3]) + (usize::from(bytes[i + 4]) << 8);
        let start = i + 5;
        let end = start.checked_add(after_ph).ok_or("length overflow")?;
        if end > bytes.len() {
            return Err("declared length overruns the stream");
        }
        let body = &bytes[start..end];
        if body.len() < 2 {
            return Err("body shorter than cn fn");
        }
        packets.push((body[0], body[1], body[2..].to_vec()));
        i = end;
    }
    Ok(packets)
}

fn packets_offset_fn71(bytes: &[u8]) -> std::ops::Range<usize> {
    let start = bytes
        .windows(8)
        .position(|w| w == [0x1d, b'(', b'k', 4, 0, 51, 71, 0])
        .expect("fn=71 packet");
    start..start + 9
}

#[test]
fn f15_fn71_length_matches_cited_body() {
    let bytes = encode_gs1(&Gs1DataBar {
        data: "1240123456789".into(),
        width: Gs1DataBarWidth::S,
        kind: Gs1DataBarType::Stacked,
    })
    .unwrap();
    let packets = walk_gs_k(&bytes).expect("stream is only GS ( k packets");
    assert_eq!(packets.len(), 4);
    assert_eq!(packets[0], (51, 67, vec![2]));
    assert_eq!(packets[1], (51, 71, vec![0, 0]));
    assert_eq!(
        packets[2],
        (51, 80, {
            let mut p = vec![48, 72];
            p.extend(b"1240123456789");
            p
        })
    );
    assert_eq!(packets[3], (51, 81, vec![48]));
    assert_eq!(
        &bytes[packets_offset_fn71(&bytes)],
        &[0x1d, b'(', b'k', 4, 0, 51, 71, 0, 0]
    );
}

#[test]
fn stacked_requires_thirteen_digits() {
    let mut code = Gs1DataBar {
        data: "12401234567890".into(),
        width: Gs1DataBarWidth::S,
        kind: Gs1DataBarType::Stacked,
    };
    assert!(matches!(
        encode_gs1(&code),
        Err(EncodeError::Gs1Data { len: 14, .. })
    ));
    code.data = "1240123456789".into();
    assert!(encode_gs1(&code).is_ok());
    code.data = "124012345678".into();
    assert!(matches!(
        encode_gs1(&code),
        Err(EncodeError::Gs1Data { len: 12, .. })
    ));
}

#[test]
fn omni_first_digit_is_zero_or_one() {
    let mut code = Gs1DataBar {
        data: "2001234567890".into(),
        width: Gs1DataBarWidth::S,
        kind: Gs1DataBarType::StackedOmnidirectional,
    };
    assert!(matches!(
        encode_gs1(&code),
        Err(EncodeError::Gs1Data { len: 13, .. })
    ));
    code.data = "0001234567890".into();
    assert!(encode_gs1(&code).is_ok());
}

#[test]
fn expanded_rejects_control_injection_and_short_payload() {
    let mut code = Gs1DataBar {
        data: "x".into(),
        width: Gs1DataBarWidth::S,
        kind: Gs1DataBarType::ExpandedStacked,
    };
    assert!(matches!(
        encode_gs1(&code),
        Err(EncodeError::Gs1Data { len: 1, .. })
    ));
    code.data = "01".into();
    assert!(encode_gs1(&code).is_ok());
    code.data = "{1AB".into();
    assert!(matches!(
        encode_gs1(&code),
        Err(EncodeError::Gs1Data { len: 4, .. })
    ));
}

#[test]
fn module_width_m_is_outside_t20iii_range() {
    let code = Gs1DataBar {
        data: "1240123456789".into(),
        width: Gs1DataBarWidth::M,
        kind: Gs1DataBarType::Stacked,
    };
    assert!(matches!(
        encode_gs1(&code),
        Err(EncodeError::Gs1ModuleWidth(1))
    ));
}

#[test]
fn declared_length_matches_bytes_after_ph() {
    let bytes = gs_k(51, 71, &[0, 0]).unwrap();
    assert_eq!(bytes, [0x1d, b'(', b'k', 4, 0, 51, 71, 0, 0]);
    let after_ph = usize::from(bytes[3]) + (usize::from(bytes[4]) << 8);
    assert_eq!(after_ph, bytes.len() - 5);
}

#[test]
fn rejects_body_over_u16() {
    let params = vec![0; 65534];
    assert!(matches!(
        gs_k(49, 80, &params),
        Err(EncodeError::Gs2dTooLong { len: 65536 })
    ));
}

#[test]
fn pdf417_rejects_bad_columns() {
    let mut code = Pdf417 {
        data: "hi".into(),
        ..Pdf417::default()
    };
    code.columns = 31;
    assert!(matches!(
        encode_pdf417(&code),
        Err(EncodeError::Pdf417Columns(31))
    ));
}

#[test]
fn pdf417_zero_settings_follow_t20iii() {
    let mut code = Pdf417 {
        data: "hi".into(),
        ..Pdf417::default()
    };
    code.columns = 0;
    code.rows = 0;
    assert!(encode_pdf417(&code).is_ok());
    code.width = 0;
    assert!(matches!(
        encode_pdf417(&code),
        Err(EncodeError::Pdf417Width(0))
    ));
    code.width = 1;
    assert!(encode_pdf417(&code).is_ok());
    code.row_height = 0;
    assert!(matches!(
        encode_pdf417(&code),
        Err(EncodeError::Pdf417RowHeight(0))
    ));
    code.row_height = 2;
    assert!(encode_pdf417(&code).is_ok());
}

#[test]
fn micro_is_not_a_t20iii_model() {
    let qr = Qr {
        data: "A".into(),
        model: QrModel::Micro,
        ..Qr::default()
    };
    assert!(matches!(encode_qr(&qr), Err(EncodeError::QrModel(51))));
}

#[test]
fn qr_option_bytes() {
    let bytes = encode_qr(&Qr {
        data: "HELLO".into(),
        model: QrModel::Model2,
        size: 4,
        ecc: QrEcc::M,
    })
    .unwrap();
    assert!(
        bytes
            .windows(9)
            .any(|w| w == [0x1d, b'(', b'k', 4, 0, 49, 65, 50, 0])
    );
    assert!(
        bytes
            .windows(8)
            .any(|w| w == [0x1d, b'(', b'k', 3, 0, 49, 67, 4])
    );
    assert!(
        bytes
            .windows(8)
            .any(|w| w == [0x1d, b'(', b'k', 3, 0, 49, 69, 49])
    );
    assert!(
        bytes
            .windows(8)
            .any(|w| w == [0x1d, b'(', b'k', 8, 0, 49, 80, 48])
    );
    assert!(bytes.windows(5).any(|w| w == b"HELLO"));
    assert!(bytes.ends_with(&[0x1d, b'(', b'k', 3, 0, 49, 81, 48]));
}

#[test]
fn qr_too_long() {
    let qr = Qr {
        data: "x".repeat(QR_MAX + 1),
        ..Qr::default()
    };
    assert!(matches!(encode_qr(&qr), Err(EncodeError::QrTooLong { .. })));
}

#[test]
fn qr_rejects_empty_and_zero_module() {
    assert!(matches!(
        encode_qr(&Qr::default()),
        Err(EncodeError::QrTooLong { len: 0 })
    ));
    let mut qr = Qr {
        data: "A".into(),
        ..Qr::default()
    };
    qr.size = 0;
    assert!(matches!(encode_qr(&qr), Err(EncodeError::QrSize(0))));
    qr.size = 1;
    assert!(encode_qr(&qr).is_ok());
    qr.size = 16;
    assert!(encode_qr(&qr).is_ok());
    qr.size = 17;
    assert!(matches!(encode_qr(&qr), Err(EncodeError::QrSize(17))));
}
