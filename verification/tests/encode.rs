use tm20::barcode::{Barcode, BarcodeKind, BarcodeOptions, Code128Set};
use tm20::command::{
    Align, CashDrawerPin, CodePage, Command, CutKind, Font, LineSpacing, PrintSpeed, Underline,
};
use tm20::graphics::{Graphics, GraphicsScale, pack};
use tm20::raster::Raster;
use tm20::status::StatusRequest;
use tm20::symbol::{
    DataMatrix, DataMatrixType, Gs1DataBar, Gs1DataBarType, Gs1DataBarWidth, MaxiCode,
    MaxiCodeMode, Pdf417, Qr,
};
use tm20::{Document, EncodeError, encode, hello};

#[test]
fn hello_golden() {
    let bytes = encode(&hello()).unwrap();
    assert_eq!(
        bytes,
        [
            0x1b, 0x40, 0x1b, 0x74, 0x00, b'S', b'Y', b'S', b'T', b'E', b'M', b' ', b'O', b'N',
            b'L', b'I', b'N', b'E', 0x0a, 0x0a, 0x0a, 0x1d, 0x56, 0x42, 0x00,
        ]
    );
}

#[test]
fn size_rejects_out_of_range() {
    let doc = Document::new(vec![Command::Size {
        width: 9,
        height: 1,
    }]);
    assert!(matches!(
        encode(&doc),
        Err(EncodeError::Size {
            width: 9,
            height: 1
        })
    ));
}

#[test]
fn codepage_other_is_esc_t() {
    let doc = Document::new(vec![Command::CodePage(CodePage::Other(16))]);
    assert_eq!(encode(&doc).unwrap(), vec![0x1b, 0x74, 16]);
}

#[test]
fn print_speed_is_gs_k_fn50() {
    let doc = Document::new(vec![
        Command::PrintSpeed(PrintSpeed::Default),
        Command::PrintSpeed(PrintSpeed::level(8).unwrap()),
        Command::PrintSpeed(PrintSpeed::level(13).unwrap()),
    ]);
    assert_eq!(
        encode(&doc).unwrap(),
        vec![
            0x1d, b'(', b'K', 2, 0, 50, 0, 0x1d, b'(', b'K', 2, 0, 50, 8, 0x1d, b'(', b'K', 2, 0,
            50, 13,
        ]
    );
    let bad = Document::new(vec![Command::PrintSpeed(PrintSpeed::Level(14))]);
    assert!(matches!(encode(&bad), Err(EncodeError::PrintSpeed(14))));
}

#[test]
fn motion_and_drawer() {
    let doc = Document::new(vec![
        Command::MotionUnits { x: 10, y: 20 },
        Command::CashDrawer(CashDrawerPin::Pin2),
    ]);
    assert_eq!(
        encode(&doc).unwrap(),
        vec![0x1d, b'P', 10, 20, 0x1b, b'p', 0, 0x19, 0x78]
    );
}

#[test]
fn position_and_feed_dots() {
    let doc = Document::new(vec![
        Command::AbsolutePosition { dots: 576 },
        Command::RelativePosition { dots: -16 },
        Command::HorizontalTab,
        Command::SetTabs(vec![8, 16]),
        Command::LeftMargin { dots: 24 },
        Command::PrintAreaWidth { dots: 480 },
        Command::FeedDots { dots: 30 },
        Command::CharSpacing { dots: 2 },
    ]);
    let bytes = encode(&doc).unwrap();
    assert!(bytes.windows(4).any(|w| w == [0x1b, b'$', 0x40, 0x02]));
    assert!(bytes.windows(4).any(|w| w == [0x1b, b'\\', 0xf0, 0xff]));
    assert!(bytes.contains(&0x09));
    assert!(bytes.windows(5).any(|w| w == [0x1b, b'D', 8, 16, 0]));
    assert!(bytes.windows(4).any(|w| w == [0x1d, b'L', 24, 0]));
    assert!(bytes.windows(4).any(|w| w == [0x1d, b'W', 0xe0, 0x01]));
    assert!(bytes.windows(3).any(|w| w == [0x1b, b'J', 30]));
    assert!(bytes.windows(3).any(|w| w == [0x1b, b' ', 2]));
}

#[test]
fn every_command_variant_encodes() {
    let pixels = pack(8, 8, &[true; 64]).unwrap();
    let raster = Raster::from_packed(8, 8, pixels).unwrap();
    let cmds = vec![
        Command::Init,
        Command::Cancel,
        Command::Cut {
            kind: CutKind::Full,
        },
        Command::Cut {
            kind: CutKind::Partial,
        },
        Command::Feed { lines: 2 },
        Command::FeedDots { dots: 8 },
        Command::CharSpacing { dots: 1 },
        Command::AbsolutePosition { dots: 0 },
        Command::RelativePosition { dots: 8 },
        Command::HorizontalTab,
        Command::SetTabs(vec![10]),
        Command::LeftMargin { dots: 0 },
        Command::PrintAreaWidth { dots: 576 },
        Command::PrintSpeed(PrintSpeed::Default),
        Command::LineSpacing(LineSpacing::Default),
        Command::LineSpacing(LineSpacing::Dots(24)),
        Command::Align(Align::Center),
        Command::Font(Font::B),
        Command::Bold(true),
        Command::Underline(Underline::Double),
        Command::DoubleStrike(true),
        Command::Invert(true),
        Command::UpsideDown(true),
        Command::Rotate90(true),
        Command::Size {
            width: 2,
            height: 3,
        },
        Command::Smoothing(true),
        Command::CodePage(CodePage::Pc437),
        Command::CharacterSet(0),
        Command::Text("x".into()),
        Command::Raw(vec![0x1b, b'@']),
        Command::MotionUnits { x: 1, y: 1 },
        Command::CashDrawer(CashDrawerPin::Pin5),
        Command::Barcode(Barcode {
            kind: BarcodeKind::Code128 { set: Code128Set::B },
            data: "A".into(),
            options: BarcodeOptions::default(),
        }),
        Command::Qr(Qr {
            data: "q".into(),
            ..Qr::default()
        }),
        Command::Pdf417(Pdf417 {
            data: "p".into(),
            ..Pdf417::default()
        }),
        Command::Gs1DataBar(Gs1DataBar {
            data: "1240123456789".into(),
            width: Gs1DataBarWidth::S,
            kind: Gs1DataBarType::Stacked,
        }),
        Command::MaxiCode(MaxiCode {
            data: "m".into(),
            mode: MaxiCodeMode::Mode4,
        }),
        Command::DataMatrix(DataMatrix {
            data: "d".into(),
            kind: DataMatrixType::Square(0),
            size: 3,
        }),
        Command::Graphics(Graphics::new(raster, GraphicsScale::Normal).unwrap()),
        Command::StatusRequest(StatusRequest::Printer),
    ];
    encode(&Document::new(cmds)).unwrap();
}
