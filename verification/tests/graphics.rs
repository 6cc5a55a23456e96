use tm20::EncodeError;
use tm20::graphics::{Graphics, GraphicsScale, encode, max_height, pack, width_bytes};
use tm20::raster::Raster;

fn graphics_from_bits(width: u16, height: u32, bits: &[bool], scale: GraphicsScale) -> Graphics {
    let raster = Raster::from_bits(width, height, bits).unwrap();
    Graphics::new(raster, scale).unwrap()
}

#[test]
fn pack_8x8_all_black() {
    let image = graphics_from_bits(8, 8, &[true; 64], GraphicsScale::Normal);
    assert_eq!(image.raster().pixels(), vec![0xff; 8]);
    let bytes = encode(&image).unwrap();
    assert_eq!(
        &bytes[..15],
        &[0x1d, b'(', b'L', 18, 0, 48, 112, 48, 1, 1, 49, 8, 0, 8, 0]
    );
    assert_eq!(&bytes[15..23], &[0xff; 8]);
    assert_eq!(&bytes[23..], &[0x1d, b'(', b'L', 2, 0, 48, 50]);
    let body = 10 + image.raster().pixels().len();
    assert_eq!(bytes[3] as usize + 256 * bytes[4] as usize, body);
    assert_eq!(bytes.len(), 15 + image.raster().pixels().len() + 7);
}

#[test]
fn pack_msb_first() {
    let mut bits = [false; 8];
    bits[0] = true;
    bits[7] = true;
    assert_eq!(pack(8, 1, &bits).unwrap(), vec![0b1000_0001]);
}

#[test]
fn scale_factors_are_the_magnification_table() {
    assert_eq!(GraphicsScale::Normal.factors(), (1, 1));
    assert_eq!(GraphicsScale::DoubleWidth.factors(), (2, 1));
    assert_eq!(GraphicsScale::DoubleHeight.factors(), (1, 2));
    assert_eq!(GraphicsScale::Quadruple.factors(), (2, 2));
}

#[test]
fn tape_wide_max_height_is_910() {
    assert_eq!(max_height(576), 910);
    assert!(10 + width_bytes(576) * 910 <= 65535);
    assert!(10 + width_bytes(576) * 911 > 65535);
}

#[test]
fn tape_wide_910_encodes_and_911_is_capacity() {
    let stride = width_bytes(576);
    let ok = Raster::from_packed(576, 910, vec![0u8; stride * 910]).unwrap();
    assert_eq!(ok.height(), 910);
    let image = Graphics::new(ok, GraphicsScale::Normal).unwrap();
    let bytes = encode(&image).unwrap();
    let payload = image.raster().pixels();
    let body = 10 + payload.len();
    assert_eq!(payload.len(), stride * 910);
    assert_eq!(bytes[3] as usize + 256 * bytes[4] as usize, body);
    assert_eq!(&bytes[15..15 + payload.len()], payload);
    assert_eq!(bytes.len(), 15 + payload.len() + 7);
    assert_eq!(
        &bytes[11..15],
        &[
            (0x240u16 & 0xff) as u8,
            (0x240u16 >> 8) as u8,
            (0x38eu16 & 0xff) as u8,
            (0x38eu16 >> 8) as u8
        ]
    );

    let tall = Raster::from_packed(576, 911, vec![0u8; stride * 911]).unwrap();
    assert_eq!(tall.height(), 911);
    assert!(matches!(
        Graphics::new(tall, GraphicsScale::Normal),
        Err(EncodeError::GraphicsTooLong { len }) if len == 10 + stride * 911
    ));
}

#[test]
fn raster_dimensions_succeed_where_wire_capacity_fails() {
    let page = Raster::from_packed(1, 65_536, vec![0u8; 65_536]).unwrap();
    assert_eq!(page.width(), 1);
    assert_eq!(page.height(), 65_536);
    assert!(matches!(
        Graphics::new(page, GraphicsScale::Normal),
        Err(EncodeError::GraphicsTooLong { .. })
    ));
}

#[test]
fn quadruple_is_2_by_2() {
    let bytes = encode(&graphics_from_bits(8, 1, &[true; 8], GraphicsScale::Quadruple)).unwrap();
    assert_eq!(bytes[8], 2);
    assert_eq!(bytes[9], 2);
}
