use tm20::error::RasterError;
use tm20::raster::Raster;

#[test]
fn zero_width_is_not_a_length_error() {
    assert_eq!(
        Raster::from_packed(0, 1, vec![]).unwrap_err(),
        RasterError::ZeroWidth
    );
    assert_eq!(
        Raster::from_bits(0, 8, &[]).unwrap_err(),
        RasterError::ZeroWidth
    );
}

#[test]
fn zero_height_is_not_a_length_error() {
    assert_eq!(
        Raster::from_packed(8, 0, vec![]).unwrap_err(),
        RasterError::ZeroHeight
    );
    assert_eq!(
        Raster::from_bits(8, 0, &[]).unwrap_err(),
        RasterError::ZeroHeight
    );
}

#[test]
fn ragged_packed_length_is_rejected() {
    assert_eq!(
        Raster::from_packed(8, 1, vec![]).unwrap_err(),
        RasterError::LengthMismatch {
            expected: 1,
            got: 0
        }
    );
    assert_eq!(
        Raster::from_packed(8, 1, vec![0, 0]).unwrap_err(),
        RasterError::LengthMismatch {
            expected: 1,
            got: 2
        }
    );
    assert_eq!(
        Raster::from_bits(8, 1, &[true; 7]).unwrap_err(),
        RasterError::LengthMismatch {
            expected: 8,
            got: 7
        }
    );
}

#[test]
fn one_by_65536_is_a_valid_raster() {
    let raster = Raster::from_packed(1, 65_536, vec![0u8; 65_536]).unwrap();
    assert_eq!(raster.width(), 1);
    assert_eq!(raster.height(), 65_536);
    assert_eq!(raster.stride(), 1);
    assert_eq!(raster.pixels().len(), 65_536);
    assert_eq!(raster.pixel(0, 65_535), Some(false));
    assert_eq!(raster.pixel(0, 65_536), None);

    let mut bits = vec![false; 65_536];
    bits[65_535] = true;
    let from_bits = Raster::from_bits(1, 65_536, &bits).unwrap();
    assert_eq!(from_bits.height(), 65_536);
    assert_eq!(from_bits.pixel(0, 65_535), Some(true));
    assert_eq!(from_bits.pixels().len(), 65_536);
}

#[test]
fn padding_bits_normalize_to_one_representation() {
    for width in 1u16..=24 {
        let height = 2u32;
        let n = usize::from(width) * 2;
        let mut bits = vec![false; n];
        for (i, bit) in bits.iter_mut().enumerate() {
            *bit = i % 3 == 0;
        }
        let from_bits = Raster::from_bits(width, height, &bits).unwrap();
        let stride = from_bits.stride();
        assert_eq!(from_bits.pixels().len(), stride * 2);

        let mut dirty = from_bits.pixels().to_vec();
        if width % 8 != 0 {
            for row in 0..2 {
                dirty[row * stride + stride - 1] |= 0x01;
            }
        }
        let from_packed = Raster::from_packed(width, height, dirty).unwrap();
        assert_eq!(from_packed, from_bits);
        assert_eq!(
            from_packed.pixels().len(),
            stride * usize::try_from(height).unwrap()
        );

        for y in 0..height {
            for x in 0..width {
                assert_eq!(
                    from_packed.pixel(x, y),
                    Some(bits[usize::try_from(y).unwrap() * usize::from(width) + usize::from(x)])
                );
            }
        }

        let used = width % 8;
        if used != 0 {
            let mask = 0xffu8 << (8 - used);
            for row in from_packed.pixels().chunks(stride) {
                assert_eq!(row[stride - 1] & !mask, 0);
            }
        }
    }
}

#[test]
fn pixel_out_of_bounds_is_none() {
    let raster = Raster::from_bits(3, 2, &[true, false, true, false, true, false]).unwrap();
    assert_eq!(raster.pixel(0, 0), Some(true));
    assert_eq!(raster.pixel(2, 1), Some(false));
    assert_eq!(raster.pixel(3, 0), None);
    assert_eq!(raster.pixel(0, 2), None);
    assert_eq!(raster.pixel(3, 2), None);
}

#[test]
fn slice_rows_is_checked_and_nonempty() {
    let bits = [
        true, false, false, false, false, false, false, false, false, true, false, false, false,
        false, false, false, true, true, false, false, false, false, false, false,
    ];
    let raster = Raster::from_bits(8, 3, &bits).unwrap();
    let mid = raster.slice_rows(1..2).unwrap();
    assert_eq!(mid.width(), 8);
    assert_eq!(mid.height(), 1);
    assert_eq!(mid.pixel(1, 0), Some(true));
    assert_eq!(mid.pixels(), &raster.pixels()[1..2]);

    let rest = raster.slice_rows(0..3).unwrap();
    assert_eq!(rest, raster);

    assert_eq!(
        raster.slice_rows(1..1).unwrap_err(),
        RasterError::InvalidRowRange
    );
    #[allow(clippy::reversed_empty_ranges)]
    let reversed = 2u32..1;
    assert_eq!(
        raster.slice_rows(reversed).unwrap_err(),
        RasterError::InvalidRowRange
    );
    assert_eq!(
        raster.slice_rows(0..4).unwrap_err(),
        RasterError::InvalidRowRange
    );
    assert_eq!(
        raster.slice_rows(3..4).unwrap_err(),
        RasterError::InvalidRowRange
    );
}

#[test]
fn derived_length_equals_stored_bytes() {
    let raster = Raster::from_bits(9, 3, &[true; 27]).unwrap();
    assert_eq!(
        raster.pixels().len(),
        raster.stride() * usize::try_from(raster.height()).unwrap()
    );
    assert_eq!(
        raster.pixels(),
        &[
            0b1111_1111,
            0b1000_0000,
            0b1111_1111,
            0b1000_0000,
            0b1111_1111,
            0b1000_0000
        ]
    );
}

#[test]
fn bits_round_trip_through_the_packed_rows() {
    let bits: Vec<bool> = (0..(11 * 3)).map(|i| i % 3 == 0 || i % 7 == 1).collect();
    let raster = Raster::from_bits(11, 3, &bits).unwrap();
    for y in 0..3u32 {
        for x in 0..11u16 {
            assert_eq!(raster.pixel(x, y), Some(bits[y as usize * 11 + x as usize]));
        }
    }
    assert_eq!(raster.pixels().len(), 2 * 3);
    let again = Raster::from_packed(11, 3, raster.pixels().to_vec()).unwrap();
    assert_eq!(again, raster);
}
