use svd_img::aggregate::{Aggregator, Aggregator1, Aggregator2, Rgb, Rgba};

#[test]
fn test_jspity2() {
    let mut i = 256;
    while i < 4096 {
        let aggregator = Aggregator1;
        let p = aggregator.rgba_from_i32(i);
        let r = aggregator.i32_from_rgba(p);
        assert_eq!(r, i);
        i += 256;
    }
}

#[test]
fn interleave_rgba_roundtrip_samples() {
    let ag = Aggregator1;
    let samples = [
        Rgba { r: 0, g: 0, b: 0, a: 0 },
        Rgba { r: 255, g: 255, b: 255, a: 255 },
        Rgba { r: 1, g: 2, b: 3, a: 4 },
        Rgba { r: 0x80, g: 0x7f, b: 0x01, a: 0xfe },
        Rgba { r: 170, g: 85, b: 204, a: 51 },
    ];
    for p in samples {
        assert_eq!(ag.rgba_from_i32(ag.i32_from_rgba(p)), p);
    }
}

#[test]
fn interleave_rgb_roundtrip_samples() {
    let ag = Aggregator1;
    let samples = [
        Rgb { r: 0, g: 0, b: 0 },
        Rgb { r: 255, g: 255, b: 255 },
        Rgb { r: 12, g: 200, b: 99 },
        Rgb { r: 0x80, g: 0x01, b: 0xfe },
    ];
    for p in samples {
        assert_eq!(ag.rgb_from_i32(ag.i32_from_rgb(p)), p);
    }
}

#[test]
fn interleave_rgba_exact_bit_positions() {
    let ag = Aggregator1;
    // every red bit lands at position 4*i + 3
    assert_eq!(
        ag.i32_from_rgba(Rgba { r: 255, g: 0, b: 0, a: 0 }),
        0x8888_8888u32 as i32
    );
    assert_eq!(
        ag.i32_from_rgba(Rgba { r: 0, g: 255, b: 0, a: 0 }),
        0x4444_4444u32 as i32
    );
    assert_eq!(
        ag.i32_from_rgba(Rgba { r: 0, g: 0, b: 255, a: 0 }),
        0x2222_2222
    );
    assert_eq!(
        ag.i32_from_rgba(Rgba { r: 0, g: 0, b: 0, a: 255 }),
        0x1111_1111
    );
    // bit 0 of red alone sits at bit 3
    assert_eq!(ag.i32_from_rgba(Rgba { r: 1, g: 0, b: 0, a: 0 }), 0x8);
}

#[test]
fn interleave_rgb_exact_bit_positions() {
    let ag = Aggregator1;
    assert_eq!(ag.i32_from_rgb(Rgb { r: 255, g: 0, b: 0 }), 0x0092_4924);
    assert_eq!(ag.i32_from_rgb(Rgb { r: 0, g: 255, b: 0 }), 0x0049_2492);
    assert_eq!(ag.i32_from_rgb(Rgb { r: 0, g: 0, b: 255 }), 0x0024_9249);
}

#[test]
fn byte_pack_exact_fields() {
    let ag = Aggregator2;
    // alpha highest, red lowest
    assert_eq!(
        ag.i32_from_rgba(Rgba { r: 1, g: 2, b: 3, a: 4 }),
        0x0403_0201
    );
    assert_eq!(ag.i32_from_rgb(Rgb { r: 1, g: 2, b: 3 }), 0x0003_0201);
    assert_eq!(
        ag.rgba_from_i32(0x0403_0201),
        Rgba { r: 1, g: 2, b: 3, a: 4 }
    );
    assert_eq!(ag.rgb_from_i32(0x0003_0201), Rgb { r: 1, g: 2, b: 3 });
}

#[test]
fn byte_pack_roundtrip_samples() {
    let ag = Aggregator2;
    let samples = [
        Rgba { r: 0, g: 0, b: 0, a: 0 },
        Rgba { r: 255, g: 255, b: 255, a: 255 },
        Rgba { r: 17, g: 34, b: 51, a: 68 },
    ];
    for p in samples {
        assert_eq!(ag.rgba_from_i32(ag.i32_from_rgba(p)), p);
    }
    let rgb = Rgb { r: 250, g: 0, b: 128 };
    assert_eq!(ag.rgb_from_i32(ag.i32_from_rgb(rgb)), rgb);
}

#[test]
fn selected_scheme_roundtrip() {
    let p = Rgba { r: 9, g: 250, b: 0, a: 133 };
    for ag in [Aggregator::One(Aggregator1), Aggregator::Two(Aggregator2)] {
        assert_eq!(ag.rgba_from_i32(ag.i32_from_rgba(p)), p);
    }
    let q = Rgb { r: 77, g: 0, b: 255 };
    for ag in [Aggregator::One(Aggregator1), Aggregator::Two(Aggregator2)] {
        assert_eq!(ag.rgb_from_i32(ag.i32_from_rgb(q)), q);
    }
}
