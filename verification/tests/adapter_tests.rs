use svd_img::aggregate::{Aggregator, Aggregator1, Rgb, Rgba};
use svd_img::decode::{imgbuf_from_matrix_rgb, imgbuf_from_matrix_rgba, sound_from_matrix};
use svd_img::encode::{image_matrix_rgb, image_matrix_rgba, matrix_from_sound_data};
use svd_img::format::AudioHeader;
use svd_img::matrix::{sound_dims, Matrix};
use svd_img::media::{ImageRgb, ImageRgba, SoundData};

fn audio_header(bits: u16) -> AudioHeader {
    AudioHeader {
        audio_format: 1,
        channel_count: 1,
        sampling_rate: 8000,
        bytes_per_second: 8000,
        bytes_per_sample: 1,
        bits_per_sample: bits,
    }
}

#[test]
fn aggregated_image_matrix_cells() {
    let ag1 = Aggregator1;
    let pixels = vec![
        Rgba { r: 1, g: 2, b: 3, a: 4 },
        Rgba { r: 5, g: 6, b: 7, a: 8 },
        Rgba { r: 9, g: 10, b: 11, a: 12 },
        Rgba { r: 13, g: 14, b: 15, a: 16 },
    ];
    let img = ImageRgba::from_pixels(2, 2, pixels.clone());
    let m = image_matrix_rgba(&img, &Some(Aggregator::One(Aggregator1)));
    assert_eq!(m.height, 2);
    assert_eq!(m.width, 2);
    for i in 0..2 {
        for j in 0..2 {
            assert_eq!(m.get(i, j), ag1.i32_from_rgba(pixels[i * 2 + j]));
        }
    }
}

#[test]
fn block_image_matrix_cells() {
    let pixels = vec![
        Rgba { r: 1, g: 2, b: 3, a: 4 },
        Rgba { r: 5, g: 6, b: 7, a: 8 },
    ];
    let img = ImageRgba::from_pixels(1, 2, pixels);
    let m = image_matrix_rgba(&img, &None);
    assert_eq!(m.height, 2);
    assert_eq!(m.width, 4);
    // first pixel occupies the 2x2 block at (0, 0)
    assert_eq!(m.get(0, 0), 1);
    assert_eq!(m.get(1, 0), 2);
    assert_eq!(m.get(0, 1), 3);
    assert_eq!(m.get(1, 1), 4);
    // second pixel occupies the 2x2 block at (0, 2)
    assert_eq!(m.get(0, 2), 5);
    assert_eq!(m.get(1, 2), 6);
    assert_eq!(m.get(0, 3), 7);
    assert_eq!(m.get(1, 3), 8);
}

#[test]
fn block_image_matrix_rgb_fills_alpha() {
    let img = ImageRgb::from_pixels(1, 1, vec![Rgb { r: 10, g: 20, b: 30 }]);
    let m = image_matrix_rgb(&img, &None);
    assert_eq!(m.get(0, 0), 10);
    assert_eq!(m.get(1, 0), 20);
    assert_eq!(m.get(0, 1), 30);
    assert_eq!(m.get(1, 1), 255);
}

#[test]
fn image_matrix_roundtrip_aggregated() {
    let ag = Aggregator::One(Aggregator1);
    let pixels: Vec<Rgba> = (0..12)
        .map(|k| Rgba {
            r: (k * 17) as u8,
            g: (200 - k * 9) as u8,
            b: (k * k) as u8,
            a: (255 - k) as u8,
        })
        .collect();
    let img = ImageRgba::from_pixels(3, 4, pixels.clone());
    let m = image_matrix_rgba(&img, &Some(ag));
    let img2 = imgbuf_from_matrix_rgba(&m, true, &ag);
    assert_eq!(img2.height, 3);
    assert_eq!(img2.width, 4);
    assert_eq!(img2.pixels, pixels);
}

#[test]
fn image_matrix_roundtrip_blocks() {
    let pixels: Vec<Rgb> = (0..6)
        .map(|k| Rgb {
            r: (k * 40) as u8,
            g: (k * 11 + 3) as u8,
            b: (250 - k * 31) as u8,
        })
        .collect();
    let img = ImageRgb::from_pixels(2, 3, pixels.clone());
    let m = image_matrix_rgb(&img, &None);
    let img2 = imgbuf_from_matrix_rgb(&m, false, &Aggregator::One(Aggregator1));
    assert_eq!(img2.height, 2);
    assert_eq!(img2.width, 3);
    assert_eq!(img2.pixels, pixels);
}

#[test]
fn block_decode_truncates_cells_to_low_byte() {
    // round-then-truncate only: 257 truncates to 1, -1 to 255
    let m = Matrix {
        height: 2,
        width: 2,
        cells: vec![257, -1, 300, 77],
    };
    let img = imgbuf_from_matrix_rgba(&m, false, &Aggregator::One(Aggregator1));
    assert_eq!(img.get(0, 0), Rgba { r: 1, g: 44, b: 255, a: 77 });
}

#[test]
fn sound_dims_examples() {
    assert_eq!(sound_dims(0), (0, 0));
    assert_eq!(sound_dims(1), (1, 1));
    assert_eq!(sound_dims(10), (3, 4));
    assert_eq!(sound_dims(16), (4, 4));
    // round(sqrt(12)) == round(3.46) == 3, ceil(12 / 3) == 4
    assert_eq!(sound_dims(12), (3, 4));
    // round(sqrt(13)) == round(3.61) == 4, ceil(13 / 4) == 4
    assert_eq!(sound_dims(13), (4, 4));
}

#[test]
fn sound_matrix_layout_and_zero_fill() {
    let data: Vec<i32> = (1..=10).collect();
    let m = matrix_from_sound_data(&data);
    assert_eq!(m.height, 3);
    assert_eq!(m.width, 4);
    for i in 0..3 {
        for j in 0..4 {
            let idx = i * 4 + j;
            let expected = if idx < 10 { data[idx] } else { 0 };
            assert_eq!(m.get(i, j), expected);
        }
    }
}

#[test]
fn sound_roundtrip_24_bit() {
    let data: Vec<i32> = vec![5, -7, 100000, 0, -100000, 42, 9];
    let m = matrix_from_sound_data(&data);
    let s = sound_from_matrix(&m, (audio_header(24), data.len() as u32));
    match s {
        SoundData::TwentyFour(v) => assert_eq!(v, data),
        _ => panic!("expected 24-bit payload"),
    }
}

#[test]
fn sound_quantizes_to_8_bit() {
    let data: Vec<i32> = vec![0, 1, 255, 256, -1];
    let m = matrix_from_sound_data(&data);
    let s = sound_from_matrix(&m, (audio_header(8), 5));
    match s {
        SoundData::Eight(v) => assert_eq!(v, vec![0, 1, 255, 0, 255]),
        _ => panic!("expected 8-bit payload"),
    }
}

#[test]
fn sound_quantizes_to_16_bit() {
    let data: Vec<i32> = vec![0, 32767, -32768, 65536, 70000];
    let m = matrix_from_sound_data(&data);
    let s = sound_from_matrix(&m, (audio_header(16), 5));
    match s {
        SoundData::Sixteen(v) => assert_eq!(v, vec![0, 32767, -32768, 0, 4464]),
        _ => panic!("expected 16-bit payload"),
    }
}

#[test]
fn sound_unsupported_depth_is_empty() {
    let data: Vec<i32> = vec![1, 2, 3];
    let m = matrix_from_sound_data(&data);
    let s = sound_from_matrix(&m, (audio_header(12), 3));
    assert!(matches!(s, SoundData::Empty));
}
