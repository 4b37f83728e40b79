use svd_img::decode::{read_file_dimensions, read_file_f32, read_file_f64, read_file_header,
    reduce};
use svd_img::encode::{write_vectors_f32, write_vectors_f64, write_vectors_header,
    CompressionPolicy, Options, SVDVectors};
use svd_img::format::AudioHeader;
use svd_img::read::{ByteReader, FileReaderError};
use svd_img::write::ByteWriter;
use svd_img::Error;

fn sample_vectors64(n: u64, height: usize, width: usize) -> SVDVectors<u64> {
    let mut v: SVDVectors<u64> = Vec::new();
    for i in 0..n {
        let left: Vec<u64> = (0..height as u64).map(|j| i * 1000 + j).collect();
        let right: Vec<u64> = (0..width as u64).map(|j| i * 1000 + 500 + j).collect();
        v.push((i + 1, left, right));
    }
    v
}

fn image_options_f64() -> Options {
    let mut o = Options::default();
    o.use_f64 = true;
    o.is_wav = false;
    o.with_alpha = false;
    o.use_aggregate = true;
    o
}

fn serialize_f64(vectors: &SVDVectors<u64>, options: &Options,
    audio: Option<(AudioHeader, u32)>) -> Vec<u8> {
    let mut fw = ByteWriter::new();
    write_vectors_header(&mut fw, vectors, options, audio);
    write_vectors_f64(&mut fw, vectors);
    fw.data
}

#[test]
fn header_layout_exact() {
    let vectors = sample_vectors64(1, 1, 1);
    let o = image_options_f64();
    let mut fw = ByteWriter::new();
    write_vectors_header(&mut fw, &vectors, &o, None);
    // flags: f64 (0x4) + aggregation (0x1), then n, height, width big-endian
    assert_eq!(
        fw.data,
        vec![0x05, 0, 0, 0, 1, 0, 0, 0, 1, 0, 0, 0, 1]
    );
}

#[test]
fn triplet_stream_layout_exact() {
    let vectors: SVDVectors<u64> = vec![(
        0x0102_0304_0506_0708,
        vec![0x1111_1111_1111_1111],
        vec![0x2222_2222_2222_2222],
    )];
    let mut fw = ByteWriter::new();
    write_vectors_f64(&mut fw, &vectors);
    assert_eq!(
        fw.data,
        vec![
            1, 2, 3, 4, 5, 6, 7, 8, 0x11, 0x11, 0x11, 0x11, 0x11, 0x11, 0x11, 0x11, 0x22, 0x22,
            0x22, 0x22, 0x22, 0x22, 0x22, 0x22,
        ]
    );
}

#[test]
fn write_read_roundtrip_f64() {
    let vectors = sample_vectors64(3, 2, 4);
    let o = image_options_f64();
    let data = serialize_f64(&vectors, &o, None);

    let mut fr = ByteReader::new(data);
    let h = read_file_header(&mut fr).unwrap();
    assert!(!h.is_wav);
    assert!(h.use_f64);
    assert!(!h.with_alpha);
    assert!(h.use_aggregate);
    assert_eq!(h.audio, None);
    let v2 = read_file_f64(&mut fr).unwrap();
    assert_eq!(v2, vectors);
}

#[test]
fn write_read_roundtrip_f32() {
    let vectors: SVDVectors<u32> = vec![
        (7, vec![1, 2], vec![3, 4, 5]),
        (6, vec![10, 20], vec![30, 40, 50]),
    ];
    let mut o = Options::default();
    o.use_f64 = false;
    o.use_aggregate = false;
    let mut fw = ByteWriter::new();
    write_vectors_header(&mut fw, &vectors, &o, None);
    write_vectors_f32(&mut fw, &vectors);

    let mut fr = ByteReader::new(fw.data);
    let h = read_file_header(&mut fr).unwrap();
    assert!(!h.use_f64);
    assert!(!h.use_aggregate);
    let v2 = read_file_f32(&mut fr).unwrap();
    assert_eq!(v2, vectors);
}

#[test]
fn audio_header_roundtrip_through_container() {
    let ah = AudioHeader {
        audio_format: 1,
        channel_count: 2,
        sampling_rate: 44100,
        bytes_per_second: 176400,
        bytes_per_sample: 4,
        bits_per_sample: 16,
    };
    let vectors = sample_vectors64(2, 3, 3);
    let mut o = image_options_f64();
    o.is_wav = true;
    let data = serialize_f64(&vectors, &o, Some((ah, 9)));

    let mut fr = ByteReader::new(data);
    let h = read_file_header(&mut fr).unwrap();
    assert!(h.is_wav);
    assert_eq!(h.audio, Some((ah, 9)));
    let v2 = read_file_f64(&mut fr).unwrap();
    assert_eq!(v2, vectors);
}

#[test]
fn empty_input_is_eof() {
    let mut fr = ByteReader::new(Vec::new());
    assert_eq!(
        read_file_header(&mut fr),
        Err(Error::FileReaderError(FileReaderError::UnexpectedEOF))
    );
}

#[test]
fn truncated_dimensions_are_eof() {
    let mut fr = ByteReader::new(vec![0, 0, 0, 1, 0, 0]);
    assert_eq!(
        read_file_dimensions(&mut fr),
        Err(Error::FileReaderError(FileReaderError::UnexpectedEOF))
    );
}

#[test]
fn truncated_stream_is_eof() {
    let vectors = sample_vectors64(2, 2, 2);
    let o = image_options_f64();
    let mut data = serialize_f64(&vectors, &o, None);
    data.truncate(data.len() - 3);
    let mut fr = ByteReader::new(data);
    let _ = read_file_header(&mut fr).unwrap();
    assert_eq!(
        read_file_f64(&mut fr),
        Err(Error::FileReaderError(FileReaderError::UnexpectedEOF))
    );
}

#[test]
fn reduce_beyond_stored_count_fails() {
    let vectors = sample_vectors64(50, 2, 2);
    let o = image_options_f64();
    let data = serialize_f64(&vectors, &o, None);

    let mut ro = Options::default();
    ro.policy = CompressionPolicy::with_number(80);
    assert_eq!(reduce(data, &ro), Err(Error::NotEnoughVectorsInSource));
}

#[test]
fn reduce_keeps_first_triplets_byte_for_byte() {
    let vectors = sample_vectors64(50, 2, 2);
    let o = image_options_f64();
    let data = serialize_f64(&vectors, &o, None);

    let mut ro = Options::default();
    ro.policy = CompressionPolicy::with_number(20);
    let out = reduce(data.clone(), &ro).unwrap();

    // rewritten header reports n == 20, dimensions unchanged
    let mut expected: Vec<u8> = vec![data[0], 0, 0, 0, 20, 0, 0, 0, 2, 0, 0, 0, 2];
    // exactly the first 20 original triplets, byte for byte
    let t_size = 8 * (1 + 2 + 2);
    expected.extend_from_slice(&data[13..13 + 20 * t_size]);
    assert_eq!(out, expected);

    let mut fr = ByteReader::new(out);
    let h = read_file_header(&mut fr).unwrap();
    assert!(h.use_f64);
    let v2 = read_file_f64(&mut fr).unwrap();
    assert_eq!(v2.len(), 20);
    assert_eq!(v2[..], vectors[..20]);
}

#[test]
fn reduce_single_precision_container() {
    let vectors: SVDVectors<u32> = (0..10u32)
        .map(|i| (i, vec![i, i + 1, i + 2], vec![i + 3]))
        .collect();
    let mut o = Options::default();
    o.use_f64 = false;
    let mut fw = ByteWriter::new();
    write_vectors_header(&mut fw, &vectors, &o, None);
    write_vectors_f32(&mut fw, &vectors);

    let mut ro = Options::default();
    ro.policy = CompressionPolicy::with_number(4);
    let out = reduce(fw.data, &ro).unwrap();

    let mut fr = ByteReader::new(out);
    let h = read_file_header(&mut fr).unwrap();
    assert!(!h.use_f64);
    let v2 = read_file_f32(&mut fr).unwrap();
    assert_eq!(v2[..], vectors[..4]);
}

#[test]
fn reduce_audio_container_keeps_audio_header() {
    let ah = AudioHeader {
        audio_format: 1,
        channel_count: 1,
        sampling_rate: 8000,
        bytes_per_second: 8000,
        bytes_per_sample: 1,
        bits_per_sample: 8,
    };
    let vectors = sample_vectors64(5, 2, 3);
    let mut o = image_options_f64();
    o.is_wav = true;
    let data = serialize_f64(&vectors, &o, Some((ah, 6)));

    let mut ro = Options::default();
    ro.policy = CompressionPolicy::with_number(2);
    let out = reduce(data, &ro).unwrap();

    let mut fr = ByteReader::new(out);
    let h = read_file_header(&mut fr).unwrap();
    assert!(h.is_wav);
    assert_eq!(h.audio, Some((ah, 6)));
    let v2 = read_file_f64(&mut fr).unwrap();
    assert_eq!(v2[..], vectors[..2]);
}

#[test]
fn reduce_rewrites_flags_byte_from_its_low_bits() {
    let vectors = sample_vectors64(3, 1, 1);
    let o = image_options_f64();
    let mut data = serialize_f64(&vectors, &o, None);
    assert_eq!(data[0], 0x05);
    // junk in the high bits of the flags byte is dropped on rewrite
    data[0] = 0xf5;
    let mut ro = Options::default();
    ro.policy = CompressionPolicy::with_number(2);
    let out = reduce(data, &ro).unwrap();
    assert_eq!(out[0], 0x05);
}

#[test]
fn reduce_ignores_trailing_bytes() {
    let vectors = sample_vectors64(4, 2, 2);
    let o = image_options_f64();
    let data = serialize_f64(&vectors, &o, None);
    let mut padded = data.clone();
    padded.extend_from_slice(&[9, 9, 9, 9]);

    let mut ro = Options::default();
    ro.policy = CompressionPolicy::with_number(3);
    assert_eq!(reduce(padded, &ro), reduce(data, &ro));
}

#[test]
fn reduce_is_idempotent() {
    let vectors = sample_vectors64(8, 2, 3);
    let o = image_options_f64();
    let data = serialize_f64(&vectors, &o, None);

    let mut ro = Options::default();
    ro.policy = CompressionPolicy::with_number(5);
    let once = reduce(data, &ro).unwrap();
    let twice = reduce(once.clone(), &ro).unwrap();
    assert_eq!(twice, once);
}

#[test]
fn reduce_with_restrictive_ratio_fails() {
    let vectors = sample_vectors64(5, 2, 2);
    let o = image_options_f64();
    let data = serialize_f64(&vectors, &o, None);

    let mut ro = Options::default();
    ro.policy = CompressionPolicy::with_ratio_percentage(1);
    ro.original_file_size = 10;
    assert_eq!(reduce(data, &ro), Err(Error::RatioTooRestrictive));
}

#[test]
fn reduce_truncated_input_fails() {
    let vectors = sample_vectors64(5, 2, 2);
    let o = image_options_f64();
    let mut data = serialize_f64(&vectors, &o, None);
    data.truncate(data.len() - 1);
    let mut ro = Options::default();
    ro.policy = CompressionPolicy::with_number(2);
    assert_eq!(
        reduce(data, &ro),
        Err(Error::FileReaderError(FileReaderError::UnexpectedEOF))
    );
}
