use nalgebra::DMatrix;
use svd_img::aggregate::{Aggregator, Aggregator1, Rgba};
use svd_img::decode::{imgbuf_from_matrix_rgba, read_file_f64, read_file_header};
use svd_img::encode::{image_matrix_rgba, triplets_from_svd32, triplets_from_svd64,
    write_vectors_f64, write_vectors_header, CompressionPolicy, Options};
use svd_img::format::AudioHeader;
use svd_img::matrix::Matrix;
use svd_img::media::ImageRgba;
use svd_img::read::ByteReader;
use svd_img::write::ByteWriter;
use svd_img::Error;

#[test]
fn audio_header_matches_wav_layout() {
    let w = wav::Header::new(1, 2, 44100, 16);
    let blob: [u8; 16] = w.into();
    let mine = AudioHeader {
        audio_format: 1,
        channel_count: 2,
        sampling_rate: 44100,
        bytes_per_second: w.bytes_per_second,
        bytes_per_sample: w.bytes_per_sample,
        bits_per_sample: 16,
    };
    assert_eq!(mine.to_bytes(), blob.to_vec());
    let back = AudioHeader::from_bytes(&blob.to_vec());
    assert_eq!(back, mine);
}

#[test]
fn svd_packaging_failure_rules() {
    let sv: Vec<u64> = vec![1, 2];
    assert_eq!(
        triplets_from_svd64(false, None, None, &sv, 0),
        Err(Error::SVDError)
    );
    assert_eq!(
        triplets_from_svd64(true, None, Some(Vec::new()), &sv, 0),
        Err(Error::NoSVDResult)
    );
    assert_eq!(
        triplets_from_svd64(true, Some(Vec::new()), None, &sv, 0),
        Err(Error::NoSVDResult)
    );
    let sv32: Vec<u32> = vec![9];
    assert_eq!(
        triplets_from_svd32(false, None, None, &sv32, 0),
        Err(Error::SVDError)
    );
}

#[test]
fn svd_packaging_takes_first_n() {
    let sv: Vec<u64> = vec![30, 20, 10];
    let u = vec![vec![1u64, 2], vec![3, 4], vec![5, 6]];
    let vt = vec![vec![7u64], vec![8], vec![9]];
    let v = triplets_from_svd64(true, Some(u), Some(vt), &sv, 2).unwrap();
    assert_eq!(v.len(), 2);
    assert_eq!(v[0], (30, vec![1, 2], vec![7]));
    assert_eq!(v[1], (20, vec![3, 4], vec![8]));
}

#[test]
fn encode_decode_roundtrip_full_rank() {
    // a synthetic 4x4 RGBA image, FixedCount(4), double precision,
    // aggregation and alpha enabled
    let scheme = Aggregator::One(Aggregator1);
    let pixels: Vec<Rgba> = (0..16)
        .map(|k: u32| Rgba {
            r: (10 + k * 13) as u8,
            g: (240 - k * 7) as u8,
            b: ((k * k + 3) % 256) as u8,
            a: (255 - k * 5) as u8,
        })
        .collect();
    let img = ImageRgba::from_pixels(4, 4, pixels.clone());
    let m = image_matrix_rgba(&img, &Some(scheme));

    let mut options = Options::default();
    options.policy = CompressionPolicy::with_number(4);
    options.use_f64 = true;
    options.use_aggregate = true;
    options.with_alpha = true;
    let n = options.n_with(m.height, m.width).unwrap();
    assert_eq!(n, 4);

    let dm = DMatrix::from_fn(4, 4, |i, j| m.get(i, j) as f64);
    let svd = dm.try_svd(true, true, 1.0e-12, 0).unwrap();
    let u = svd.u.unwrap();
    let v_t = svd.v_t.unwrap();
    let sv = svd.singular_values;

    // weights come back non-negative and descending
    for i in 0..4 {
        assert!(sv[i] >= 0.0);
        if i > 0 {
            assert!(sv[i - 1] >= sv[i]);
        }
    }

    let sv_bits: Vec<u64> = (0..n).map(|i| sv[i].to_bits()).collect();
    let u_cols: Vec<Vec<u64>> = (0..n)
        .map(|c| (0..4).map(|r| u[(r, c)].to_bits()).collect())
        .collect();
    let vt_rows: Vec<Vec<u64>> = (0..n)
        .map(|r| (0..4).map(|c| v_t[(r, c)].to_bits()).collect())
        .collect();
    let vectors = triplets_from_svd64(true, Some(u_cols), Some(vt_rows), &sv_bits, n).unwrap();

    let mut fw = ByteWriter::new();
    write_vectors_header(&mut fw, &vectors, &options, None);
    write_vectors_f64(&mut fw, &vectors);
    let file = fw.data;

    // decode the container back
    let mut fr = ByteReader::new(file);
    let header = read_file_header(&mut fr).unwrap();
    assert!(!header.is_wav);
    assert!(header.use_f64);
    assert!(header.with_alpha);
    assert!(header.use_aggregate);
    let stored = read_file_f64(&mut fr).unwrap();
    assert_eq!(stored.len(), 4);

    // recombine the triplets in double precision
    let mut rec = [[0.0f64; 4]; 4];
    for t in &stored {
        let weight = f64::from_bits(t.0);
        for i in 0..4 {
            for j in 0..4 {
                rec[i][j] += weight * f64::from_bits(t.1[i]) * f64::from_bits(t.2[j]);
            }
        }
    }

    // with n == min(height, width) the reconstruction error stays far below
    // the rounding threshold at every cell
    let mut cells: Vec<i32> = Vec::new();
    for i in 0..4 {
        for j in 0..4 {
            let exact = m.get(i, j) as f64;
            assert!((rec[i][j] - exact).abs() < 0.5);
            cells.push(rec[i][j].round() as i32);
        }
    }
    let m2 = Matrix { height: 4, width: 4, cells };

    let img2 = imgbuf_from_matrix_rgba(&m2, true, &scheme);
    assert_eq!(img2.pixels, pixels);
}

#[test]
fn reconstruction_error_shrinks_with_more_triplets() {
    // the reconstruction error is non-increasing as the kept count grows
    let dm = DMatrix::from_fn(6, 6, |i, j| ((i * 7 + j * j * 3 + 11) % 97) as f64);
    let svd = dm.clone().try_svd(true, true, 1.0e-12, 0).unwrap();
    let u = svd.u.unwrap();
    let v_t = svd.v_t.unwrap();
    let sv = svd.singular_values;

    let mut previous = f64::INFINITY;
    for n in 1..=6usize {
        let mut err = 0.0f64;
        for i in 0..6 {
            for j in 0..6 {
                let mut cell = 0.0f64;
                for k in 0..n {
                    cell += sv[k] * u[(i, k)] * v_t[(k, j)];
                }
                err += (cell - dm[(i, j)]).powi(2);
            }
        }
        assert!(err <= previous + 1.0e-6);
        previous = err;
    }
    // full rank reproduces the matrix up to rounding
    assert!(previous < 1.0e-12);
}
