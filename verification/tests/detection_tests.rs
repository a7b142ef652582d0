use rust_engine::decode::decode;
use rust_engine::decode::grid_from_decoded;
use rust_engine::detect::detect_from_decoded;
use rust_engine::detect::perform_detection;

fn gray_png(width: u32, height: u32, samples: Vec<u8>) -> Vec<u8> {
    let picture = image::GrayImage::from_raw(width, height, samples).expect("shape");
    let mut out = std::io::Cursor::new(Vec::new());
    picture.write_to(&mut out, image::ImageFormat::Png).expect("encode");
    out.into_inner()
}

#[test]
fn garbage_bytes_are_a_failure_with_a_message() {
    let garbage: Vec<u8> = (0..64u32).map(|i| (i * 73 + 11) as u8).collect();
    let failure = perform_detection(&garbage).expect_err("no image header");
    assert!(!failure.message.is_empty());
}

#[test]
fn empty_input_is_a_failure_with_a_message() {
    let failure = perform_detection(&[]).expect_err("nothing to decode");
    assert!(!failure.message.is_empty());
}

#[test]
fn truncated_png_is_a_failure() {
    let mut bytes = gray_png(8, 8, vec![3; 64]);
    bytes.truncate(20);
    assert!(perform_detection(&bytes).is_err());
    assert!(decode(&bytes).is_err());
}

#[test]
fn decode_gives_the_encoded_samples() {
    let samples: Vec<u8> = vec![0, 10, 20, 30, 40, 250];
    let grid = decode(&gray_png(3, 2, samples.clone())).expect("a png");
    assert_eq!(grid.width(), 3);
    assert_eq!(grid.height(), 2);
    assert_eq!(grid.samples(), &samples);
}

#[test]
fn decode_converts_colour_to_luma() {
    let picture = image::RgbImage::from_pixel(5, 4, image::Rgb([255, 255, 255]));
    let mut out = std::io::Cursor::new(Vec::new());
    picture.write_to(&mut out, image::ImageFormat::Png).expect("encode");
    let grid = decode(&out.into_inner()).expect("a png");
    assert_eq!(grid.width(), 5);
    assert_eq!(grid.height(), 4);
    assert_eq!(grid.samples(), &vec![255u8; 20]);
}

#[test]
fn uniform_image_fills_one_bucket_and_has_no_variance() {
    let evidence = perform_detection(&gray_png(12, 12, vec![77; 144])).expect("a png");
    assert_eq!(evidence.sample_count, 144);
    assert_eq!(evidence.histogram[77], 144);
    assert_eq!(evidence.histogram.iter().filter(|&&c| c > 0).count(), 1);
    assert_eq!(evidence.variance.numerator, 0);
    assert_eq!(evidence.variance.denominator, 144 * 144);
}

#[test]
fn evenly_spread_image_fills_every_bucket_alike() {
    let samples: Vec<u8> = (0..1024u32).map(|i| (i % 256) as u8).collect();
    let evidence = perform_detection(&gray_png(32, 32, samples)).expect("a png");
    assert_eq!(evidence.sample_count, 1024);
    assert!(evidence.histogram.iter().all(|&c| c == 4));
    // The variance of the levels 0..=255, each equally often, is (256^2 - 1) / 12.
    let v = evidence.variance;
    assert_eq!(v.numerator * 12, v.denominator * 65535);
}

#[test]
fn detection_of_a_known_image() {
    let evidence = perform_detection(&gray_png(2, 2, vec![1, 2, 3, 4])).expect("a png");
    assert_eq!(evidence.sample_count, 4);
    assert_eq!(&evidence.histogram[0..6], &[0, 1, 1, 1, 1, 0]);
    assert_eq!(evidence.variance.numerator, 20);
    assert_eq!(evidence.variance.denominator, 16);
}

#[test]
fn same_bytes_give_the_same_outcome() {
    let bytes = gray_png(7, 5, (0..35u8).map(|i| i.wrapping_mul(29)).collect());
    let first = perform_detection(&bytes).expect("a png");
    let second = perform_detection(&bytes).expect("a png");
    assert_eq!(first.sample_count, second.sample_count);
    assert_eq!(first.histogram, second.histogram);
    assert_eq!(first.variance.numerator, second.variance.numerator);
    assert_eq!(first.variance.denominator, second.variance.denominator);

    let garbage = vec![0xABu8; 40];
    let a = perform_detection(&garbage).expect_err("garbage");
    let b = perform_detection(&garbage).expect_err("garbage");
    assert_eq!(a.message, b.message);
}

#[test]
fn decoder_error_is_passed_on() {
    let failure = detect_from_decoded(Err(String::from("bad header"))).expect_err("an error");
    assert_eq!(failure.message, "bad header");
    let failure = grid_from_decoded(Err(String::from("bad header"))).expect_err("an error");
    assert_eq!(failure.message, "bad header");
}

#[test]
fn zero_dimension_image_is_a_failure() {
    let failure = detect_from_decoded(Ok((0, 5, vec![]))).expect_err("no pixels");
    assert_eq!(failure.message, "decoded image has an unusable shape");
    assert!(detect_from_decoded(Ok((5, 0, vec![]))).is_err());
    assert!(grid_from_decoded(Ok((0, 0, vec![]))).is_err());
}

#[test]
fn mismatched_sample_count_is_a_failure() {
    let failure = detect_from_decoded(Ok((2, 2, vec![1, 2, 3]))).expect_err("too few");
    assert_eq!(failure.message, "decoded image has an unusable shape");
}

#[test]
fn decoded_image_is_measured() {
    let evidence = detect_from_decoded(Ok((2, 1, vec![0, 255]))).expect("a grid");
    assert_eq!(evidence.sample_count, 2);
    assert_eq!(evidence.histogram[0], 1);
    assert_eq!(evidence.histogram[255], 1);
    assert_eq!(evidence.variance.numerator, 65025);
    assert_eq!(evidence.variance.denominator, 4);
}
