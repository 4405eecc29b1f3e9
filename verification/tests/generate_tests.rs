use image::codecs::jpeg::JpegEncoder;
use image::{DynamicImage, ImageBuffer, ImageFormat, Luma};
use phash_core::generate::{generate, phash, Fingerprint, GenerateError, HashConfig};
use std::io::Cursor;

fn png_bytes(img: &DynamicImage) -> Vec<u8> {
    let mut buf = Cursor::new(Vec::new());
    img.write_to(&mut buf, ImageFormat::Png).unwrap();
    buf.into_inner()
}

fn jpeg_bytes(img: &DynamicImage, quality: u8) -> Vec<u8> {
    let mut out = Vec::new();
    let mut enc = JpegEncoder::new_with_quality(&mut out, quality);
    enc.encode_image(img).unwrap();
    out
}

fn smooth_image() -> DynamicImage {
    let img = ImageBuffer::from_fn(64, 64, |x, y| Luma([((x * 3 + y) % 256) as u8]));
    DynamicImage::ImageLuma8(img)
}

fn noise_image(seed: u32) -> DynamicImage {
    let mut state = seed;
    let img = ImageBuffer::from_fn(64, 64, |_x, _y| {
        state = state.wrapping_mul(1664525).wrapping_add(1013904223);
        Luma([(state >> 24) as u8])
    });
    DynamicImage::ImageLuma8(img)
}

fn default_config() -> HashConfig {
    HashConfig { bits: 64, width: 8, height: 8 }
}

#[test]
fn generate_deterministic() {
    let bytes = png_bytes(&smooth_image());
    let cfg = default_config();
    let a = generate(&bytes, &cfg).unwrap();
    let b = generate(&bytes, &cfg).unwrap();
    assert_eq!(a.as_bytes(), b.as_bytes());
    assert_eq!(a.to_base64(), b.to_base64());
}

#[test]
fn generate_rejects_garbage() {
    let cfg = default_config();
    assert_eq!(generate(b"not an image at all", &cfg).unwrap_err(), GenerateError::Decode);
    assert_eq!(generate(&[], &cfg).unwrap_err(), GenerateError::Decode);
    // A PNG signature with a truncated body is still not a well-formed image.
    let truncated = &png_bytes(&smooth_image())[..20];
    assert_eq!(generate(truncated, &cfg).unwrap_err(), GenerateError::Decode);
}

#[test]
fn generate_rejects_inconsistent_config() {
    let bytes = png_bytes(&smooth_image());
    let wrong_bits = HashConfig { bits: 63, width: 8, height: 8 };
    assert_eq!(generate(&bytes, &wrong_bits).unwrap_err(), GenerateError::Configuration);
    let empty_grid = HashConfig { bits: 0, width: 0, height: 8 };
    assert_eq!(generate(&bytes, &empty_grid).unwrap_err(), GenerateError::Configuration);
    let oversized = HashConfig { bits: 300 * 300, width: 300, height: 300 };
    assert_eq!(generate(&bytes, &oversized).unwrap_err(), GenerateError::Configuration);
    // An inconsistent configuration is reported even for undecodable bytes.
    assert_eq!(generate(b"garbage", &wrong_bits).unwrap_err(), GenerateError::Configuration);
}

#[test]
fn fingerprint_lengths() {
    let bytes = png_bytes(&smooth_image());
    let fp = generate(&bytes, &default_config()).unwrap();
    assert_eq!(fp.as_bytes().len(), 8);
    assert_eq!(fp.to_base64().len(), 11);
    let small = HashConfig { bits: 16, width: 4, height: 4 };
    let fp_small = generate(&bytes, &small).unwrap();
    assert_eq!(fp_small.as_bytes().len(), 2);
}

#[test]
fn default_config_is_64_bits() {
    let cfg = HashConfig::default();
    assert_eq!(cfg, default_config());
    assert!(cfg.is_valid());
}

#[test]
fn phash_matches_hasher_library() {
    // The generator must agree, bytes and text, with hashing the decoded
    // image directly through the perceptual hasher.
    let bytes = png_bytes(&smooth_image());
    let img = image::load_from_memory(&bytes).unwrap();
    let hasher = image_hasher::HasherConfig::new()
        .hash_alg(image_hasher::HashAlg::Gradient)
        .to_hasher();
    let reference = hasher.hash_image(&img);

    let fp = generate(&bytes, &default_config()).unwrap();
    assert_eq!(fp.as_bytes(), reference.as_bytes());
    assert_eq!(fp.to_base64(), reference.to_base64());
    assert_eq!(phash(&bytes).unwrap(), reference.to_base64());
}

#[test]
fn phash_error_on_garbage() {
    assert_eq!(phash(b"\x00\x01\x02"), Err(GenerateError::Decode));
}

#[test]
fn from_bytes_roundtrip() {
    let fp = Fingerprint::from_bytes(vec![0xAB, 0xCD]).unwrap();
    assert_eq!(fp.as_bytes(), &[0xAB, 0xCD]);
    let other = Fingerprint::from_bytes(vec![0xAB, 0xCC]).unwrap();
    assert_eq!(fp.distance(&other), Ok(1));
    let short = Fingerprint::from_bytes(vec![0xAB]).unwrap();
    assert!(fp.distance(&short).is_err());
}

#[test]
fn recompression_stays_close() {
    // The same source re-encoded at two JPEG quality levels stays within
    // a small distance.
    let img = smooth_image();
    let cfg = default_config();
    let a = generate(&jpeg_bytes(&img, 90), &cfg).unwrap();
    let b = generate(&jpeg_bytes(&img, 30), &cfg).unwrap();
    let d = a.distance(&b).unwrap();
    assert!(d <= 5, "distance across qualities was {}", d);
}

#[test]
fn unrelated_noise_is_distant() {
    // Two unrelated noise images land statistically near half the bits.
    let cfg = default_config();
    let a = generate(&png_bytes(&noise_image(1)), &cfg).unwrap();
    let b = generate(&png_bytes(&noise_image(0xC0FFEE)), &cfg).unwrap();
    let d = a.distance(&b).unwrap();
    assert!((28..=36).contains(&d), "distance between noise images was {}", d);
}
