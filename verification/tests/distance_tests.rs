use phash_core::distance::{distance, LengthMismatchError};

#[test]
fn literal_example() {
    // XOR of the two bytes is 0b00000010, whose population count is 1.
    let a = [0b1011_0100u8];
    let b = [0b1011_0110u8];
    assert_eq!(distance(&a, &b), Ok(1));
}

#[test]
fn identity_zero() {
    assert_eq!(distance(&[], &[]), Ok(0));
    assert_eq!(distance(&[0x00], &[0x00]), Ok(0));
    assert_eq!(distance(&[0xFF], &[0xFF]), Ok(0));
    let a = [0xDE, 0xAD, 0xBE, 0xEF, 0x00, 0x15];
    assert_eq!(distance(&a, &a), Ok(0));
}

#[test]
fn symmetry() {
    let pairs: [(&[u8], &[u8]); 3] = [
        (&[0x12, 0x34], &[0x56, 0x78]),
        (&[0xFF, 0x00, 0xAA], &[0x00, 0xFF, 0x55]),
        (&[7], &[9]),
    ];
    for (a, b) in pairs {
        let d_ab = distance(a, b).unwrap();
        let d_ba = distance(b, a).unwrap();
        assert_eq!(d_ab, d_ba);
    }
}

#[test]
fn bounds() {
    // The distance over L bytes never exceeds 8 * L, and the extremes are hit.
    assert_eq!(distance(&[0x00, 0x00], &[0xFF, 0xFF]), Ok(16));
    let d = distance(&[0x3C, 0x91, 0x07], &[0xE2, 0x4B, 0xD8]).unwrap();
    assert!(d <= 24);
}

#[test]
fn single_bit() {
    // Flipping any single bit of any byte moves the distance to exactly 1.
    for k in 0..8u8 {
        let a = [0x5Au8, 0xC3];
        let mut b = a;
        b[1] = a[1] ^ (1 << k);
        assert_eq!(distance(&a, &b), Ok(1));
        let mut c = a;
        c[0] = a[0] ^ (1 << k);
        assert_eq!(distance(&a, &c), Ok(1));
    }
}

#[test]
fn mismatch_rejected() {
    assert_eq!(distance(&[1, 2, 3], &[1, 2]), Err(LengthMismatchError));
    assert_eq!(distance(&[], &[0]), Err(LengthMismatchError));
    assert_eq!(distance(&[0xFF; 8], &[0xFF; 9]), Err(LengthMismatchError));
}

#[test]
fn known_distances() {
    assert_eq!(distance(&[0b1111_0000], &[0b0000_1111]), Ok(8));
    assert_eq!(distance(&[0b1010_1010], &[0b0101_0101]), Ok(8));
    assert_eq!(distance(&[0x01, 0x80], &[0x00, 0x00]), Ok(2));
}
