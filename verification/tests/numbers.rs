use saturn_payouts::leb128::{decode, encode, same_bytes};
use saturn_payouts::text::{chars_of, digit_of, parse_numeral};
use saturn_payouts::u256::U256;

#[test]
fn leb128_encodings() {
    assert_eq!(encode(0), vec![0]);
    assert_eq!(encode(1), vec![1]);
    assert_eq!(encode(127), vec![0x7f]);
    assert_eq!(encode(128), vec![0x80, 0x01]);
    assert_eq!(encode(300), vec![0xac, 0x02]);
    assert_eq!(encode(5088), vec![0xe0, 0x27]);
    assert_eq!(encode(624485), vec![0xe5, 0x8e, 0x26]);
    assert_eq!(
        encode(u64::MAX),
        vec![0xff, 0xff, 0xff, 0xff, 0xff, 0xff, 0xff, 0xff, 0xff, 0x01]
    );
}

#[test]
fn leb128_decodings() {
    assert_eq!(decode(&[0]), Some(0));
    assert_eq!(decode(&[0xe5, 0x8e, 0x26]), Some(624485));
    assert_eq!(
        decode(&[0xff, 0xff, 0xff, 0xff, 0xff, 0xff, 0xff, 0xff, 0xff, 0x01]),
        Some(u64::MAX)
    );
    // empty
    assert_eq!(decode(&[]), None);
    // padded
    assert_eq!(decode(&[0x80, 0x00]), None);
    // a continuation bit on the last byte
    assert_eq!(decode(&[0x80]), None);
    // a byte after the last
    assert_eq!(decode(&[0x01, 0x01]), None);
    // more than 64 bits
    assert_eq!(
        decode(&[0xff, 0xff, 0xff, 0xff, 0xff, 0xff, 0xff, 0xff, 0xff, 0x02]),
        None
    );
    // more than ten bytes
    assert_eq!(decode(&[0x80; 11]), None);
}

#[test]
fn leb128_round_trips() {
    for n in [0u64, 1, 63, 64, 127, 128, 255, 256, 16383, 16384, 1 << 32, u64::MAX - 1, u64::MAX] {
        assert_eq!(decode(&encode(n)), Some(n));
    }
}

#[test]
fn byte_strings_compare() {
    assert!(same_bytes(&[], &[]));
    assert!(same_bytes(&[1, 2], &[1, 2]));
    assert!(!same_bytes(&[1, 2], &[1, 3]));
    assert!(!same_bytes(&[1, 2], &[1]));
}

#[test]
fn numerals_are_read() {
    let read = |s: &str| parse_numeral(&chars_of(s));
    assert_eq!(read("0"), Some(0));
    assert_eq!(read("007"), Some(7));
    assert_eq!(read("5088"), Some(5088));
    assert_eq!(read("9999999999999999999"), Some(9_999_999_999_999_999_999));
    assert_eq!(read("10000000000000000000"), None);
    assert_eq!(read(""), None);
    assert_eq!(read("+5"), None);
    assert_eq!(read("-5"), None);
    assert_eq!(read("5 "), None);
    assert_eq!(read("5a"), None);
    assert_eq!(read("\u{663}"), None);
}

#[test]
fn digits_are_read() {
    assert_eq!(digit_of('0'), Some(0));
    assert_eq!(digit_of('9'), Some(9));
    assert_eq!(digit_of('/'), None);
    assert_eq!(digit_of(':'), None);
    assert_eq!(digit_of('a'), None);
}

#[test]
fn characters_of_a_text() {
    assert_eq!(chars_of(""), Vec::<char>::new());
    assert_eq!(chars_of("t0\u{e9}1"), vec!['t', '0', '\u{e9}', '1']);
}

#[test]
fn u256_from_smaller_numbers() {
    assert_eq!(U256::zero(), U256 { w3: 0, w2: 0, w1: 0, w0: 0 });
    assert_eq!(U256::from_u64(7), U256 { w3: 0, w2: 0, w1: 0, w0: 7 });
    assert_eq!(
        U256::from_u128(u128::MAX),
        U256 { w3: 0, w2: 0, w1: u64::MAX, w0: u64::MAX }
    );
    assert_eq!(U256::from_u128((5 << 64) + 9), U256 { w3: 0, w2: 0, w1: 5, w0: 9 });
    assert_eq!(U256::from_coins(1), U256::from_u128(1_000_000_000_000_000_000));
    assert_eq!(
        U256::from_coins(u64::MAX),
        U256::from_u128(u64::MAX as u128 * 1_000_000_000_000_000_000)
    );
    assert_eq!(U256::from_u128(77).low_u128(), Some(77));
    assert_eq!(U256::from_u128(u128::MAX).low_u128(), Some(u128::MAX));
    assert_eq!(U256 { w3: 0, w2: 1, w1: 0, w0: 0 }.low_u128(), None);
    assert_eq!(U256::from_i128(0), Some(U256::zero()));
    assert_eq!(U256::from_i128(i128::MAX), Some(U256::from_u128(i128::MAX as u128)));
    assert_eq!(U256::from_i128(-1), None);
    assert_eq!(U256::from_i128(i128::MIN), None);
    assert!(U256::zero().is_zero());
    assert!(!U256 { w3: 1, w2: 0, w1: 0, w0: 0 }.is_zero());
}

#[test]
fn u256_sums() {
    let max = U256 { w3: u64::MAX, w2: u64::MAX, w1: u64::MAX, w0: u64::MAX };
    assert_eq!(U256::from_u64(5).checked_add(U256::from_u64(7)), Some(U256::from_u64(12)));
    assert_eq!(
        U256::from_u128(u128::MAX).checked_add(U256::from_u64(1)),
        Some(U256 { w3: 0, w2: 1, w1: 0, w0: 0 })
    );
    assert_eq!(max.checked_add(U256::zero()), Some(max));
    assert_eq!(max.checked_add(U256::from_u64(1)), None);
    assert_eq!(max.checked_add(max), None);
    assert_eq!(
        U256 { w3: 1 << 63, w2: 0, w1: 0, w0: 0 }.checked_add(U256 { w3: 1 << 63, w2: 0, w1: 0, w0: 0 }),
        None
    );
}

#[test]
fn u256_products_and_quotients() {
    let max = U256 { w3: u64::MAX, w2: u64::MAX, w1: u64::MAX, w0: u64::MAX };
    assert_eq!(U256::from_u64(100).checked_mul_u64(130), Some(U256::from_u64(13000)));
    assert_eq!(
        U256::from_u64(u64::MAX).checked_mul_u64(u64::MAX),
        Some(U256::from_u128(u64::MAX as u128 * u64::MAX as u128))
    );
    assert_eq!(
        U256::from_u128(u128::MAX).checked_mul_u64(2),
        Some(U256 { w3: 0, w2: 1, w1: u64::MAX, w0: u64::MAX - 1 })
    );
    assert_eq!(max.checked_mul_u64(1), Some(max));
    assert_eq!(max.checked_mul_u64(0), Some(U256::zero()));
    assert_eq!(max.checked_mul_u64(2), None);
    assert_eq!(U256::from_u64(13000).div_u64(100), U256::from_u64(130));
    assert_eq!(U256::from_u64(199).div_u64(100), U256::from_u64(1));
    assert_eq!(
        U256 { w3: 0, w2: 1, w1: 0, w0: 0 }.div_u64(2),
        U256 { w3: 0, w2: 0, w1: 1 << 63, w0: 0 }
    );
    assert_eq!(
        max.div_u64(u64::MAX),
        U256 { w3: 1, w2: 1, w1: 1, w0: 1 }
    );
    assert_eq!(max.div_u64(1), max);
}

#[test]
fn u256_order() {
    let one = U256::from_u64(1);
    let big = U256 { w3: 0, w2: 1, w1: 0, w0: 0 };
    assert!(one.lt(&big));
    assert!(!big.lt(&one));
    assert!(!one.lt(&one));
    assert!(U256 { w3: 0, w2: 1, w1: 0, w0: 5 }.lt(&U256 { w3: 0, w2: 1, w1: 1, w0: 0 }));
}
