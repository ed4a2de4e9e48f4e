use redeemer::address::parse_amount;
use redeemer::address::read_canonical;
use redeemer::vertices::lower_bound;
use redeemer::vertices::transform_to_flow_vertices;
use redeemer::word::add_limbs;
use redeemer::word::Total;
use redeemer::word::Word;

fn word(w0: u64) -> Word {
    Word { w3: 0, w2: 0, w1: 0, w0 }
}

#[test]
fn words_compare_from_the_top_limb() {
    let low = Word { w3: 0, w2: 0, w1: 1, w0: 0 };
    let high = Word { w3: 0, w2: 1, w1: 0, w0: 0 };
    assert!(low.below(&high));
    assert!(!high.below(&low));
    assert!(!low.below(&low));
    assert!(low.same(&low));
    assert!(!low.same(&high));
    assert!(word(u64::MAX).below(&low));
}

#[test]
fn limbs_add_with_carry() {
    assert_eq!(add_limbs(1, 2, false), (3, false));
    assert_eq!(add_limbs(u64::MAX, 1, false), (0, true));
    assert_eq!(add_limbs(u64::MAX, u64::MAX, true), (u64::MAX, true));
    assert_eq!(add_limbs(u64::MAX, 0, true), (0, true));
    assert_eq!(add_limbs(5, 0, true), (6, false));
}

#[test]
fn totals_carry_through_every_limb() {
    let full = Word { w3: u64::MAX, w2: u64::MAX, w1: u64::MAX, w0: u64::MAX };
    let once = Total::zero().plus(&full);
    assert_eq!(once, full.widen());
    assert!(once.matches_word(&full));
    let twice = once.plus(&word(1));
    assert_eq!(twice, Total { t4: 1, t3: 0, t2: 0, t1: 0, t0: 0 });
    assert!(!twice.matches_word(&Word::zero()));
    assert_eq!(twice.limbs(), [0, 0, 0, 0, 1]);
    assert_eq!(Word::from_limbs([1, 2, 3, 4]), Word { w3: 4, w2: 3, w1: 2, w0: 1 });
}

#[test]
fn amounts_are_decimal_numerals() {
    assert_eq!(parse_amount("1000"), Some(word(1000)));
    assert_eq!(parse_amount("0"), Some(word(0)));
    assert_eq!(parse_amount("0012"), Some(word(12)));
    assert_eq!(parse_amount("18446744073709551616"), Some(Word { w3: 0, w2: 0, w1: 1, w0: 0 }));
    for bad in ["", "1_000", "_", "12a", "-1", "+1", "1.5", " 1", "1 ", "0x1", "\u{661}"] {
        assert_eq!(parse_amount(bad), None, "{:?}", bad);
    }
    assert_eq!(
        parse_amount("115792089237316195423570985008687907853269984665640564039457584007913129639935"),
        Some(Word { w3: u64::MAX, w2: u64::MAX, w1: u64::MAX, w0: u64::MAX })
    );
    assert_eq!(
        parse_amount("115792089237316195423570985008687907853269984665640564039457584007913129639936"),
        None
    );
}

#[test]
fn addresses_have_their_numbers() {
    assert_eq!(
        read_canonical("0xcf6dc192dc292d5f2789da2db02d6dd4f41f4214"),
        Some(Word { w3: 0, w2: 0xcf6dc192, w1: 0xdc292d5f2789da2d, w0: 0xb02d6dd4f41f4214 })
    );
    assert_eq!(read_canonical("0x10"), Some(word(16)));
    assert_eq!(read_canonical("0x0"), Some(word(0)));
    assert_eq!(read_canonical("0x0010"), Some(word(16)));
    assert_eq!(read_canonical("0xg"), None);
    assert_eq!(read_canonical("x10"), None);
}

#[test]
fn lower_bound_finds_the_place() {
    let words = vec![word(10), word(20), word(30)];
    assert_eq!(lower_bound(&words, &word(5)), 0);
    assert_eq!(lower_bound(&words, &word(10)), 0);
    assert_eq!(lower_bound(&words, &word(11)), 1);
    assert_eq!(lower_bound(&words, &word(30)), 2);
    assert_eq!(lower_bound(&words, &word(31)), 3);
    assert_eq!(lower_bound(&Vec::new(), &word(31)), 0);
}

#[test]
fn index_gives_the_coordinates() {
    let (vertices, index) = transform_to_flow_vertices(&[], "0x30", "0x10").unwrap();
    assert_eq!(vertices, vec!["0x10", "0x30"]);
    assert_eq!(index.len(), 2);
    assert_eq!(index.coordinate(&word(0x10)), Some(0));
    assert_eq!(index.coordinate(&word(0x30)), Some(1));
    assert_eq!(index.coordinate(&word(0x20)), None);
}

#[test]
fn canonical_addresses_are_read_as_they_are() {
    for bad in ["", "0", "0x", "10", "0x0x10", "0xFf", "0X10", "00x10", " 0x10", "0x10 ", "0xf_f", "0x\u{e9}"] {
        assert_eq!(read_canonical(bad), None, "{:?}", bad);
    }
    assert_eq!(
        read_canonical("0xffffffffffffffffffffffffffffffffffffffff"),
        Some(Word { w3: 0, w2: 0xffffffff, w1: u64::MAX, w0: u64::MAX })
    );
    assert_eq!(read_canonical("0x0ffffffffffffffffffffffffffffffffffffffff"), None);
    assert_eq!(
        read_canonical("0xffffffffffffffffffffffffffffffffffffffffffffffffffffffffffffffff"),
        None
    );
}
