use rpeg::bitpack;

#[test]
fn unsigned_left_shifts() {
    assert_eq!(bitpack::shlu(0b101, 5), 0b10100000);
    assert_eq!(bitpack::shlu(0xf, 32), 0xf00000000);
    assert_eq!(bitpack::shlu(1111, 64), 0);
    assert_eq!(bitpack::shlu(7001, 0), 7001);
}

#[test]
fn signed_left_shifts() {
    assert_eq!(bitpack::shls(-1, 2), -4);
    assert_eq!(bitpack::shls(1, 2), 4);
    assert_eq!(bitpack::shls(-1, 64), 0);
    assert_eq!(bitpack::shls(-1, 0), -1);
}

#[test]
fn unsigned_right_shifts() {
    assert_eq!(bitpack::shru(0b10100000, 5), 0b101);
    assert_eq!(bitpack::shru(0xf00000000, 32), 0xf);
    assert_eq!(bitpack::shru(1111, 64), 0);
    assert_eq!(bitpack::shru(7001, 0), 7001);
}

#[test]
fn signed_right_shifts() {
    assert_eq!(bitpack::shrs(-1, 2), -1);
    assert_eq!(bitpack::shrs(16, 2), 4);
    assert_eq!(bitpack::shrs(-1, 64), 0);
    assert_eq!(bitpack::shrs(-1, 0), -1);
}

#[test]
fn test_maxu() {
    assert_eq!(bitpack::maxu(0), 0);
    assert_eq!(bitpack::maxu(5), 0b11111);
    assert_eq!(bitpack::maxu(48), 0xffffffffffff);
    assert_eq!(bitpack::maxu(75), u64::MAX);
}

#[test]
fn test_maxs() {
    assert_eq!(bitpack::maxs(0), 0);
    assert_eq!(bitpack::maxs(5), 0b1111);
    assert_eq!(bitpack::maxs(48), 0x7fffffffffff);
    assert_eq!(bitpack::maxs(75), i64::MAX);
}

#[test]
fn test_fitsu() {
    assert!(bitpack::fitsu(7, 3));
    assert!(!bitpack::fitsu(64, 6));
    assert!(!bitpack::fitsu(7, 0));
    assert!(bitpack::fitsu(64, 64));
}

#[test]
fn test_fitss() {
    assert!(bitpack::fitss(7, 4));
    assert!(!bitpack::fitss(64, 7));
    assert!(!bitpack::fitss(7, 0));
    assert!(bitpack::fitss(0x7fffffffffffffff, 64));
}

#[test]
fn test_getu() {
    assert_eq!(bitpack::getu(0b11000000, 3, 5), 6);
    assert_eq!(bitpack::getu(0xffbacde, 8, 20), 0xff);
    assert_eq!(bitpack::getu(964736, 0, 0), 0);
    assert_eq!(bitpack::getu(10101010101, 0, 7), 0);
    assert_eq!(bitpack::getu(101010010101010, 64, 0), 101010010101010);
}

#[test]
fn test_gets() {
    assert_eq!(bitpack::gets(0b11000000, 3, 5), -2);
    assert_eq!(bitpack::gets(0xffbacde, 8, 20), -1);
    assert_eq!(bitpack::gets(964736, 0, 0), 0);
    assert_eq!(bitpack::gets(10101010101, 0, 7), 0);
    assert_eq!(bitpack::gets(101010010101010, 64, 0), 101010010101010);
}

#[test]
fn test_newu() {
    assert_eq!(bitpack::newu(0, 3, 5, 6), Some(0b11000000));
    assert_eq!(bitpack::newu(0, 16, 20, 0xfffff), None); //value does not fit
    assert_eq!(bitpack::newu(0, 45, 20, 6), None); //target area extends outside of word
    assert_eq!(bitpack::newu(0b11000000, 3, 5, 5), Some(0b10100000)) //target area is overwritten
}

#[test]
fn test_news() {
    assert_eq!(bitpack::news(0, 3, 5, -2), Some(0b11000000));
    assert_eq!(bitpack::news(0, 16, 20, 0xffff), None); //value does not fit
    assert_eq!(bitpack::news(0, 45, 20, 6), None); //target area extends outside of word
    assert_eq!(bitpack::news(0b11000000, 3, 5, -3), Some(0b10100000)) //target area is overwritten
}

#[test]
fn shifts_at_or_past_word_width_yield_zero() {
    for amount in [64, 65, 100, u64::MAX] {
        assert_eq!(bitpack::shlu(0xdead_beef, amount), 0);
        assert_eq!(bitpack::shru(0xdead_beef, amount), 0);
        assert_eq!(bitpack::shls(-77, amount), 0);
        assert_eq!(bitpack::shrs(-77, amount), 0);
    }
}

#[test]
fn newu_leaves_the_rest_of_the_word_alone() {
    let word = bitpack::newu(0, 16, 20, 0xabcd).unwrap();
    assert_eq!(bitpack::getu(word, 16, 20), 0xabcd);
    assert_eq!(bitpack::getu(word, 20, 0), 0);
    assert_eq!(bitpack::getu(word, 28, 36), 0);
}

#[test]
fn newu_replaces_a_full_target_field() {
    assert_eq!(bitpack::newu(u64::MAX, 4, 0, 1), Some(0xffff_ffff_ffff_fff1));
    let word = bitpack::newu(0xabcd_0000, 16, 16, 0x1234).unwrap();
    assert_eq!(word, 0x1234_0000);
    assert_eq!(bitpack::news(word, 16, 16, -1), Some(0xffff_0000));
}

#[test]
fn news_stores_negative_values_in_twos_complement() {
    let word = bitpack::news(0, 5, 18, -16).unwrap();
    assert_eq!(bitpack::getu(word, 5, 18), 0b10000);
    assert_eq!(bitpack::gets(word, 5, 18), -16);
}
