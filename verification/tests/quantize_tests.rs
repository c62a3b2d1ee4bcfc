use rpeg::quantize::{construct_word, parse_word};

#[test]
fn test_construct_word() {
    let answer: u32 = 0b10000000010001011110000011110000;
    assert_eq!(construct_word(256, -15, 15, 0, 15, 0), answer);
}

#[test]
fn test_parse_word() {
    let input: u32 = 0b10000000010001011110000011110000;
    let answer: (u64, i64, i64, i64, u64, u64) = (256, -15, 15, 0, 15, 0);
    assert_eq!(parse_word(input), answer);
}

#[test]
fn any_word_survives_parse_then_construct() {
    for word in [0u32, 1, 0x8045e0f0, 0xdeadbeef, u32::MAX, 0x00400000, 0x7fffffff] {
        let (a, b, c, d, pb, pr) = parse_word(word);
        assert_eq!(construct_word(a, b, c, d, pb, pr), word);
    }
}

#[test]
fn field_extremes_survive_construct_then_parse() {
    for fields in [
        (0u64, 0i64, 0i64, 0i64, 0u64, 0u64),
        (511, 15, -16, 15, 15, 0),
        (511, -16, -16, -16, 15, 15),
        (256, -1, 1, -2, 7, 8),
    ] {
        let (a, b, c, d, pb, pr) = fields;
        let word = construct_word(a, b, c, d, pb, pr);
        assert_eq!(parse_word(word), fields);
    }
}
