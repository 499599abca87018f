use relational_db::binary::{Binary, Datum};
use relational_db::bytes::{be_encode, be_u64, bytes_equal, bytes_less};

fn round_trip(value: Datum) {
    let packed = Binary::pack(&[value.clone()]);
    assert_eq!(packed.unpack(), Some(vec![value]));
}

#[test]
fn every_kind_of_value_survives_packing() {
    round_trip(Datum::from_null());
    round_trip(Datum::from_bool(true));
    round_trip(Datum::from_bool(false));
    round_trip(Datum::from_i16(-1));
    round_trip(Datum::from_i16(i16::MIN));
    round_trip(Datum::from_i16(i16::MAX));
    round_trip(Datum::from_i32(i32::MIN));
    round_trip(Datum::from_i32(i32::MAX));
    round_trip(Datum::from_i64(i64::MIN));
    round_trip(Datum::from_i64(i64::MAX));
    round_trip(Datum::from_u64(0));
    round_trip(Datum::from_u64(u64::MAX));
    round_trip(Datum::from_string(String::new()));
    round_trip(Datum::from_string("a \u{1F600} text".to_owned()));
}

#[test]
fn a_row_of_many_values_survives_packing() {
    let row = vec![
        Datum::from_i16(1),
        Datum::from_null(),
        Datum::from_string("abc".to_owned()),
        Datum::from_bool(true),
        Datum::from_u64(42),
    ];
    assert_eq!(Binary::pack(&row).unpack(), Some(row));
}

#[test]
fn an_empty_row_packs_to_nothing() {
    assert_eq!(Binary::pack(&[]).to_bytes(), &[] as &[u8]);
    assert_eq!(Binary::with_data(vec![]).unpack(), Some(vec![]));
}

#[test]
fn packed_bytes_are_a_tag_and_a_big_endian_payload() {
    assert_eq!(Binary::pack(&[Datum::from_null()]).to_bytes(), &[0]);
    assert_eq!(Binary::pack(&[Datum::from_bool(false)]).to_bytes(), &[1]);
    assert_eq!(Binary::pack(&[Datum::from_bool(true)]).to_bytes(), &[2]);
    assert_eq!(Binary::pack(&[Datum::from_u64(258)]).to_bytes(), &[6, 0, 0, 0, 0, 0, 0, 1, 2]);
    assert_eq!(
        Binary::pack(&[Datum::from_string("ab".to_owned())]).to_bytes(),
        &[7, 0, 0, 0, 0, 0, 0, 0, 2, 97, 98]
    );
}

#[test]
fn packed_integers_order_as_the_integers_do() {
    let i16s = [i16::MIN, -2, -1, 0, 1, 2, 255, 256, i16::MAX];
    for pair in i16s.windows(2) {
        let low = Binary::pack(&[Datum::from_i16(pair[0])]);
        let high = Binary::pack(&[Datum::from_i16(pair[1])]);
        assert!(low.to_bytes() < high.to_bytes(), "{} < {}", pair[0], pair[1]);
    }
    let i32s = [i32::MIN, -65536, -1, 0, 1, 65535, 65536, i32::MAX];
    for pair in i32s.windows(2) {
        let low = Binary::pack(&[Datum::from_i32(pair[0])]);
        let high = Binary::pack(&[Datum::from_i32(pair[1])]);
        assert!(low.to_bytes() < high.to_bytes(), "{} < {}", pair[0], pair[1]);
    }
    let i64s = [i64::MIN, -4294967296, -1, 0, 1, 4294967296, i64::MAX];
    for pair in i64s.windows(2) {
        let low = Binary::pack(&[Datum::from_i64(pair[0])]);
        let high = Binary::pack(&[Datum::from_i64(pair[1])]);
        assert!(low.to_bytes() < high.to_bytes(), "{} < {}", pair[0], pair[1]);
    }
    let u64s = [0, 1, 255, 256, u64::MAX - 1, u64::MAX];
    for pair in u64s.windows(2) {
        let low = Binary::pack(&[Datum::from_u64(pair[0])]);
        let high = Binary::pack(&[Datum::from_u64(pair[1])]);
        assert!(low.to_bytes() < high.to_bytes(), "{} < {}", pair[0], pair[1]);
    }
}

#[test]
fn bytes_that_are_no_row_do_not_unpack() {
    // a tag that no kind of value has
    assert_eq!(Binary::with_data(vec![9]).unpack(), None);
    // an integer cut short
    assert_eq!(Binary::with_data(vec![3, 0]).unpack(), None);
    assert_eq!(Binary::with_data(vec![6, 0, 0, 0]).unpack(), None);
    // a text shorter than its length
    assert_eq!(Binary::with_data(vec![7, 0, 0, 0, 0, 0, 0, 0, 2, 97]).unpack(), None);
    // a text that is no text
    assert_eq!(Binary::with_data(vec![7, 0, 0, 0, 0, 0, 0, 0, 1, 255]).unpack(), None);
    // a value, then rubbish
    assert_eq!(Binary::with_data(vec![0, 9]).unpack(), None);
}

#[test]
fn kinds_of_values_are_told_apart() {
    assert!(Datum::from_i16(1).is_integer());
    assert!(Datum::from_u64(1).is_integer());
    assert!(!Datum::from_bool(true).is_integer());
    assert!(Datum::from_string("1".to_owned()).is_string());
    assert!(!Datum::from_null().is_string());
    assert!(Datum::from_bool(false).is_boolean());
    assert!(!Datum::from_i32(0).is_boolean());
}

#[test]
fn big_endian_numbers_come_back() {
    assert_eq!(be_encode(0x0102, 2), vec![1, 2]);
    assert_eq!(be_encode(1, 4), vec![0, 0, 0, 1]);
    assert_eq!(be_encode(u64::MAX, 8), vec![255; 8]);
    assert_eq!(be_u64(&[1, 2]), 258);
    assert_eq!(be_u64(&[]), 0);
    assert_eq!(be_u64(&be_encode(123456789, 8)), 123456789);
}

#[test]
fn byte_strings_order_by_the_first_difference() {
    assert!(bytes_less(&vec![1, 2], &vec![1, 3]));
    assert!(bytes_less(&vec![1], &vec![1, 0]));
    assert!(bytes_less(&vec![], &vec![0]));
    assert!(!bytes_less(&vec![1, 2], &vec![1, 2]));
    assert!(!bytes_less(&vec![2], &vec![1, 9]));
    assert!(bytes_equal(&vec![1, 2], &vec![1, 2]));
    assert!(!bytes_equal(&vec![1, 2], &vec![1]));
}

#[test]
fn signed_integers_are_packed_with_their_sign_turned() {
    assert_eq!(Binary::pack(&[Datum::from_i16(0)]).to_bytes(), &[3, 0x80, 0]);
    assert_eq!(Binary::pack(&[Datum::from_i16(-1)]).to_bytes(), &[3, 0x7f, 0xff]);
    assert_eq!(Binary::pack(&[Datum::from_i32(1)]).to_bytes(), &[4, 0x80, 0, 0, 1]);
    assert_eq!(
        Binary::pack(&[Datum::from_i64(i64::MIN)]).to_bytes(),
        &[5, 0, 0, 0, 0, 0, 0, 0, 0]
    );
}
