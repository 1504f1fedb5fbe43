use hkserver::schema::{Code, Number, SampledValue};
use hkserver::wire::{decode_number, decode_sampled_value, encode_number, encode_sampled_value, single_field};

#[test]
fn numbers_round_trip_with_their_tag() {
    for n in [
        Number::SignedInteger(-5),
        Number::SignedInteger(i64::MIN),
        Number::UnsignedInteger(u64::MAX),
        Number::FloatBits(1.5f32.to_bits()),
        Number::DoubleBits((-2.25f64).to_bits()),
    ] {
        assert_eq!(decode_number(&encode_number(n)), Ok(n));
    }
}

#[test]
fn number_encoding_layout() {
    assert_eq!(encode_number(Number::UnsignedInteger(258)), vec![2, 8, 0, 0, 0, 2, 1, 0, 0, 0, 0, 0, 0]);
    assert_eq!(encode_number(Number::FloatBits(1.0f32.to_bits())), vec![3, 4, 0, 0, 0, 0, 0, 0x80, 0x3f]);
}

#[test]
fn number_with_zero_or_two_tags_is_rejected() {
    assert_eq!(decode_number(&vec![]), Err(Code::InvalidArgument));
    let mut two = encode_number(Number::SignedInteger(1));
    two.extend(encode_number(Number::UnsignedInteger(2)));
    assert_eq!(decode_number(&two), Err(Code::InvalidArgument));
    assert_eq!(decode_number(&vec![1, 8, 0]), Err(Code::InvalidArgument));
    assert_eq!(decode_number(&vec![9, 1, 0, 0, 0, 7]), Err(Code::InvalidArgument));
}

#[test]
fn sampled_values_round_trip() {
    let values = vec![
        SampledValue::Bool(true),
        SampledValue::Text("héllo".to_string()),
        SampledValue::Num(Number::DoubleBits(3.5f64.to_bits())),
        SampledValue::Data(vec![0, 255, 16]),
    ];
    for v in values {
        let back = decode_sampled_value(&encode_sampled_value(&v)).unwrap();
        assert_eq!(format!("{:?}", back), format!("{:?}", v));
    }
}

#[test]
fn sampled_value_with_two_tags_or_bad_text_is_rejected() {
    let mut two = encode_sampled_value(&SampledValue::Bool(false));
    two.extend(encode_sampled_value(&SampledValue::Data(vec![1])));
    assert_eq!(decode_sampled_value(&two).err(), Some(Code::InvalidArgument));
    assert_eq!(decode_sampled_value(&vec![]).err(), Some(Code::InvalidArgument));
    assert_eq!(decode_sampled_value(&vec![2, 1, 0, 0, 0, 0xff]).err(), Some(Code::InvalidArgument));
    assert_eq!(decode_sampled_value(&vec![1, 1, 0, 0, 0, 2]).err(), Some(Code::InvalidArgument));
}

#[test]
fn single_field_reads_key_and_payload() {
    assert_eq!(single_field(&vec![7, 2, 0, 0, 0, 9, 8]), Some((7, vec![9, 8])));
    assert_eq!(single_field(&vec![7, 2, 0, 0, 0, 9]), None);
}
