use raio::tiny_int::{ConversionError, MinusTinyInt, PlusTinyInt};
use raio::error::{PackError, UnpackError};
use raio::marker::{
    combine_nibble, high_nibble, low_nibble, read_expected_marker, BoltReadMarkerError,
    BoltReadSignatureError, MarkerByte, Signature, TinySizeMarker,
};
use raio::packstream::{pack, push_int, unpack};
use raio::value::Value;

fn text(s: &str) -> Value {
    Value::String(String::from(s))
}

fn packed(v: &Value) -> Vec<u8> {
    pack(v).expect("value has a byte form")
}

fn round_trip(v: Value) {
    let bytes = packed(&v);
    let (back, used) = unpack(&bytes).expect("byte form decodes");
    assert_eq!(back, v);
    assert_eq!(used, bytes.len());
}

#[test]
fn integer_markers_are_minimal() {
    assert_eq!(packed(&Value::Integer(0)), vec![0x00]);
    assert_eq!(packed(&Value::Integer(127)), vec![0x7F]);
    assert_eq!(packed(&Value::Integer(-1)), vec![0xFF]);
    assert_eq!(packed(&Value::Integer(-16)), vec![0xF0]);
    assert_eq!(packed(&Value::Integer(-17)), vec![0xC8, 0xEF]);
    assert_eq!(packed(&Value::Integer(-128)), vec![0xC8, 0x80]);
    assert_eq!(packed(&Value::Integer(128)), vec![0xC9, 0x00, 0x80]);
    assert_eq!(packed(&Value::Integer(32767)), vec![0xC9, 0x7F, 0xFF]);
    assert_eq!(packed(&Value::Integer(32768)), vec![0xCA, 0x00, 0x00, 0x80, 0x00]);
    assert_eq!(
        packed(&Value::Integer(2147483648)),
        vec![0xCB, 0x00, 0x00, 0x00, 0x00, 0x80, 0x00, 0x00, 0x00]
    );
    assert_eq!(
        packed(&Value::Integer(i64::MIN)),
        vec![0xCB, 0x80, 0x00, 0x00, 0x00, 0x00, 0x00, 0x00, 0x00]
    );
}

#[test]
fn push_int_appends() {
    let mut out = vec![0xAA];
    push_int(&mut out, -34882);
    assert_eq!(out, vec![0xAA, 0xCA, 0xFF, 0xFF, 0x77, 0xBE]);
}

#[test]
fn text_markers_follow_length() {
    let headers: Vec<(usize, Vec<u8>)> = vec![
        (15, vec![0x8F]),
        (16, vec![0xD0, 0x10]),
        (255, vec![0xD0, 0xFF]),
        (256, vec![0xD1, 0x01, 0x00]),
        (65535, vec![0xD1, 0xFF, 0xFF]),
        (65536, vec![0xD2, 0x00, 0x01, 0x00, 0x00]),
    ];
    for (len, header) in headers {
        let v = text(&"a".repeat(len));
        let bytes = packed(&v);
        assert_eq!(bytes[..header.len()].to_vec(), header);
        assert_eq!(bytes.len(), header.len() + len);
        round_trip(v);
    }
}

#[test]
fn list_and_dictionary_headers() {
    let list = Value::List((0..16).map(Value::Integer).collect());
    assert_eq!(packed(&list)[..2].to_vec(), vec![0xD4, 0x10]);
    let small = Value::List(vec![Value::Null, Value::Boolean(true)]);
    assert_eq!(packed(&small), vec![0x92, 0xC0, 0xC3]);
    let dict = Value::Dictionary(vec![(String::from("a"), Value::Boolean(false))]);
    assert_eq!(packed(&dict), vec![0xA1, 0x81, 0x61, 0xC2]);
    round_trip(list);
    round_trip(dict);
}

#[test]
fn values_round_trip() {
    round_trip(Value::Null);
    round_trip(Value::Boolean(true));
    round_trip(Value::Boolean(false));
    round_trip(Value::Integer(423));
    round_trip(Value::Integer(-123));
    round_trip(Value::Integer(i64::MAX));
    round_trip(Value::Float(42.42f64.to_bits()));
    round_trip(text(""));
    round_trip(text("HelloWorld"));
    round_trip(text("hello world\u{2602}"));
    round_trip(Value::List(vec![]));
    round_trip(Value::Dictionary(vec![]));
    round_trip(Value::Structure(
        0x4E,
        vec![
            Value::Integer(12),
            Value::List(vec![text("label01"), text("label02"), text("jkj ejkr")]),
            Value::Dictionary(vec![
                (String::from("prop01"), Value::Boolean(true)),
                (String::from("prop02"), Value::Integer(54)),
                (
                    String::from("prop03"),
                    Value::Structure(
                        0x72,
                        vec![Value::Integer(21), text("k"), Value::Dictionary(vec![])],
                    ),
                ),
                (String::from("another"), Value::Null),
            ]),
        ],
    ));
}

#[test]
fn float_is_eight_big_endian_bytes() {
    let bytes = packed(&Value::Float(1.0f64.to_bits()));
    assert_eq!(bytes, vec![0xC1, 0x3F, 0xF0, 0, 0, 0, 0, 0, 0]);
}

#[test]
fn text_decodes_from_utf8() {
    let (v, used) = unpack(&[0x85, b'h', b'e', b'l', b'l', b'o', 0xC0]).unwrap();
    assert_eq!(v, text("hello"));
    assert_eq!(used, 6);
    let (v, _) = unpack(&[0x82, 0xC3, 0xA9]).unwrap();
    assert_eq!(v, text("\u{e9}"));
}

#[test]
fn non_canonical_integers_decode() {
    assert_eq!(unpack(&[0xC8, 0x05]).unwrap(), (Value::Integer(5), 2));
    assert_eq!(unpack(&[0xCA, 0xFF, 0xFF, 0xFF, 0xFF]).unwrap(), (Value::Integer(-1), 5));
}

#[test]
fn struct8_header_decodes() {
    let (v, used) = unpack(&[0xDC, 0x01, 0x4E, 0x01]).unwrap();
    assert_eq!(v, Value::Structure(0x4E, vec![Value::Integer(1)]));
    assert_eq!(used, 4);
}

#[test]
fn decode_errors() {
    assert_eq!(unpack(&[]), Err(UnpackError::TruncatedInput));
    assert_eq!(unpack(&[0xC4]), Err(UnpackError::MalformedMarker(0xC4)));
    assert_eq!(unpack(&[0xE5]), Err(UnpackError::MalformedMarker(0xE5)));
    assert_eq!(unpack(&[0xC9, 0x00]), Err(UnpackError::TruncatedInput));
    assert_eq!(unpack(&[0xD0]), Err(UnpackError::TruncatedInput));
    assert_eq!(unpack(&[0x85, b'a']), Err(UnpackError::SizeOverflow));
    assert_eq!(unpack(&[0x93, 0x01]), Err(UnpackError::SizeOverflow));
    assert_eq!(unpack(&[0x92, 0xC9, 0x00]), Err(UnpackError::TruncatedInput));
    assert_eq!(unpack(&[0x81, 0xFF]), Err(UnpackError::InvalidText));
    assert_eq!(unpack(&[0xA1, 0x01, 0x01]), Err(UnpackError::NonTextKey));
    assert_eq!(unpack(&[0xB1]), Err(UnpackError::TruncatedInput));
}

#[test]
fn too_many_fields_cannot_be_packed() {
    let big = Value::Structure(0x01, vec![Value::Null; 65536]);
    assert_eq!(pack(&big), Err(PackError::TooLarge));
    let ok = Value::Structure(0x01, vec![Value::Null; 16]);
    assert_eq!(packed(&ok)[..3].to_vec(), vec![0xDC, 0x10, 0x01]);
}

#[test]
fn nibbles() {
    assert_eq!(combine_nibble(0xC0, 1), 0xC1);
    assert_eq!(combine_nibble(0xF2, 9), 0xF9);
    assert_eq!(combine_nibble(0xB1, 0xFF), 0xBF);
    assert_eq!(low_nibble(0xC2), 2);
    assert_eq!(low_nibble(0xAF), 0x0F);
    assert_eq!(high_nibble(0xF3), 0xF0);
    assert_eq!(high_nibble(0x9D), 0x90);
}

#[test]
fn marker_bytes() {
    assert!(MarkerByte::try_from_byte(0xCE).is_err());
    assert_eq!(MarkerByte::try_from_byte(0x7F), Ok(MarkerByte::PlusTinyInt));
    assert_eq!(MarkerByte::try_from_byte(0x83), Ok(MarkerByte::TinyString));
    assert_eq!(MarkerByte::try_from_byte(0xF4), Ok(MarkerByte::MinusTinyInt));
    assert_eq!(MarkerByte::try_from_byte(0xDD), Ok(MarkerByte::Struct16));
    assert_eq!(MarkerByte::TinyString.to_byte(), 0x80);
    let t = TinySizeMarker::new(MarkerByte::TinyString, 14);
    assert_eq!(t.to_byte(), 0x8E);
    assert_eq!(TinySizeMarker::try_from_byte(0x8E), Ok(t));
    let s8 = TinySizeMarker::try_from_byte(0xD0).unwrap();
    assert_eq!(s8, TinySizeMarker { marker: MarkerByte::String8, tiny_size: 0 });
}

#[test]
fn expected_marker() {
    let data = [0x8E];
    let m = read_expected_marker(MarkerByte::TinyString, &data, 0).unwrap();
    assert_eq!(m.tiny_size, 14);
    assert_eq!(
        read_expected_marker(MarkerByte::TinyList, &data, 0),
        Err(BoltReadMarkerError::UnexpectedMarker(MarkerByte::TinyList, MarkerByte::TinyString))
    );
    assert_eq!(
        read_expected_marker(MarkerByte::TinyList, &data, 1),
        Err(BoltReadMarkerError::TruncatedInput)
    );
}

#[test]
fn signatures() {
    assert_eq!(Signature::try_from_byte(0x4E), Ok(Signature::Node));
    assert_eq!(Signature::try_from_byte(0x13), Ok(Signature::Rollback));
    assert!(Signature::try_from_byte(0x55).is_err());
    assert_eq!(Signature::Pull.to_byte(), 0x3F);
    assert!(Signature::Node.validates(Signature::Node));
    assert_eq!(Signature::Success.read_expected(&[0x70], 0), Ok(Signature::Success));
    assert_eq!(
        Signature::Success.read_expected(&[0x71], 0),
        Err(BoltReadSignatureError::UnexpectedSignatureError(Signature::Record))
    );
}

#[test]
fn init_struct_hex() {
    let control_bytes: Vec<u8> = vec![
        0xB2, 0x01, 0x8C, 0x4D, 0x79, 0x43, 0x6C, 0x69, 0x65, 0x6E, 0x74, 0x2F, 0x31, 0x2E, 0x30,
        0xA3, 0x8B, 0x63, 0x72, 0x65, 0x64, 0x65, 0x6E, 0x74, 0x69, 0x61, 0x6C, 0x73, 0x86, 0x73,
        0x65, 0x63, 0x72, 0x65, 0x74, 0x86, 0x73, 0x63, 0x68, 0x65, 0x6D, 0x65, 0x85, 0x62, 0x61,
        0x73, 0x69, 0x63, 0x89, 0x70, 0x72, 0x69, 0x6E, 0x63, 0x69, 0x70, 0x61, 0x6C, 0x85, 0x6E,
        0x65, 0x6F, 0x34, 0x6A,
    ];
    let init = Value::Structure(
        0x01,
        vec![
            text("MyClient/1.0"),
            Value::Dictionary(vec![
                (String::from("credentials"), text("secret")),
                (String::from("scheme"), text("basic")),
                (String::from("principal"), text("neo4j")),
            ]),
        ],
    );
    let (control_init, _) =
        unpack(&control_bytes).expect("Cannot unpack init from control bytes");
    assert_eq!(init, control_init);
}

#[test]
fn pull_all_hex() {
    let control_bytes = vec![0xB0, 0x3F];
    let pull_all = Value::Structure(0x3F, vec![]);
    let pull_all_bytes = pack(&pull_all).expect("Cannot pack PullAll to bytes.");
    assert_eq!(pull_all_bytes, control_bytes);
    let (control_pull_all, _) = unpack(&pull_all_bytes).expect("Cannot unpack PullAll.");
    assert_eq!(pull_all, control_pull_all);
}

#[test]
fn tiny_integers() {
    assert_eq!(PlusTinyInt::try_from_i64(127).unwrap().value(), 127);
    assert_eq!(PlusTinyInt::try_from_i64(0).unwrap().to_byte(), 0);
    assert_eq!(PlusTinyInt::try_from_i64(128), Err(ConversionError::SourceTooLarge));
    assert_eq!(PlusTinyInt::try_from_i64(-1), Err(ConversionError::SourceTooSmall));
    assert_eq!(MinusTinyInt::try_from_i64(-16).unwrap().value(), -16);
    assert_eq!(MinusTinyInt::try_from_i64(-16).unwrap().to_byte(), 0xF0);
    assert_eq!(MinusTinyInt::try_from_i64(-1).unwrap().to_byte(), 0xFF);
    assert_eq!(MinusTinyInt::try_from_i64(-17), Err(ConversionError::SourceTooSmall));
    assert_eq!(MinusTinyInt::try_from_i64(0), Err(ConversionError::SourceTooLarge));
    assert_eq!(MinusTinyInt::from_byte(0xFB).value(), -5);
}

#[test]
fn dictionary_order_does_not_matter_for_equivalence() {
    let a = Value::Dictionary(vec![
        (String::from("x"), Value::Integer(1)),
        (String::from("y"), Value::List(vec![text("a"), Value::Null])),
    ]);
    let b = Value::Dictionary(vec![
        (String::from("y"), Value::List(vec![text("a"), Value::Null])),
        (String::from("x"), Value::Integer(1)),
    ]);
    assert!(a.equivalent(&b));
    assert!(b.equivalent(&a));
    assert_ne!(a, b);
    assert_ne!(packed(&a), packed(&b));
    let c = Value::Dictionary(vec![
        (String::from("y"), Value::List(vec![text("a"), Value::Null])),
        (String::from("x"), Value::Integer(2)),
    ]);
    assert!(!a.equivalent(&c));
    let d = Value::Dictionary(vec![(String::from("x"), Value::Integer(1))]);
    assert!(!a.equivalent(&d));
    assert!(!Value::Integer(1).equivalent(&Value::Boolean(true)));
    assert!(Value::Structure(1, vec![a.clone()]).equivalent(&Value::Structure(1, vec![b.clone()])));
    assert!(!Value::Structure(1, vec![a.clone()]).equivalent(&Value::Structure(2, vec![b])));
    assert!(Value::List(vec![text("p")]).equivalent(&Value::List(vec![text("p")])));
    assert!(!Value::List(vec![text("p")]).equivalent(&Value::List(vec![text("q")])));
}
