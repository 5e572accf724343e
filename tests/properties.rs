use typed_multipart::util::{join_path, signature_matches};
use typed_multipart::convert::{fixed_timestamp_from_parsed, utc_timestamp_from_parsed, uuid_from_parsed};
use typed_multipart::metadata::FieldData;
use typed_multipart::chunks::{collect_chunks, push_chunk};
use typed_multipart::convert::{
    bool_from_chunks, char_from_chunks, fixed_timestamp_from_chunks, i128_from_chunks,
    i8_from_chunks, string_from_chunks, u128_from_chunks, u8_from_chunks,
    utc_timestamp_from_chunks, uuid_from_chunks,
};
use typed_multipart::error::{Cause, TypedMultipartError};
use typed_multipart::text::IntErrorKind;
use typed_multipart::metadata::{get_field_name, FieldMetadata};
use typed_multipart::text::{parse_bool, parse_char, parse_i64, parse_i8, parse_u16, parse_u8, same_text};
use typed_multipart::util::strip_leading_rawlit;

fn meta() -> FieldMetadata {
    FieldMetadata::named("field".to_string())
}

#[test]
fn integer_text_round_trips() {
    for v in [i64::MIN, -1000, -1, 0, 7, 99, i64::MAX] {
        assert_eq!(parse_i64(&v.to_string()).ok(), Some(v));
    }
    for v in [0u16, 1, 65535] {
        assert_eq!(parse_u16(&v.to_string()).ok(), Some(v));
    }
    assert_eq!(parse_bool(&true.to_string()), Some(true));
    assert_eq!(parse_bool(&false.to_string()), Some(false));
    assert_eq!(parse_char(&'ß'.to_string()), Some('ß'));
}

#[test]
fn chunk_boundaries_do_not_matter() {
    let whole = vec![b"-42".to_vec()];
    let split = vec![b"-".to_vec(), b"".to_vec(), b"4".to_vec(), b"2".to_vec()];
    assert_eq!(i8_from_chunks(&whole, &meta()).ok(), Some(-42));
    assert_eq!(i8_from_chunks(&split, &meta()).ok(), Some(-42));
    let no_chunks: Vec<Vec<u8>> = Vec::new();
    assert_eq!(string_from_chunks(&no_chunks, &meta()).ok(), Some(String::new()));
}

#[test]
fn multibyte_text_split_inside_a_character() {
    let bytes = "héllo".as_bytes();
    let chunks = vec![bytes[..2].to_vec(), bytes[2..].to_vec()];
    assert_eq!(string_from_chunks(&chunks, &meta()).ok(), Some("héllo".to_string()));
}

#[test]
fn invalid_utf8_names_string_for_numbers_too() {
    match i8_from_chunks(&vec![vec![0x80]], &meta()) {
        Err(TypedMultipartError::WrongFieldType { field_name, wanted_type, .. }) => {
            assert_eq!(field_name, "field");
            assert_eq!(wanted_type, "String");
        }
        _ => panic!("expected a wrong-type error"),
    }
}

#[test]
fn non_utf8_timestamp_names_the_timestamp_type() {
    match fixed_timestamp_from_chunks(&vec![vec![0xff, 0xfe]], &meta()) {
        Err(TypedMultipartError::WrongFieldType { wanted_type, .. }) => {
            assert_eq!(wanted_type, "DateTime<FixedOffset>");
        }
        _ => panic!("expected a wrong-type error"),
    }
}

#[test]
fn decimal_edges() {
    assert_eq!(parse_u8("255").ok(), Some(255));
    assert_eq!(parse_u8("256").ok(), None);
    assert_eq!(parse_u8("+7").ok(), Some(7));
    assert_eq!(parse_u8("-0").ok(), None);
    assert_eq!(parse_u8("").ok(), None);
    assert_eq!(parse_u8("+").ok(), None);
    assert_eq!(parse_u8(" 1").ok(), None);
    assert_eq!(parse_i8("-128").ok(), Some(-128));
    assert_eq!(parse_i8("-129").ok(), None);
    assert_eq!(parse_i8("127").ok(), Some(127));
    assert_eq!(parse_i8("-").ok(), None);
    assert_eq!(parse_i8("007").ok(), Some(7));
    let i128_min = i128::MIN.to_string();
    assert_eq!(i128_from_chunks(&vec![i128_min.into_bytes()], &meta()).ok(), Some(i128::MIN));
    let u128_max = u128::MAX.to_string();
    assert_eq!(u128_from_chunks(&vec![u128_max.into_bytes()], &meta()).ok(), Some(u128::MAX));
    let over = "340282366920938463463374607431768211456".as_bytes().to_vec();
    assert!(u128_from_chunks(&vec![over], &meta()).is_err());
    assert!(u8_from_chunks(&vec![b"12a".to_vec()], &meta()).is_err());
}

#[test]
fn bool_and_char_are_exact() {
    assert!(bool_from_chunks(&vec![b"True".to_vec()], &meta()).is_err());
    assert!(bool_from_chunks(&vec![b"1".to_vec()], &meta()).is_err());
    assert!(char_from_chunks(&vec![b"".to_vec()], &meta()).is_err());
    assert_eq!(char_from_chunks(&vec!["é".as_bytes().to_vec()], &meta()).ok(), Some('é'));
}

#[test]
fn identifier_value_is_parsed() {
    let text = "550e8400-e29b-41d4-a716-446655440000";
    let id = uuid_from_chunks(&vec![text.as_bytes().to_vec()], &meta()).ok().unwrap();
    assert_eq!(id.value, 0x550e8400e29b41d4a716446655440000u128);
}

#[test]
fn timestamps_agree_on_the_instant() {
    let text = b"2024-01-01T04:20:00Z".to_vec();
    let fixed = fixed_timestamp_from_chunks(&vec![text.clone()], &meta()).ok().unwrap();
    let utc = utc_timestamp_from_chunks(&vec![text], &meta()).ok().unwrap();
    assert_eq!(fixed.seconds, 1704082800);
    assert_eq!(utc.seconds, 1704082800);
    assert_eq!(fixed.nanos, utc.nanos);
}

#[test]
fn offset_is_kept_or_normalised() {
    let text = b"2024-01-01T06:20:00+02:00".to_vec();
    let fixed = fixed_timestamp_from_chunks(&vec![text.clone()], &meta()).ok().unwrap();
    let utc = utc_timestamp_from_chunks(&vec![text], &meta()).ok().unwrap();
    assert_eq!(fixed.offset_seconds, 7200);
    assert_eq!(fixed.seconds, 1704082800);
    assert_eq!(utc.seconds, 1704082800);
}

#[test]
fn field_name_falls_back_to_placeholder() {
    assert_eq!(get_field_name(&None), "<unknown>");
    assert_eq!(get_field_name(&Some("a".to_string())), "a");
    let m = FieldMetadata { name: None, file_name: None, content_type: None };
    match string_from_chunks(&vec![vec![0x80]], &m) {
        Err(TypedMultipartError::WrongFieldType { field_name, .. }) => {
            assert_eq!(field_name, "<unknown>");
        }
        _ => panic!("expected a wrong-type error"),
    }
}

#[test]
fn raw_identifiers_lose_their_prefix() {
    assert_eq!(strip_leading_rawlit("r#type"), "type");
    assert_eq!(strip_leading_rawlit("name"), "name");
    assert_eq!(strip_leading_rawlit("r#"), "");
    assert_eq!(strip_leading_rawlit("r"), "r");
    assert!(same_text("abc", "abc"));
    assert!(!same_text("abc", "abd"));
}

#[test]
fn type_paths_match_their_signatures() {
    let segs = vec!["std".to_string(), "vec".to_string(), "Vec".to_string()];
    assert_eq!(join_path(&segs), "std::vec::Vec");
    let wanted = vec!["Vec".to_string(), "std::vec::Vec".to_string()];
    assert!(signature_matches(&segs, &wanted));
    assert!(signature_matches(&vec!["Vec".to_string()], &wanted));
    assert!(!signature_matches(&vec!["Option".to_string()], &wanted));
    assert!(!signature_matches(&Vec::new(), &wanted));
}

#[test]
fn parsed_results_become_values_or_errors() {
    assert_eq!(uuid_from_parsed(Ok(5), "f".to_string()).ok().map(|u| u.value), Some(5));
    assert!(uuid_from_parsed(Err("bad".to_string()), "f".to_string()).is_err());
    let t = fixed_timestamp_from_parsed(Ok((10, 2, -3600)), "f".to_string()).ok().unwrap();
    assert_eq!((t.seconds, t.nanos, t.offset_seconds), (10, 2, -3600));
    assert!(fixed_timestamp_from_parsed(Err("bad".to_string()), "f".to_string()).is_err());
    let u = utc_timestamp_from_parsed(Ok((10, 2)), "f".to_string()).ok().unwrap();
    assert_eq!((u.seconds, u.nanos), (10, 2));
    match utc_timestamp_from_parsed(Err("bad".to_string()), "f".to_string()) {
        Err(TypedMultipartError::WrongFieldType { field_name, wanted_type, .. }) => {
            assert_eq!(field_name, "f");
            assert_eq!(wanted_type, "DateTime<Utc>");
        }
        _ => panic!("expected a wrong-type error"),
    }
}

#[test]
fn field_data_keeps_metadata() {
    let d = FieldData::new(meta(), 7u8);
    assert_eq!(d.metadata.name, Some("field".to_string()));
    assert_eq!(d.contents, 7);
}

#[test]
fn chunks_collect_in_order() {
    let mut buf = b"ab".to_vec();
    push_chunk(&mut buf, &b"cd".to_vec());
    assert_eq!(buf, b"abcd".to_vec());
    assert_eq!(collect_chunks(&vec![b"x".to_vec(), vec![], b"yz".to_vec()]), b"xyz".to_vec());
}

#[test]
fn integer_errors_follow_the_standard_kinds() {
    assert_eq!(parse_u8(""), Err(IntErrorKind::Empty));
    assert_eq!(parse_u8("+"), Err(IntErrorKind::InvalidDigit));
    assert_eq!(parse_i8("-"), Err(IntErrorKind::InvalidDigit));
    assert_eq!(parse_u8("12a"), Err(IntErrorKind::InvalidDigit));
    assert_eq!(parse_u8("-1"), Err(IntErrorKind::InvalidDigit));
    assert_eq!(parse_u8("256"), Err(IntErrorKind::PosOverflow));
    assert_eq!(parse_u8("999x"), Err(IntErrorKind::PosOverflow));
    assert_eq!(parse_i8("-129"), Err(IntErrorKind::NegOverflow));
    assert_eq!(parse_i8("128"), Err(IntErrorKind::PosOverflow));
    assert_eq!("999x".parse::<u8>().unwrap_err().kind(), &std::num::IntErrorKind::PosOverflow);
}

#[test]
fn streamed_errors_carry_their_cause() {
    match i8_from_chunks(&vec![b"abc".to_vec()], &meta()) {
        Err(TypedMultipartError::WrongFieldType { cause: Some(Cause::Integer(k)), .. }) => {
            assert_eq!(k, IntErrorKind::InvalidDigit)
        }
        _ => panic!("expected an integer cause"),
    }
    match string_from_chunks(&vec![b"ab".to_vec(), vec![0x80]], &meta()) {
        Err(TypedMultipartError::WrongFieldType { cause: Some(Cause::Utf8 { valid_up_to }), .. }) => {
            assert_eq!(valid_up_to, 2)
        }
        _ => panic!("expected a UTF-8 cause"),
    }
    assert!(matches!(
        bool_from_chunks(&vec![b"yes".to_vec()], &meta()),
        Err(TypedMultipartError::WrongFieldType { cause: Some(Cause::Boolean), .. })
    ));
    assert!(matches!(
        char_from_chunks(&vec![b"".to_vec()], &meta()),
        Err(TypedMultipartError::WrongFieldType { cause: Some(Cause::Character { empty: true }), .. })
    ));
    assert!(matches!(
        char_from_chunks(&vec![b"ab".to_vec()], &meta()),
        Err(TypedMultipartError::WrongFieldType { cause: Some(Cause::Character { empty: false }), .. })
    ));
    match uuid_from_chunks(&vec![b"invalid".to_vec()], &meta()) {
        Err(TypedMultipartError::WrongFieldType { cause: Some(Cause::Message(m)), .. }) => {
            assert_eq!(m, uuid::Uuid::try_parse_ascii(b"invalid").unwrap_err().to_string())
        }
        _ => panic!("expected a message cause"),
    }
    match fixed_timestamp_from_chunks(&vec![b"invalid".to_vec()], &meta()) {
        Err(TypedMultipartError::WrongFieldType { cause: Some(Cause::Message(m)), .. }) => {
            assert_eq!(m, chrono::DateTime::parse_from_rfc3339("invalid").unwrap_err().to_string())
        }
        _ => panic!("expected a message cause"),
    }
}
