use std::fmt::Debug;

use typed_multipart::convert::{FixedTimestamp, UtcTimestamp, Uuid};
use typed_multipart::error::TypedMultipartError;
use typed_multipart::metadata::FieldMetadata;
use typed_multipart::record::Part;
use typed_multipart::stream::{
    field_data_from_chunks, field_data_from_field, try_from_field, TryFromChunks,
};

fn create_chunks(value: &[u8]) -> Vec<Vec<u8>> {
    value.chunks(3).map(|c| c.to_vec()).collect()
}

fn metadata() -> FieldMetadata {
    FieldMetadata::named("test".to_string())
}

fn test_try_from_chunks_valid<T>(input: &[u8], expected: T)
where
    T: TryFromChunks + PartialEq + Debug,
{
    let res = T::try_from_chunks(&create_chunks(input), &metadata()).ok();
    assert_eq!(res, Some(expected));
}

fn test_try_from_chunks_invalid<T: TryFromChunks>(input: &[u8], wanted: &str) {
    match T::try_from_chunks(&create_chunks(input), &metadata()) {
        Err(TypedMultipartError::WrongFieldType { field_name, wanted_type, .. }) => {
            assert_eq!(field_name, "test");
            assert_eq!(wanted_type, wanted);
        }
        _ => panic!("expected a wrong-type error"),
    }
}

#[test]
fn test_try_from_chunks_bytes() {
    test_try_from_chunks_valid::<Vec<u8>>(b"asd", b"asd".to_vec());
}

#[test]
fn test_try_from_chunks_string() {
    test_try_from_chunks_valid::<String>(b"asd", "asd".to_string());
    test_try_from_chunks_invalid::<String>(&[0x80], "String");
}

#[test]
fn test_try_from_chunks_i8() {
    test_try_from_chunks_valid::<i8>(b"-42", -42);
    test_try_from_chunks_invalid::<i8>(b"invalid", "i8");
}

#[test]
fn test_try_from_chunks_i16() {
    test_try_from_chunks_valid::<i16>(b"-42", -42);
    test_try_from_chunks_invalid::<i16>(b"invalid", "i16");
}

#[test]
fn test_try_from_chunks_i32() {
    test_try_from_chunks_valid::<i32>(b"-42", -42);
    test_try_from_chunks_invalid::<i32>(b"invalid", "i32");
}

#[test]
fn test_try_from_chunks_i64() {
    test_try_from_chunks_valid::<i64>(b"-42", -42);
    test_try_from_chunks_invalid::<i64>(b"invalid", "i64");
}

#[test]
fn test_try_from_chunks_i128() {
    test_try_from_chunks_valid::<i128>(b"-42", -42);
    test_try_from_chunks_invalid::<i128>(b"invalid", "i128");
}

#[test]
fn test_try_from_chunks_isize() {
    test_try_from_chunks_valid::<isize>(b"-42", -42);
    test_try_from_chunks_invalid::<isize>(b"invalid", "isize");
}

#[test]
fn test_try_from_chunks_u8() {
    test_try_from_chunks_valid::<u8>(b"42", 42);
    test_try_from_chunks_invalid::<u8>(b"invalid", "u8");
}

#[test]
fn test_try_from_chunks_u16() {
    test_try_from_chunks_valid::<u16>(b"42", 42);
    test_try_from_chunks_invalid::<u16>(b"invalid", "u16");
}

#[test]
fn test_try_from_chunks_u32() {
    test_try_from_chunks_valid::<u32>(b"42", 42);
    test_try_from_chunks_invalid::<u32>(b"invalid", "u32");
}

#[test]
fn test_try_from_chunks_u64() {
    test_try_from_chunks_valid::<u64>(b"42", 42);
    test_try_from_chunks_invalid::<u64>(b"invalid", "u64");
}

#[test]
fn test_try_from_chunks_u128() {
    test_try_from_chunks_valid::<u128>(b"42", 42);
    test_try_from_chunks_invalid::<u128>(b"invalid", "u128");
}

#[test]
fn test_try_from_chunks_usize() {
    test_try_from_chunks_valid::<usize>(b"42", 42);
    test_try_from_chunks_invalid::<usize>(b"invalid", "usize");
}

#[test]
fn test_try_from_chunks_bool() {
    test_try_from_chunks_valid::<bool>(b"true", true);
    test_try_from_chunks_valid::<bool>(b"false", false);
    test_try_from_chunks_invalid::<bool>(b"invalid", "bool");
}

#[test]
fn test_try_from_chunks_char() {
    test_try_from_chunks_valid::<char>(b"a", 'a');
    test_try_from_chunks_invalid::<char>(b"invalid", "char");
}

#[test]
fn test_try_from_chunks_uuid() {
    let valid_input = "550e8400-e29b-41d4-a716-446655440000";
    let valid_output = uuid::Uuid::parse_str(valid_input).unwrap();
    test_try_from_chunks_valid::<Uuid>(
        valid_input.as_bytes(),
        Uuid { value: valid_output.as_u128() },
    );
    test_try_from_chunks_invalid::<Uuid>(b"invalid", "Uuid");
}

#[test]
fn test_try_from_chunks_chrono_datetime_fixed() {
    let valid_input = "2024-01-01T04:20:00Z";
    let valid_output = chrono::DateTime::parse_from_rfc3339(valid_input).unwrap();
    let expected = FixedTimestamp {
        seconds: valid_output.timestamp(),
        nanos: valid_output.timestamp_subsec_nanos(),
        offset_seconds: valid_output.offset().local_minus_utc(),
    };
    test_try_from_chunks_valid::<FixedTimestamp>(valid_input.as_bytes(), expected);
    test_try_from_chunks_invalid::<FixedTimestamp>(b"invalid", "DateTime<FixedOffset>");
}

#[test]
fn test_try_from_chunks_chrono_datetime_utc() {
    let valid_input = "2024-01-01T04:20:00Z";
    let valid_output: chrono::DateTime<chrono::Utc> = valid_input.parse().unwrap();
    let expected = UtcTimestamp {
        seconds: valid_output.timestamp(),
        nanos: valid_output.timestamp_subsec_nanos(),
    };
    test_try_from_chunks_valid::<UtcTimestamp>(valid_input.as_bytes(), expected);
    test_try_from_chunks_invalid::<UtcTimestamp>(b"invalid", "DateTime<Utc>");
}

fn buffered(name: Option<&str>, payload: &[u8]) -> Part {
    Part {
        name: name.map(|n| n.to_string()),
        file_name: None,
        content_type: None,
        payload: payload.to_vec(),
    }
}

#[test]
fn buffered_invalid_utf8_is_a_transport_failure() {
    let part = buffered(Some("n"), &[0x80]);
    assert!(matches!(try_from_field::<String>(&part), Err(TypedMultipartError::Other { .. })));
    assert!(matches!(try_from_field::<i8>(&part), Err(TypedMultipartError::Other { .. })));
    assert!(matches!(try_from_field::<bool>(&part), Err(TypedMultipartError::Other { .. })));
    assert!(matches!(try_from_field::<char>(&part), Err(TypedMultipartError::Other { .. })));
    assert_eq!(try_from_field::<Vec<u8>>(&part).ok(), Some(vec![0x80]));
    assert_eq!(try_from_field::<String>(&buffered(Some("n"), b"asd")).ok(), Some("asd".to_string()));
}

#[test]
fn buffered_field_data_keeps_all_metadata() {
    let part = Part {
        name: Some("upload".to_string()),
        file_name: Some("a.txt".to_string()),
        content_type: Some("text/plain".to_string()),
        payload: b"7".to_vec(),
    };
    let d = field_data_from_field::<u8>(&part).ok().unwrap();
    assert_eq!(d.contents, 7);
    assert_eq!(d.metadata.name, Some("upload".to_string()));
    assert_eq!(d.metadata.file_name, Some("a.txt".to_string()));
    assert_eq!(d.metadata.content_type, Some("text/plain".to_string()));
    let m = FieldMetadata::from_part(&part);
    assert_eq!(m.file_name, Some("a.txt".to_string()));
}

#[test]
fn buffered_part_converts_like_its_chunks() {
    let part = buffered(Some("n"), b"-42");
    assert_eq!(try_from_field::<i32>(&part).ok(), Some(-42));
    let bad = buffered(None, b"x");
    match try_from_field::<u8>(&bad) {
        Err(TypedMultipartError::WrongFieldType { field_name, wanted_type, cause }) => {
            assert!(cause.is_none());
            assert_eq!(field_name, "<unknown>");
            assert_eq!(wanted_type, "u8");
        }
        _ => panic!("expected a wrong-type error"),
    }
}

#[test]
fn field_data_wraps_the_converted_value() {
    let m = FieldMetadata {
        name: Some("upload".to_string()),
        file_name: Some("a.txt".to_string()),
        content_type: Some("text/plain".to_string()),
    };
    let d = field_data_from_chunks::<String>(&create_chunks(b"hello"), m).ok().unwrap();
    assert_eq!(d.contents, "hello");
    assert_eq!(d.metadata.file_name, Some("a.txt".to_string()));
    assert_eq!(d.metadata.content_type, Some("text/plain".to_string()));
    let bad = field_data_from_chunks::<u8>(&create_chunks(b"300"), metadata());
    assert!(bad.is_err());
}
