use typed_multipart::error::TypedMultipartError;
use typed_multipart::record::{
    assemble, AssemblyPolicy, Cardinality, ElementKind, Part, Slot, TargetField, Value,
};
use typed_multipart::error::Cause;
use typed_multipart::text::IntErrorKind;

fn field(name: &str, cardinality: Cardinality) -> TargetField {
    TargetField { name: name.to_string(), cardinality, element: ElementKind::Text }
}

fn part(name: &str, payload: &str) -> Part {
    raw_part(Some(name), payload.as_bytes())
}

fn raw_part(name: Option<&str>, payload: &[u8]) -> Part {
    Part {
        name: name.map(|n| n.to_string()),
        file_name: None,
        content_type: None,
        payload: payload.to_vec(),
    }
}

fn lenient() -> AssemblyPolicy {
    AssemblyPolicy { reject_unknown: false, reject_duplicates: false }
}

fn strict() -> AssemblyPolicy {
    AssemblyPolicy { reject_unknown: true, reject_duplicates: true }
}

fn shape() -> Vec<TargetField> {
    vec![field("title", Cardinality::Required), field("tags", Cardinality::RepeatedList)]
}

#[test]
fn missing_required_field_is_named() {
    let parts = vec![part("tags", "a")];
    match assemble(&shape(), &parts, lenient()) {
        Err(TypedMultipartError::MissingField { field_name }) => assert_eq!(field_name, "title"),
        _ => panic!("expected a missing-field error"),
    }
}

#[test]
fn list_keeps_arrival_order() {
    let parts = vec![part("tags", "first"), part("title", "t"), part("tags", "second")];
    let slots = assemble(&shape(), &parts, lenient()).ok().unwrap();
    match &slots[0] {
        Slot::Single(v) => assert_eq!(v, &Value::Text("t".to_string())),
        _ => panic!("expected one value"),
    }
    match &slots[1] {
        Slot::List(l) => assert_eq!(
            l,
            &vec![Value::Text("first".to_string()), Value::Text("second".to_string())]
        ),
        _ => panic!("expected a list"),
    }
}

#[test]
fn empty_list_and_optional_are_fine() {
    let fields = vec![
        field("title", Cardinality::Required),
        field("note", Cardinality::Optional),
        field("tags", Cardinality::RepeatedList),
    ];
    let slots = assemble(&fields, &vec![part("title", "x")], strict()).ok().unwrap();
    assert!(matches!(slots[1], Slot::Empty));
    match &slots[2] {
        Slot::List(l) => assert!(l.is_empty()),
        _ => panic!("expected a list"),
    }
}

#[test]
fn keyed_fields_take_the_suffix_and_last_write_wins() {
    let fields = vec![field("attr.", Cardinality::RepeatedMap)];
    let parts = vec![part("attr.a", "1"), part("attr.b", "2"), part("attr.a", "3")];
    let slots = assemble(&fields, &parts, strict()).ok().unwrap();
    match &slots[0] {
        Slot::Keyed(m) => {
            assert_eq!(m.len(), 2);
            assert_eq!(m[0], ("a".to_string(), Value::Text("3".to_string())));
            assert_eq!(m[1], ("b".to_string(), Value::Text("2".to_string())));
        }
        _ => panic!("expected a keyed slot"),
    }
}

#[test]
fn duplicates_follow_the_policy() {
    let parts = vec![part("title", "one"), part("title", "two")];
    match assemble(&shape(), &parts, lenient()).ok().unwrap().first() {
        Some(Slot::Single(v)) => assert_eq!(v, &Value::Text("two".to_string())),
        _ => panic!("expected one value"),
    }
    match assemble(&shape(), &parts, strict()) {
        Err(TypedMultipartError::DuplicateField { field_name }) => assert_eq!(field_name, "title"),
        _ => panic!("expected a duplicate-field error"),
    }
}

#[test]
fn unknown_fields_follow_the_policy() {
    let parts = vec![part("title", "t"), part("other", "x")];
    assert!(assemble(&shape(), &parts, lenient()).is_ok());
    match assemble(&shape(), &parts, strict()) {
        Err(TypedMultipartError::UnknownField { field_name }) => assert_eq!(field_name, "other"),
        _ => panic!("expected an unknown-field error"),
    }
}

#[test]
fn nameless_part_is_unknown() {
    let parts = vec![part("title", "t"), raw_part(None, &[1])];
    match assemble(&shape(), &parts, strict()) {
        Err(TypedMultipartError::UnknownField { field_name }) => {
            assert_eq!(field_name, "<unknown>")
        }
        _ => panic!("expected an unknown-field error"),
    }
}

#[test]
fn first_error_stops_assembly() {
    let parts = vec![part("x", "1"), part("title", "a"), part("title", "b")];
    match assemble(&shape(), &parts, strict()) {
        Err(TypedMultipartError::UnknownField { field_name }) => assert_eq!(field_name, "x"),
        _ => panic!("expected the first error"),
    }
}

#[test]
fn text_fields_reject_invalid_utf8() {
    let parts = vec![part("title", "t"), raw_part(Some("tags"), &[0x80])];
    match assemble(&shape(), &parts, lenient()) {
        Err(TypedMultipartError::WrongFieldType { field_name, wanted_type, cause }) => {
            assert_eq!(field_name, "tags");
            assert_eq!(wanted_type, "String");
            assert!(matches!(cause, Some(Cause::Utf8 { valid_up_to: 0 })));
        }
        _ => panic!("expected a wrong-type error"),
    }
    let bytes_shape = vec![TargetField {
        name: "blob".to_string(),
        cardinality: Cardinality::Required,
        element: ElementKind::Bytes,
    }];
    let slots = assemble(&bytes_shape, &vec![raw_part(Some("blob"), &[0x80])], strict()).ok().unwrap();
    match &slots[0] {
        Slot::Single(v) => assert_eq!(v, &Value::Bytes(vec![0x80])),
        _ => panic!("expected one value"),
    }
}

#[test]
fn no_parts_at_all_misses_the_required_field() {
    match assemble(&shape(), &Vec::new(), strict()) {
        Err(TypedMultipartError::MissingField { field_name }) => assert_eq!(field_name, "title"),
        _ => panic!("expected a missing-field error"),
    }
}

fn typed(name: &str, cardinality: Cardinality, element: ElementKind) -> TargetField {
    TargetField { name: name.to_string(), cardinality, element }
}

#[test]
fn fields_are_converted_to_their_declared_types() {
    let fields = vec![
        typed("count", Cardinality::Required, ElementKind::I32),
        typed("flag", Cardinality::Optional, ElementKind::Bool),
        typed("id", Cardinality::Optional, ElementKind::Uuid),
        typed("at", Cardinality::Optional, ElementKind::UtcTimestamp),
        typed("n.", Cardinality::RepeatedMap, ElementKind::U8),
    ];
    let parts = vec![
        part("count", "-12"),
        part("flag", "true"),
        part("id", "550e8400-e29b-41d4-a716-446655440000"),
        part("at", "2024-01-01T04:20:00Z"),
        part("n.x", "7"),
    ];
    let slots = assemble(&fields, &parts, strict()).ok().unwrap();
    assert!(matches!(slots[0], Slot::Single(Value::I32(-12))));
    assert!(matches!(slots[1], Slot::Single(Value::Bool(true))));
    match &slots[2] {
        Slot::Single(Value::Uuid(u)) => assert_eq!(u.value, 0x550e8400e29b41d4a716446655440000),
        _ => panic!("expected an identifier"),
    }
    match &slots[3] {
        Slot::Single(Value::UtcTimestamp(t)) => assert_eq!(t.seconds, 1704082800),
        _ => panic!("expected a timestamp"),
    }
    match &slots[4] {
        Slot::Keyed(m) => assert_eq!(m, &vec![("x".to_string(), Value::U8(7))]),
        _ => panic!("expected a keyed slot"),
    }
}

#[test]
fn a_conversion_error_stops_assembly_first() {
    let fields = vec![
        typed("count", Cardinality::RepeatedList, ElementKind::I32),
        typed("title", Cardinality::Required, ElementKind::Text),
    ];
    let parts = vec![part("count", "1"), part("count", "x"), part("count", "2")];
    match assemble(&fields, &parts, lenient()) {
        Err(TypedMultipartError::WrongFieldType { field_name, wanted_type, cause }) => {
            assert_eq!(field_name, "count");
            assert_eq!(wanted_type, "i32");
            assert!(matches!(cause, Some(Cause::Integer(IntErrorKind::InvalidDigit))));
        }
        _ => panic!("expected the conversion error, not a missing field"),
    }
}

#[test]
fn required_present_and_list_in_order() {
    let parts = vec![part("title", "t"), part("tags", "a"), part("tags", "b")];
    let slots = assemble(&shape(), &parts, strict()).ok().unwrap();
    match &slots[1] {
        Slot::List(l) => {
            assert_eq!(l, &vec![Value::Text("a".to_string()), Value::Text("b".to_string())])
        }
        _ => panic!("expected a list"),
    }
}
