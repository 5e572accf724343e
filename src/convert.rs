use vstd::prelude::*;
use crate::chunks::{collect_chunks, payload};
use crate::error::{wrong_type, Cause, CauseView, ErrorView, TypedMultipartError};
use crate::metadata::{field_name_of, FieldMetadata};
use crate::text::{
    decimal_in, int_error, parse_bool, parse_char, parse_i128, parse_i16, parse_i32, parse_i64,
    parse_i8, parse_isize, parse_u128, parse_u16, parse_u32, parse_u64, parse_u8, parse_usize,
};

verus! {

/// The text that a byte sequence encodes as UTF-8, or `None` where it is not
/// valid UTF-8.
pub open spec fn utf8_text(b: Seq<u8>) -> Option<Seq<char>> {
    if vstd::utf8::valid_utf8(b) {
        Some(vstd::utf8::decode_utf8(b))
    } else {
        None
    }
}

/// The length of the longest prefix of `b` that is valid UTF-8.
pub open spec fn utf8_valid_up_to(b: Seq<u8>) -> usize {
    choose|n: usize|
        n <= b.len() && vstd::utf8::valid_utf8(b.take(n as int)) && forall|m: int|
            n < m <= b.len() ==> !vstd::utf8::valid_utf8(#[trigger] b.take(m))
}

/// Relies on `String::from_utf8` and `Utf8Error::valid_up_to`: the bytes as
/// text when they are valid UTF-8, else the length of the longest valid prefix.
#[verifier::external_body]
pub(crate) fn decode_utf8(bytes: Vec<u8>) -> (r: Result<String, usize>)
    ensures
        match r {
            Ok(t) => utf8_text(bytes@) == Some(t@),
            Err(n) => utf8_text(bytes@) is None && n == utf8_valid_up_to(bytes@),
        },
{
    String::from_utf8(bytes).map_err(|e| e.utf8_error().valid_up_to())
}

/// The value of a well-formed UUID text given in ASCII bytes, as a 128-bit
/// number, or `None` where it is not one.
pub uninterp spec fn uuid_of(b: Seq<u8>) -> Option<u128>;

/// The text with which the identifier parser describes why `b` is not an identifier.
pub uninterp spec fn uuid_error_text(b: Seq<u8>) -> Seq<char>;

/// Relies on `uuid::Uuid::try_parse_ascii`, `uuid::Uuid::as_u128` and the
/// `Display` of `uuid::Error`: the identifier that the bytes spell, or the
/// parser's description of the failure.
#[verifier::external_body]
fn parse_uuid_ascii(b: &Vec<u8>) -> (r: Result<u128, String>)
    ensures
        match r {
            Ok(v) => uuid_of(b@) == Some(v),
            Err(m) => uuid_of(b@) is None && m@ == uuid_error_text(b@),
        },
{
    uuid::Uuid::try_parse_ascii(b.as_slice()).map(|u| u.as_u128()).map_err(|e| e.to_string())
}

/// The instant (seconds since the epoch, nanoseconds) and the offset east of
/// UTC in seconds that an RFC 3339 text gives, or `None` where it is none.
pub uninterp spec fn rfc3339_of(s: Seq<char>) -> Option<(i64, u32, i32)>;

/// The text with which the RFC 3339 parser describes why `s` is not a timestamp.
pub uninterp spec fn rfc3339_error_text(s: Seq<char>) -> Seq<char>;

/// Relies on `chrono::DateTime::parse_from_rfc3339` and the `Display` of
/// `chrono::ParseError`: the instant and the submitted offset of an RFC 3339
/// timestamp, or the parser's description of the failure.
#[verifier::external_body]
fn parse_rfc3339(s: &str) -> (r: Result<(i64, u32, i32), String>)
    ensures
        match r {
            Ok(v) => rfc3339_of(s@) == Some(v),
            Err(m) => rfc3339_of(s@) is None && m@ == rfc3339_error_text(s@),
        },
{
    chrono::DateTime::parse_from_rfc3339(s).map(
        |d| (d.timestamp(), d.timestamp_subsec_nanos(), d.offset().local_minus_utc()),
    ).map_err(|e| e.to_string())
}

/// The instant (seconds since the epoch, nanoseconds) that a timestamp text
/// gives once brought to UTC, or `None` where it is none.
pub uninterp spec fn utc_of(s: Seq<char>) -> Option<(i64, u32)>;

/// The text with which the UTC timestamp parser describes why `s` is none.
pub uninterp spec fn utc_error_text(s: Seq<char>) -> Seq<char>;

/// Relies on `FromStr for chrono::DateTime<chrono::Utc>` and the `Display` of
/// `chrono::ParseError`: the instant of a timestamp text, normalised to UTC,
/// or the parser's description of the failure.
#[verifier::external_body]
fn parse_utc(s: &str) -> (r: Result<(i64, u32), String>)
    ensures
        match r {
            Ok(v) => utc_of(s@) == Some(v),
            Err(m) => utc_of(s@) is None && m@ == utc_error_text(s@),
        },
{
    s.parse::<chrono::DateTime<chrono::Utc>>().map(
        |d| (d.timestamp(), d.timestamp_subsec_nanos()),
    ).map_err(|e| e.to_string())
}

/// A UUID-shaped identifier, as its 128-bit value.
#[derive(Clone, Copy, Debug, PartialEq, Eq, Structural)]
pub struct Uuid {
    pub value: u128,
}

impl View for Uuid {
    type V = Uuid;

    open spec fn view(&self) -> Uuid {
        *self
    }
}

/// An instant with the offset east of UTC that it was submitted with.
#[derive(Clone, Copy, Debug, PartialEq, Eq, Structural)]
pub struct FixedTimestamp {
    pub seconds: i64,
    pub nanos: u32,
    pub offset_seconds: i32,
}

impl View for FixedTimestamp {
    type V = FixedTimestamp;

    open spec fn view(&self) -> FixedTimestamp {
        *self
    }
}

/// An instant normalised to UTC.
#[derive(Clone, Copy, Debug, PartialEq, Eq, Structural)]
pub struct UtcTimestamp {
    pub seconds: i64,
    pub nanos: u32,
}

impl View for UtcTimestamp {
    type V = UtcTimestamp;

    open spec fn view(&self) -> UtcTimestamp {
        *self
    }
}

/// The error for a payload that is not UTF-8, read as `ty`.
pub open spec fn not_text(b: Seq<u8>, name: Seq<char>, ty: Seq<char>) -> ErrorView {
    ErrorView::WrongFieldType(name, ty, Some(CauseView::Utf8(utf8_valid_up_to(b))))
}

/// What reading a payload as text gives.
pub open spec fn text_outcome(b: Seq<u8>, name: Seq<char>) -> Result<Seq<char>, ErrorView> {
    match utf8_text(b) {
        Some(t) => Ok(t),
        None => Err(not_text(b, name, "String"@)),
    }
}

/// What reading a payload as an integer of bounds `lo..=hi`, named `ty`, gives.
pub open spec fn int_outcome(
    b: Seq<u8>,
    name: Seq<char>,
    signed: bool,
    lo: int,
    hi: int,
    ty: Seq<char>,
) -> Result<int, ErrorView> {
    match utf8_text(b) {
        Some(t) => match decimal_in(t, signed, lo, hi) {
            Some(v) => Ok(v),
            None => Err(
                ErrorView::WrongFieldType(
                    name,
                    ty,
                    Some(CauseView::Integer(int_error(t, signed, lo, hi))),
                ),
            ),
        },
        None => Err(not_text(b, name, "String"@)),
    }
}

/// What reading a payload as a boolean gives.
pub open spec fn bool_outcome(b: Seq<u8>, name: Seq<char>) -> Result<bool, ErrorView> {
    match utf8_text(b) {
        Some(t) => if t == "true"@ {
            Ok(true)
        } else if t == "false"@ {
            Ok(false)
        } else {
            Err(ErrorView::WrongFieldType(name, "bool"@, Some(CauseView::Boolean)))
        },
        None => Err(not_text(b, name, "String"@)),
    }
}

/// What reading a payload as a character gives.
pub open spec fn char_outcome(b: Seq<u8>, name: Seq<char>) -> Result<char, ErrorView> {
    match utf8_text(b) {
        Some(t) => if t.len() == 1 {
            Ok(t[0])
        } else {
            Err(ErrorView::WrongFieldType(name, "char"@, Some(CauseView::Character(t.len() == 0))))
        },
        None => Err(not_text(b, name, "String"@)),
    }
}

/// What reading a payload as an identifier gives.
pub open spec fn uuid_outcome(b: Seq<u8>, name: Seq<char>) -> Result<Uuid, ErrorView> {
    match uuid_of(b) {
        Some(v) => Ok(Uuid { value: v }),
        None => Err(
            ErrorView::WrongFieldType(name, "Uuid"@, Some(CauseView::Message(uuid_error_text(b)))),
        ),
    }
}

/// What reading a payload as a timestamp with its offset gives.
pub open spec fn fixed_outcome(b: Seq<u8>, name: Seq<char>) -> Result<FixedTimestamp, ErrorView> {
    match utf8_text(b) {
        Some(t) => match rfc3339_of(t) {
            Some((s, n, o)) => Ok(FixedTimestamp { seconds: s, nanos: n, offset_seconds: o }),
            None => Err(
                ErrorView::WrongFieldType(
                    name,
                    "DateTime<FixedOffset>"@,
                    Some(CauseView::Message(rfc3339_error_text(t))),
                ),
            ),
        },
        None => Err(not_text(b, name, "DateTime<FixedOffset>"@)),
    }
}

/// What reading a payload as a UTC timestamp gives.
pub open spec fn utc_outcome(b: Seq<u8>, name: Seq<char>) -> Result<UtcTimestamp, ErrorView> {
    match utf8_text(b) {
        Some(t) => match utc_of(t) {
            Some((s, n)) => Ok(UtcTimestamp { seconds: s, nanos: n }),
            None => Err(
                ErrorView::WrongFieldType(
                    name,
                    "DateTime<Utc>"@,
                    Some(CauseView::Message(utc_error_text(t))),
                ),
            ),
        },
        None => Err(not_text(b, name, "DateTime<Utc>"@)),
    }
}

/// The payload of a field unchanged, however it was split into chunks.
pub fn bytes_from_chunks(chunks: &Vec<Vec<u8>>, metadata: &FieldMetadata) -> (r: Vec<u8>)
    ensures
        r@ == payload(chunks),
{
    collect_chunks(chunks)
}

/// The payload of a field as text; invalid UTF-8 is a wrong-type error naming
/// `String` whose cause gives the length of the valid prefix.
pub fn string_from_chunks(chunks: &Vec<Vec<u8>>, metadata: &FieldMetadata) -> (r: Result<
    String,
    TypedMultipartError,
>)
    ensures
        match r {
            Ok(s) => text_outcome(payload(chunks), field_name_of(metadata.name)) == Ok::<
                Seq<char>,
                ErrorView,
            >(s@),
            Err(e) => text_outcome(payload(chunks), field_name_of(metadata.name)) == Err::<
                Seq<char>,
                ErrorView,
            >(e@),
        },
{
    let bytes = collect_chunks(chunks);
    match decode_utf8(bytes) {
        Ok(t) => Ok(t),
        Err(n) => Err(wrong_type(metadata.field_name(), "String", Some(Cause::Utf8 { valid_up_to: n }))),
    }
}

/// A field read as an identifier: the bytes themselves are parsed as ASCII.
pub fn uuid_from_chunks(chunks: &Vec<Vec<u8>>, metadata: &FieldMetadata) -> (r: Result<
    Uuid,
    TypedMultipartError,
>)
    ensures
        match r {
            Ok(u) => uuid_outcome(payload(chunks), field_name_of(metadata.name)) == Ok::<
                Uuid,
                ErrorView,
            >(u),
            Err(e) => uuid_outcome(payload(chunks), field_name_of(metadata.name)) == Err::<
                Uuid,
                ErrorView,
            >(e@),
        },
{
    let bytes = collect_chunks(chunks);
    uuid_from_parsed(parse_uuid_ascii(&bytes), metadata.field_name())
}

/// The identifier that parsing gave, or a wrong-type error naming `Uuid`
/// that carries the parser's description.
pub fn uuid_from_parsed(parsed: Result<u128, String>, field_name: String) -> (r: Result<
    Uuid,
    TypedMultipartError,
>)
    ensures
        match parsed {
            Ok(v) => r == Ok::<Uuid, TypedMultipartError>(Uuid { value: v }),
            Err(m) => r matches Err(e) && e@ == ErrorView::WrongFieldType(
                field_name@,
                "Uuid"@,
                Some(CauseView::Message(m@)),
            ),
        },
{
    match parsed {
        Ok(v) => Ok(Uuid { value: v }),
        Err(m) => Err(wrong_type(field_name, "Uuid", Some(Cause::Message(m)))),
    }
}

/// A field read as a timestamp that keeps its submitted offset. Bytes that are
/// not UTF-8 are a wrong-type error naming the timestamp type as well.
pub fn fixed_timestamp_from_chunks(chunks: &Vec<Vec<u8>>, metadata: &FieldMetadata) -> (r: Result<
    FixedTimestamp,
    TypedMultipartError,
>)
    ensures
        match r {
            Ok(v) => fixed_outcome(payload(chunks), field_name_of(metadata.name)) == Ok::<
                FixedTimestamp,
                ErrorView,
            >(v),
            Err(e) => fixed_outcome(payload(chunks), field_name_of(metadata.name)) == Err::<
                FixedTimestamp,
                ErrorView,
            >(e@),
        },
{
    let bytes = collect_chunks(chunks);
    match decode_utf8(bytes) {
        Ok(t) => fixed_timestamp_from_parsed(parse_rfc3339(t.as_str()), metadata.field_name()),
        Err(n) => Err(
            wrong_type(
                metadata.field_name(),
                "DateTime<FixedOffset>",
                Some(Cause::Utf8 { valid_up_to: n }),
            ),
        ),
    }
}

/// The timestamp that parsing gave, or a wrong-type error naming the type
/// that carries the parser's description.
pub fn fixed_timestamp_from_parsed(parsed: Result<(i64, u32, i32), String>, field_name: String) -> (r:
    Result<FixedTimestamp, TypedMultipartError>)
    ensures
        match parsed {
            Ok((s, n, o)) => r == Ok::<FixedTimestamp, TypedMultipartError>(
                FixedTimestamp { seconds: s, nanos: n, offset_seconds: o },
            ),
            Err(m) => r matches Err(e) && e@ == ErrorView::WrongFieldType(
                field_name@,
                "DateTime<FixedOffset>"@,
                Some(CauseView::Message(m@)),
            ),
        },
{
    match parsed {
        Ok((s, n, o)) => Ok(FixedTimestamp { seconds: s, nanos: n, offset_seconds: o }),
        Err(m) => Err(wrong_type(field_name, "DateTime<FixedOffset>", Some(Cause::Message(m)))),
    }
}

/// A field read as a timestamp brought to UTC. Bytes that are not UTF-8 are a
/// wrong-type error naming the timestamp type as well.
pub fn utc_timestamp_from_chunks(chunks: &Vec<Vec<u8>>, metadata: &FieldMetadata) -> (r: Result<
    UtcTimestamp,
    TypedMultipartError,
>)
    ensures
        match r {
            Ok(v) => utc_outcome(payload(chunks), field_name_of(metadata.name)) == Ok::<
                UtcTimestamp,
                ErrorView,
            >(v),
            Err(e) => utc_outcome(payload(chunks), field_name_of(metadata.name)) == Err::<
                UtcTimestamp,
                ErrorView,
            >(e@),
        },
{
    let bytes = collect_chunks(chunks);
    match decode_utf8(bytes) {
        Ok(t) => utc_timestamp_from_parsed(parse_utc(t.as_str()), metadata.field_name()),
        Err(n) => Err(
            wrong_type(metadata.field_name(), "DateTime<Utc>", Some(Cause::Utf8 { valid_up_to: n })),
        ),
    }
}

/// The UTC timestamp that parsing gave, or a wrong-type error naming the type
/// that carries the parser's description.
pub fn utc_timestamp_from_parsed(parsed: Result<(i64, u32), String>, field_name: String) -> (r:
    Result<UtcTimestamp, TypedMultipartError>)
    ensures
        match parsed {
            Ok((s, n)) => r == Ok::<UtcTimestamp, TypedMultipartError>(
                UtcTimestamp { seconds: s, nanos: n },
            ),
            Err(m) => r matches Err(e) && e@ == ErrorView::WrongFieldType(
                field_name@,
                "DateTime<Utc>"@,
                Some(CauseView::Message(m@)),
            ),
        },
{
    match parsed {
        Ok((s, n)) => Ok(UtcTimestamp { seconds: s, nanos: n }),
        Err(m) => Err(wrong_type(field_name, "DateTime<Utc>", Some(Cause::Message(m)))),
    }
}

/// A field read as `i8`: its text, then the standard textual rule for `i8`;
/// a failure carries the rule's reason.
pub fn i8_from_chunks(chunks: &Vec<Vec<u8>>, metadata: &FieldMetadata) -> (r: Result<
    i8,
    TypedMultipartError,
>)
    ensures
        match r {
            Ok(v) => int_outcome(payload(chunks), field_name_of(metadata.name), true, i8::MIN as int, i8::MAX as int, "i8"@) == Ok::<int, ErrorView>(v as int),
            Err(e) => int_outcome(payload(chunks), field_name_of(metadata.name), true, i8::MIN as int, i8::MAX as int, "i8"@) == Err::<int, ErrorView>(e@),
        },
{
    match string_from_chunks(chunks, metadata) {
        Ok(text) => match parse_i8(text.as_str()) {
            Ok(v) => Ok(v),
            Err(k) => Err(wrong_type(metadata.field_name(), "i8", Some(Cause::Integer(k)))),
        },
        Err(e) => Err(e),
    }
}

/// A field read as `i16`: its text, then the standard textual rule for `i16`;
/// a failure carries the rule's reason.
pub fn i16_from_chunks(chunks: &Vec<Vec<u8>>, metadata: &FieldMetadata) -> (r: Result<
    i16,
    TypedMultipartError,
>)
    ensures
        match r {
            Ok(v) => int_outcome(payload(chunks), field_name_of(metadata.name), true, i16::MIN as int, i16::MAX as int, "i16"@) == Ok::<int, ErrorView>(v as int),
            Err(e) => int_outcome(payload(chunks), field_name_of(metadata.name), true, i16::MIN as int, i16::MAX as int, "i16"@) == Err::<int, ErrorView>(e@),
        },
{
    match string_from_chunks(chunks, metadata) {
        Ok(text) => match parse_i16(text.as_str()) {
            Ok(v) => Ok(v),
            Err(k) => Err(wrong_type(metadata.field_name(), "i16", Some(Cause::Integer(k)))),
        },
        Err(e) => Err(e),
    }
}

/// A field read as `i32`: its text, then the standard textual rule for `i32`;
/// a failure carries the rule's reason.
pub fn i32_from_chunks(chunks: &Vec<Vec<u8>>, metadata: &FieldMetadata) -> (r: Result<
    i32,
    TypedMultipartError,
>)
    ensures
        match r {
            Ok(v) => int_outcome(payload(chunks), field_name_of(metadata.name), true, i32::MIN as int, i32::MAX as int, "i32"@) == Ok::<int, ErrorView>(v as int),
            Err(e) => int_outcome(payload(chunks), field_name_of(metadata.name), true, i32::MIN as int, i32::MAX as int, "i32"@) == Err::<int, ErrorView>(e@),
        },
{
    match string_from_chunks(chunks, metadata) {
        Ok(text) => match parse_i32(text.as_str()) {
            Ok(v) => Ok(v),
            Err(k) => Err(wrong_type(metadata.field_name(), "i32", Some(Cause::Integer(k)))),
        },
        Err(e) => Err(e),
    }
}

/// A field read as `i64`: its text, then the standard textual rule for `i64`;
/// a failure carries the rule's reason.
pub fn i64_from_chunks(chunks: &Vec<Vec<u8>>, metadata: &FieldMetadata) -> (r: Result<
    i64,
    TypedMultipartError,
>)
    ensures
        match r {
            Ok(v) => int_outcome(payload(chunks), field_name_of(metadata.name), true, i64::MIN as int, i64::MAX as int, "i64"@) == Ok::<int, ErrorView>(v as int),
            Err(e) => int_outcome(payload(chunks), field_name_of(metadata.name), true, i64::MIN as int, i64::MAX as int, "i64"@) == Err::<int, ErrorView>(e@),
        },
{
    match string_from_chunks(chunks, metadata) {
        Ok(text) => match parse_i64(text.as_str()) {
            Ok(v) => Ok(v),
            Err(k) => Err(wrong_type(metadata.field_name(), "i64", Some(Cause::Integer(k)))),
        },
        Err(e) => Err(e),
    }
}

/// A field read as `i128`: its text, then the standard textual rule for `i128`;
/// a failure carries the rule's reason.
pub fn i128_from_chunks(chunks: &Vec<Vec<u8>>, metadata: &FieldMetadata) -> (r: Result<
    i128,
    TypedMultipartError,
>)
    ensures
        match r {
            Ok(v) => int_outcome(payload(chunks), field_name_of(metadata.name), true, i128::MIN as int, i128::MAX as int, "i128"@) == Ok::<int, ErrorView>(v as int),
            Err(e) => int_outcome(payload(chunks), field_name_of(metadata.name), true, i128::MIN as int, i128::MAX as int, "i128"@) == Err::<int, ErrorView>(e@),
        },
{
    match string_from_chunks(chunks, metadata) {
        Ok(text) => match parse_i128(text.as_str()) {
            Ok(v) => Ok(v),
            Err(k) => Err(wrong_type(metadata.field_name(), "i128", Some(Cause::Integer(k)))),
        },
        Err(e) => Err(e),
    }
}

/// A field read as `isize`: its text, then the standard textual rule for `isize`;
/// a failure carries the rule's reason.
pub fn isize_from_chunks(chunks: &Vec<Vec<u8>>, metadata: &FieldMetadata) -> (r: Result<
    isize,
    TypedMultipartError,
>)
    ensures
        match r {
            Ok(v) => int_outcome(payload(chunks), field_name_of(metadata.name), true, isize::MIN as int, isize::MAX as int, "isize"@) == Ok::<int, ErrorView>(v as int),
            Err(e) => int_outcome(payload(chunks), field_name_of(metadata.name), true, isize::MIN as int, isize::MAX as int, "isize"@) == Err::<int, ErrorView>(e@),
        },
{
    match string_from_chunks(chunks, metadata) {
        Ok(text) => match parse_isize(text.as_str()) {
            Ok(v) => Ok(v),
            Err(k) => Err(wrong_type(metadata.field_name(), "isize", Some(Cause::Integer(k)))),
        },
        Err(e) => Err(e),
    }
}

/// A field read as `u8`: its text, then the standard textual rule for `u8`;
/// a failure carries the rule's reason.
pub fn u8_from_chunks(chunks: &Vec<Vec<u8>>, metadata: &FieldMetadata) -> (r: Result<
    u8,
    TypedMultipartError,
>)
    ensures
        match r {
            Ok(v) => int_outcome(payload(chunks), field_name_of(metadata.name), false, 0, u8::MAX as int, "u8"@) == Ok::<int, ErrorView>(v as int),
            Err(e) => int_outcome(payload(chunks), field_name_of(metadata.name), false, 0, u8::MAX as int, "u8"@) == Err::<int, ErrorView>(e@),
        },
{
    match string_from_chunks(chunks, metadata) {
        Ok(text) => match parse_u8(text.as_str()) {
            Ok(v) => Ok(v),
            Err(k) => Err(wrong_type(metadata.field_name(), "u8", Some(Cause::Integer(k)))),
        },
        Err(e) => Err(e),
    }
}

/// A field read as `u16`: its text, then the standard textual rule for `u16`;
/// a failure carries the rule's reason.
pub fn u16_from_chunks(chunks: &Vec<Vec<u8>>, metadata: &FieldMetadata) -> (r: Result<
    u16,
    TypedMultipartError,
>)
    ensures
        match r {
            Ok(v) => int_outcome(payload(chunks), field_name_of(metadata.name), false, 0, u16::MAX as int, "u16"@) == Ok::<int, ErrorView>(v as int),
            Err(e) => int_outcome(payload(chunks), field_name_of(metadata.name), false, 0, u16::MAX as int, "u16"@) == Err::<int, ErrorView>(e@),
        },
{
    match string_from_chunks(chunks, metadata) {
        Ok(text) => match parse_u16(text.as_str()) {
            Ok(v) => Ok(v),
            Err(k) => Err(wrong_type(metadata.field_name(), "u16", Some(Cause::Integer(k)))),
        },
        Err(e) => Err(e),
    }
}

/// A field read as `u32`: its text, then the standard textual rule for `u32`;
/// a failure carries the rule's reason.
pub fn u32_from_chunks(chunks: &Vec<Vec<u8>>, metadata: &FieldMetadata) -> (r: Result<
    u32,
    TypedMultipartError,
>)
    ensures
        match r {
            Ok(v) => int_outcome(payload(chunks), field_name_of(metadata.name), false, 0, u32::MAX as int, "u32"@) == Ok::<int, ErrorView>(v as int),
            Err(e) => int_outcome(payload(chunks), field_name_of(metadata.name), false, 0, u32::MAX as int, "u32"@) == Err::<int, ErrorView>(e@),
        },
{
    match string_from_chunks(chunks, metadata) {
        Ok(text) => match parse_u32(text.as_str()) {
            Ok(v) => Ok(v),
            Err(k) => Err(wrong_type(metadata.field_name(), "u32", Some(Cause::Integer(k)))),
        },
        Err(e) => Err(e),
    }
}

/// A field read as `u64`: its text, then the standard textual rule for `u64`;
/// a failure carries the rule's reason.
pub fn u64_from_chunks(chunks: &Vec<Vec<u8>>, metadata: &FieldMetadata) -> (r: Result<
    u64,
    TypedMultipartError,
>)
    ensures
        match r {
            Ok(v) => int_outcome(payload(chunks), field_name_of(metadata.name), false, 0, u64::MAX as int, "u64"@) == Ok::<int, ErrorView>(v as int),
            Err(e) => int_outcome(payload(chunks), field_name_of(metadata.name), false, 0, u64::MAX as int, "u64"@) == Err::<int, ErrorView>(e@),
        },
{
    match string_from_chunks(chunks, metadata) {
        Ok(text) => match parse_u64(text.as_str()) {
            Ok(v) => Ok(v),
            Err(k) => Err(wrong_type(metadata.field_name(), "u64", Some(Cause::Integer(k)))),
        },
        Err(e) => Err(e),
    }
}

/// A field read as `u128`: its text, then the standard textual rule for `u128`;
/// a failure carries the rule's reason.
pub fn u128_from_chunks(chunks: &Vec<Vec<u8>>, metadata: &FieldMetadata) -> (r: Result<
    u128,
    TypedMultipartError,
>)
    ensures
        match r {
            Ok(v) => int_outcome(payload(chunks), field_name_of(metadata.name), false, 0, u128::MAX as int, "u128"@) == Ok::<int, ErrorView>(v as int),
            Err(e) => int_outcome(payload(chunks), field_name_of(metadata.name), false, 0, u128::MAX as int, "u128"@) == Err::<int, ErrorView>(e@),
        },
{
    match string_from_chunks(chunks, metadata) {
        Ok(text) => match parse_u128(text.as_str()) {
            Ok(v) => Ok(v),
            Err(k) => Err(wrong_type(metadata.field_name(), "u128", Some(Cause::Integer(k)))),
        },
        Err(e) => Err(e),
    }
}

/// A field read as `usize`: its text, then the standard textual rule for `usize`;
/// a failure carries the rule's reason.
pub fn usize_from_chunks(chunks: &Vec<Vec<u8>>, metadata: &FieldMetadata) -> (r: Result<
    usize,
    TypedMultipartError,
>)
    ensures
        match r {
            Ok(v) => int_outcome(payload(chunks), field_name_of(metadata.name), false, 0, usize::MAX as int, "usize"@) == Ok::<int, ErrorView>(v as int),
            Err(e) => int_outcome(payload(chunks), field_name_of(metadata.name), false, 0, usize::MAX as int, "usize"@) == Err::<int, ErrorView>(e@),
        },
{
    match string_from_chunks(chunks, metadata) {
        Ok(text) => match parse_usize(text.as_str()) {
            Ok(v) => Ok(v),
            Err(k) => Err(wrong_type(metadata.field_name(), "usize", Some(Cause::Integer(k)))),
        },
        Err(e) => Err(e),
    }
}

/// A field read as `bool`: its text, then the standard textual rule for `bool`;
/// a failure carries the rule's reason.
pub fn bool_from_chunks(chunks: &Vec<Vec<u8>>, metadata: &FieldMetadata) -> (r: Result<
    bool,
    TypedMultipartError,
>)
    ensures
        match r {
            Ok(v) => bool_outcome(payload(chunks), field_name_of(metadata.name)) == Ok::<bool, ErrorView>(v),
            Err(e) => bool_outcome(payload(chunks), field_name_of(metadata.name)) == Err::<bool, ErrorView>(e@),
        },
{
    match string_from_chunks(chunks, metadata) {
        Ok(text) => match parse_bool(text.as_str()) {
            Some(v) => Ok(v),
            None => Err(wrong_type(metadata.field_name(), "bool", Some(Cause::Boolean))),
        },
        Err(e) => Err(e),
    }
}

/// A field read as `char`: its text, then the standard textual rule for `char`;
/// a failure carries the rule's reason.
pub fn char_from_chunks(chunks: &Vec<Vec<u8>>, metadata: &FieldMetadata) -> (r: Result<
    char,
    TypedMultipartError,
>)
    ensures
        match r {
            Ok(v) => char_outcome(payload(chunks), field_name_of(metadata.name)) == Ok::<char, ErrorView>(v),
            Err(e) => char_outcome(payload(chunks), field_name_of(metadata.name)) == Err::<char, ErrorView>(e@),
        },
{
    match string_from_chunks(chunks, metadata) {
        Ok(text) => match parse_char(text.as_str()) {
            Some(v) => Ok(v),
            None => Err(
                wrong_type(
                    metadata.field_name(),
                    "char",
                    Some(Cause::Character { empty: text.as_str().unicode_len() == 0 }),
                ),
            ),
        },
        Err(e) => Err(e),
    }
}

} // verus!
