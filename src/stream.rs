use vstd::prelude::*;
use crate::chunks::{payload, push_chunk, single_chunk};
use crate::convert::{
    bool_from_chunks, bool_outcome, bytes_from_chunks, char_from_chunks, char_outcome,
    decode_utf8, fixed_outcome, fixed_timestamp_from_chunks, i128_from_chunks, i16_from_chunks,
    i32_from_chunks, i64_from_chunks, i8_from_chunks, int_outcome, isize_from_chunks,
    string_from_chunks, text_outcome, u128_from_chunks, u16_from_chunks, u32_from_chunks,
    u64_from_chunks, u8_from_chunks, usize_from_chunks, utc_outcome, utc_timestamp_from_chunks,
    utf8_text, uuid_from_chunks, uuid_outcome, FixedTimestamp, UtcTimestamp, Uuid,
};
use crate::error::{drop_cause, without_cause, ErrorView, TypedMultipartError};
use crate::metadata::{field_name_of, FieldData, FieldMetadata};
use crate::record::Part;
use crate::text::{all_digits, decimal_text, is_digit, lemma_bool_round_trip, lemma_decimal_round_trip};

verus! {

/// Types that can be built from the chunks of one field's payload.
pub trait TryFromChunks: Sized + View {
    /// What converting a payload of bytes `b` from the field named `name`
    /// gives: the value (as its view) or the error.
    spec fn outcome(b: Seq<u8>, name: Seq<char>) -> Result<Self::V, ErrorView>;

    /// Whether the payload is read as text before it is converted.
    spec fn reads_text() -> bool;

    /// Whether the payload is read as text before it is converted.
    fn is_text() -> (r: bool)
        ensures
            r == Self::reads_text(),
    ;

    /// Consumes the chunks, in arrival order, to build a value.
    fn try_from_chunks(chunks: &Vec<Vec<u8>>, metadata: &FieldMetadata) -> (r: Result<
        Self,
        TypedMultipartError,
    >)
        ensures
            match r {
                Ok(v) => Self::outcome(payload(chunks), field_name_of(metadata.name)) == Ok::<
                    Self::V,
                    ErrorView,
                >(v@),
                Err(e) => Self::outcome(payload(chunks), field_name_of(metadata.name)) == Err::<
                    Self::V,
                    ErrorView,
                >(e@),
            },
    ;
}

impl TryFromChunks for Vec<u8> {
    open spec fn outcome(b: Seq<u8>, name: Seq<char>) -> Result<Self::V, ErrorView> {
        Ok(b)
    }

    open spec fn reads_text() -> bool {
        false
    }

    fn is_text() -> (r: bool) {
        false
    }

    fn try_from_chunks(chunks: &Vec<Vec<u8>>, metadata: &FieldMetadata) -> (r: Result<
        Self,
        TypedMultipartError,
    >) {
        Ok(bytes_from_chunks(chunks, metadata))
    }
}

impl TryFromChunks for String {
    open spec fn outcome(b: Seq<u8>, name: Seq<char>) -> Result<Self::V, ErrorView> {
        text_outcome(b, name)
    }

    open spec fn reads_text() -> bool {
        true
    }

    fn is_text() -> (r: bool) {
        true
    }

    fn try_from_chunks(chunks: &Vec<Vec<u8>>, metadata: &FieldMetadata) -> (r: Result<
        Self,
        TypedMultipartError,
    >) {
        string_from_chunks(chunks, metadata)
    }
}

impl TryFromChunks for Uuid {
    open spec fn outcome(b: Seq<u8>, name: Seq<char>) -> Result<Self::V, ErrorView> {
        uuid_outcome(b, name)
    }

    open spec fn reads_text() -> bool {
        false
    }

    fn is_text() -> (r: bool) {
        false
    }

    fn try_from_chunks(chunks: &Vec<Vec<u8>>, metadata: &FieldMetadata) -> (r: Result<
        Self,
        TypedMultipartError,
    >) {
        uuid_from_chunks(chunks, metadata)
    }
}

impl TryFromChunks for FixedTimestamp {
    open spec fn outcome(b: Seq<u8>, name: Seq<char>) -> Result<Self::V, ErrorView> {
        fixed_outcome(b, name)
    }

    open spec fn reads_text() -> bool {
        true
    }

    fn is_text() -> (r: bool) {
        true
    }

    fn try_from_chunks(chunks: &Vec<Vec<u8>>, metadata: &FieldMetadata) -> (r: Result<
        Self,
        TypedMultipartError,
    >) {
        fixed_timestamp_from_chunks(chunks, metadata)
    }
}

impl TryFromChunks for UtcTimestamp {
    open spec fn outcome(b: Seq<u8>, name: Seq<char>) -> Result<Self::V, ErrorView> {
        utc_outcome(b, name)
    }

    open spec fn reads_text() -> bool {
        true
    }

    fn is_text() -> (r: bool) {
        true
    }

    fn try_from_chunks(chunks: &Vec<Vec<u8>>, metadata: &FieldMetadata) -> (r: Result<
        Self,
        TypedMultipartError,
    >) {
        utc_timestamp_from_chunks(chunks, metadata)
    }
}

impl TryFromChunks for i8 {
    open spec fn outcome(b: Seq<u8>, name: Seq<char>) -> Result<Self::V, ErrorView> {
        match int_outcome(b, name, true, i8::MIN as int, i8::MAX as int, "i8"@) {
            Ok(v) => Ok(v as i8),
            Err(e) => Err(e),
        }
    }

    open spec fn reads_text() -> bool {
        true
    }

    fn is_text() -> (r: bool) {
        true
    }

    fn try_from_chunks(chunks: &Vec<Vec<u8>>, metadata: &FieldMetadata) -> (r: Result<
        Self,
        TypedMultipartError,
    >) {
        i8_from_chunks(chunks, metadata)
    }
}

impl TryFromChunks for i16 {
    open spec fn outcome(b: Seq<u8>, name: Seq<char>) -> Result<Self::V, ErrorView> {
        match int_outcome(b, name, true, i16::MIN as int, i16::MAX as int, "i16"@) {
            Ok(v) => Ok(v as i16),
            Err(e) => Err(e),
        }
    }

    open spec fn reads_text() -> bool {
        true
    }

    fn is_text() -> (r: bool) {
        true
    }

    fn try_from_chunks(chunks: &Vec<Vec<u8>>, metadata: &FieldMetadata) -> (r: Result<
        Self,
        TypedMultipartError,
    >) {
        i16_from_chunks(chunks, metadata)
    }
}

impl TryFromChunks for i32 {
    open spec fn outcome(b: Seq<u8>, name: Seq<char>) -> Result<Self::V, ErrorView> {
        match int_outcome(b, name, true, i32::MIN as int, i32::MAX as int, "i32"@) {
            Ok(v) => Ok(v as i32),
            Err(e) => Err(e),
        }
    }

    open spec fn reads_text() -> bool {
        true
    }

    fn is_text() -> (r: bool) {
        true
    }

    fn try_from_chunks(chunks: &Vec<Vec<u8>>, metadata: &FieldMetadata) -> (r: Result<
        Self,
        TypedMultipartError,
    >) {
        i32_from_chunks(chunks, metadata)
    }
}

impl TryFromChunks for i64 {
    open spec fn outcome(b: Seq<u8>, name: Seq<char>) -> Result<Self::V, ErrorView> {
        match int_outcome(b, name, true, i64::MIN as int, i64::MAX as int, "i64"@) {
            Ok(v) => Ok(v as i64),
            Err(e) => Err(e),
        }
    }

    open spec fn reads_text() -> bool {
        true
    }

    fn is_text() -> (r: bool) {
        true
    }

    fn try_from_chunks(chunks: &Vec<Vec<u8>>, metadata: &FieldMetadata) -> (r: Result<
        Self,
        TypedMultipartError,
    >) {
        i64_from_chunks(chunks, metadata)
    }
}

impl TryFromChunks for i128 {
    open spec fn outcome(b: Seq<u8>, name: Seq<char>) -> Result<Self::V, ErrorView> {
        match int_outcome(b, name, true, i128::MIN as int, i128::MAX as int, "i128"@) {
            Ok(v) => Ok(v as i128),
            Err(e) => Err(e),
        }
    }

    open spec fn reads_text() -> bool {
        true
    }

    fn is_text() -> (r: bool) {
        true
    }

    fn try_from_chunks(chunks: &Vec<Vec<u8>>, metadata: &FieldMetadata) -> (r: Result<
        Self,
        TypedMultipartError,
    >) {
        i128_from_chunks(chunks, metadata)
    }
}

impl TryFromChunks for isize {
    open spec fn outcome(b: Seq<u8>, name: Seq<char>) -> Result<Self::V, ErrorView> {
        match int_outcome(b, name, true, isize::MIN as int, isize::MAX as int, "isize"@) {
            Ok(v) => Ok(v as isize),
            Err(e) => Err(e),
        }
    }

    open spec fn reads_text() -> bool {
        true
    }

    fn is_text() -> (r: bool) {
        true
    }

    fn try_from_chunks(chunks: &Vec<Vec<u8>>, metadata: &FieldMetadata) -> (r: Result<
        Self,
        TypedMultipartError,
    >) {
        isize_from_chunks(chunks, metadata)
    }
}

impl TryFromChunks for u8 {
    open spec fn outcome(b: Seq<u8>, name: Seq<char>) -> Result<Self::V, ErrorView> {
        match int_outcome(b, name, false, 0, u8::MAX as int, "u8"@) {
            Ok(v) => Ok(v as u8),
            Err(e) => Err(e),
        }
    }

    open spec fn reads_text() -> bool {
        true
    }

    fn is_text() -> (r: bool) {
        true
    }

    fn try_from_chunks(chunks: &Vec<Vec<u8>>, metadata: &FieldMetadata) -> (r: Result<
        Self,
        TypedMultipartError,
    >) {
        u8_from_chunks(chunks, metadata)
    }
}

impl TryFromChunks for u16 {
    open spec fn outcome(b: Seq<u8>, name: Seq<char>) -> Result<Self::V, ErrorView> {
        match int_outcome(b, name, false, 0, u16::MAX as int, "u16"@) {
            Ok(v) => Ok(v as u16),
            Err(e) => Err(e),
        }
    }

    open spec fn reads_text() -> bool {
        true
    }

    fn is_text() -> (r: bool) {
        true
    }

    fn try_from_chunks(chunks: &Vec<Vec<u8>>, metadata: &FieldMetadata) -> (r: Result<
        Self,
        TypedMultipartError,
    >) {
        u16_from_chunks(chunks, metadata)
    }
}

impl TryFromChunks for u32 {
    open spec fn outcome(b: Seq<u8>, name: Seq<char>) -> Result<Self::V, ErrorView> {
        match int_outcome(b, name, false, 0, u32::MAX as int, "u32"@) {
            Ok(v) => Ok(v as u32),
            Err(e) => Err(e),
        }
    }

    open spec fn reads_text() -> bool {
        true
    }

    fn is_text() -> (r: bool) {
        true
    }

    fn try_from_chunks(chunks: &Vec<Vec<u8>>, metadata: &FieldMetadata) -> (r: Result<
        Self,
        TypedMultipartError,
    >) {
        u32_from_chunks(chunks, metadata)
    }
}

impl TryFromChunks for u64 {
    open spec fn outcome(b: Seq<u8>, name: Seq<char>) -> Result<Self::V, ErrorView> {
        match int_outcome(b, name, false, 0, u64::MAX as int, "u64"@) {
            Ok(v) => Ok(v as u64),
            Err(e) => Err(e),
        }
    }

    open spec fn reads_text() -> bool {
        true
    }

    fn is_text() -> (r: bool) {
        true
    }

    fn try_from_chunks(chunks: &Vec<Vec<u8>>, metadata: &FieldMetadata) -> (r: Result<
        Self,
        TypedMultipartError,
    >) {
        u64_from_chunks(chunks, metadata)
    }
}

impl TryFromChunks for u128 {
    open spec fn outcome(b: Seq<u8>, name: Seq<char>) -> Result<Self::V, ErrorView> {
        match int_outcome(b, name, false, 0, u128::MAX as int, "u128"@) {
            Ok(v) => Ok(v as u128),
            Err(e) => Err(e),
        }
    }

    open spec fn reads_text() -> bool {
        true
    }

    fn is_text() -> (r: bool) {
        true
    }

    fn try_from_chunks(chunks: &Vec<Vec<u8>>, metadata: &FieldMetadata) -> (r: Result<
        Self,
        TypedMultipartError,
    >) {
        u128_from_chunks(chunks, metadata)
    }
}

impl TryFromChunks for usize {
    open spec fn outcome(b: Seq<u8>, name: Seq<char>) -> Result<Self::V, ErrorView> {
        match int_outcome(b, name, false, 0, usize::MAX as int, "usize"@) {
            Ok(v) => Ok(v as usize),
            Err(e) => Err(e),
        }
    }

    open spec fn reads_text() -> bool {
        true
    }

    fn is_text() -> (r: bool) {
        true
    }

    fn try_from_chunks(chunks: &Vec<Vec<u8>>, metadata: &FieldMetadata) -> (r: Result<
        Self,
        TypedMultipartError,
    >) {
        usize_from_chunks(chunks, metadata)
    }
}

impl TryFromChunks for bool {
    open spec fn outcome(b: Seq<u8>, name: Seq<char>) -> Result<Self::V, ErrorView> {
        bool_outcome(b, name)
    }

    open spec fn reads_text() -> bool {
        true
    }

    fn is_text() -> (r: bool) {
        true
    }

    fn try_from_chunks(chunks: &Vec<Vec<u8>>, metadata: &FieldMetadata) -> (r: Result<
        Self,
        TypedMultipartError,
    >) {
        bool_from_chunks(chunks, metadata)
    }
}

impl TryFromChunks for char {
    open spec fn outcome(b: Seq<u8>, name: Seq<char>) -> Result<Self::V, ErrorView> {
        char_outcome(b, name)
    }

    open spec fn reads_text() -> bool {
        true
    }

    fn is_text() -> (r: bool) {
        true
    }

    fn try_from_chunks(chunks: &Vec<Vec<u8>>, metadata: &FieldMetadata) -> (r: Result<
        Self,
        TypedMultipartError,
    >) {
        char_from_chunks(chunks, metadata)
    }
}

/// Converts a part whose payload is already buffered. A type read as text
/// whose payload is not valid UTF-8 meets a failure of the transport kind
/// (`Other`), not a conversion error; otherwise the outcome is the one its
/// chunked conversion gives on the same bytes, with a wrong-type error
/// reported without its cause.
pub fn try_from_field<T: TryFromChunks>(part: &Part) -> (r: Result<T, TypedMultipartError>)
    ensures
        if T::reads_text() && utf8_text(part.payload@) is None {
            r matches Err(e) && e@ == ErrorView::Other("field text is not valid UTF-8"@)
        } else {
            match r {
                Ok(v) => T::outcome(part.payload@, field_name_of(part.name)) == Ok::<
                    T::V,
                    ErrorView,
                >(v@),
                Err(e) => T::outcome(part.payload@, field_name_of(part.name)) matches Err(e0)
                    && e@ == without_cause(e0),
            }
        },
{
    if T::is_text() {
        let mut copy: Vec<u8> = Vec::new();
        push_chunk(&mut copy, &part.payload);
        assert(copy@ =~= part.payload@);
        if decode_utf8(copy).is_err() {
            return Err(
                TypedMultipartError::Other { message: String::from_str("field text is not valid UTF-8") },
            );
        }
    }
    let metadata = FieldMetadata::from_part(part);
    match T::try_from_chunks(&single_chunk(&part.payload), &metadata) {
        Ok(v) => Ok(v),
        Err(e) => Err(drop_cause(e)),
    }
}

/// Converts the chunks of a field and keeps the field's metadata beside the
/// value: `Ok` exactly when the inner conversion succeeds, with its value,
/// and otherwise the inner error unchanged.
pub fn field_data_from_chunks<T: TryFromChunks>(
    chunks: &Vec<Vec<u8>>,
    metadata: FieldMetadata,
) -> (r: Result<FieldData<T>, TypedMultipartError>)
    ensures
        match r {
            Ok(d) => d.metadata == metadata && T::outcome(
                payload(chunks),
                field_name_of(metadata.name),
            ) == Ok::<T::V, ErrorView>(d.contents@),
            Err(e) => T::outcome(payload(chunks), field_name_of(metadata.name)) == Err::<
                T::V,
                ErrorView,
            >(e@),
        },
{
    match T::try_from_chunks(chunks, &metadata) {
        Ok(contents) => Ok(FieldData::new(metadata, contents)),
        Err(e) => Err(e),
    }
}

/// Converts a buffered part and keeps the part's metadata (name, file name,
/// content type) beside the value; the error, if any, is the one
/// `try_from_field` gives, unchanged.
pub fn field_data_from_field<T: TryFromChunks>(part: &Part) -> (r: Result<
    FieldData<T>,
    TypedMultipartError,
>)
    ensures
        if T::reads_text() && utf8_text(part.payload@) is None {
            r matches Err(e) && e@ == ErrorView::Other("field text is not valid UTF-8"@)
        } else {
            match r {
                Ok(d) => d.metadata.name == part.name && d.metadata.file_name == part.file_name
                    && d.metadata.content_type == part.content_type && T::outcome(
                    part.payload@,
                    field_name_of(part.name),
                ) == Ok::<T::V, ErrorView>(d.contents@),
                Err(e) => T::outcome(part.payload@, field_name_of(part.name)) matches Err(e0)
                    && e@ == without_cause(e0),
            }
        },
{
    let metadata = FieldMetadata::from_part(part);
    match try_from_field::<T>(part) {
        Ok(contents) => Ok(FieldData::new(metadata, contents)),
        Err(e) => Err(e),
    }
}

/// Text that is not a number (a character other than a digit after the first
/// position, and neither `true` nor `false`) fails to convert to every
/// integer type, to `bool` and to `char`, with a wrong-type error naming the
/// wanted type.
pub proof fn lemma_non_numeric_rejected(b: Seq<u8>, name: Seq<char>, t: Seq<char>, i: int)
    requires
        utf8_text(b) == Some(t),
        1 <= i < t.len(),
        !is_digit(t[i]),
        t != "true"@,
        t != "false"@,
    ensures
        <i8 as TryFromChunks>::outcome(b, name) matches Err(ErrorView::WrongFieldType(n, w, _))
            && n == name && w == "i8"@,
        <i16 as TryFromChunks>::outcome(b, name) matches Err(ErrorView::WrongFieldType(n, w, _))
            && n == name && w == "i16"@,
        <i32 as TryFromChunks>::outcome(b, name) matches Err(ErrorView::WrongFieldType(n, w, _))
            && n == name && w == "i32"@,
        <i64 as TryFromChunks>::outcome(b, name) matches Err(ErrorView::WrongFieldType(n, w, _))
            && n == name && w == "i64"@,
        <i128 as TryFromChunks>::outcome(b, name) matches Err(ErrorView::WrongFieldType(n, w, _))
            && n == name && w == "i128"@,
        <isize as TryFromChunks>::outcome(b, name) matches Err(ErrorView::WrongFieldType(n, w, _))
            && n == name && w == "isize"@,
        <u8 as TryFromChunks>::outcome(b, name) matches Err(ErrorView::WrongFieldType(n, w, _))
            && n == name && w == "u8"@,
        <u16 as TryFromChunks>::outcome(b, name) matches Err(ErrorView::WrongFieldType(n, w, _))
            && n == name && w == "u16"@,
        <u32 as TryFromChunks>::outcome(b, name) matches Err(ErrorView::WrongFieldType(n, w, _))
            && n == name && w == "u32"@,
        <u64 as TryFromChunks>::outcome(b, name) matches Err(ErrorView::WrongFieldType(n, w, _))
            && n == name && w == "u64"@,
        <u128 as TryFromChunks>::outcome(b, name) matches Err(ErrorView::WrongFieldType(n, w, _))
            && n == name && w == "u128"@,
        <usize as TryFromChunks>::outcome(b, name) matches Err(ErrorView::WrongFieldType(n, w, _))
            && n == name && w == "usize"@,
        <bool as TryFromChunks>::outcome(b, name) matches Err(ErrorView::WrongFieldType(n, w, _))
            && n == name && w == "bool"@,
        <char as TryFromChunks>::outcome(b, name) matches Err(ErrorView::WrongFieldType(n, w, _))
            && n == name && w == "char"@,
{
    assert(t.skip(1)[i - 1] == t[i]);
    assert(!all_digits(t.skip(1)));
    assert(!all_digits(t));
}

/// The UTF-8 bytes of any text decode back to that text.
pub proof fn lemma_utf8_round_trip(t: Seq<char>)
    ensures
        utf8_text(vstd::utf8::encode_utf8(t)) == Some(t),
{
    vstd::utf8::encode_utf8_valid_utf8(t);
    vstd::utf8::encode_utf8_decode_utf8(t);
}

/// The UTF-8 bytes of the decimal text of `v`, however they are cut into
/// chunks, convert back to `v`, for every integer type whose range holds `v`.
pub proof fn lemma_integer_round_trip(b: Seq<u8>, name: Seq<char>, v: int)
    requires
        b == vstd::utf8::encode_utf8(decimal_text(v)),
    ensures
        i8::MIN <= v <= i8::MAX ==> <i8 as TryFromChunks>::outcome(b, name) == Ok::<
            i8,
            ErrorView,
        >(v as i8),
        i16::MIN <= v <= i16::MAX ==> <i16 as TryFromChunks>::outcome(b, name) == Ok::<
            i16,
            ErrorView,
        >(v as i16),
        i32::MIN <= v <= i32::MAX ==> <i32 as TryFromChunks>::outcome(b, name) == Ok::<
            i32,
            ErrorView,
        >(v as i32),
        i64::MIN <= v <= i64::MAX ==> <i64 as TryFromChunks>::outcome(b, name) == Ok::<
            i64,
            ErrorView,
        >(v as i64),
        i128::MIN <= v <= i128::MAX ==> <i128 as TryFromChunks>::outcome(b, name) == Ok::<
            i128,
            ErrorView,
        >(v as i128),
        isize::MIN <= v <= isize::MAX ==> <isize as TryFromChunks>::outcome(b, name) == Ok::<
            isize,
            ErrorView,
        >(v as isize),
        0 <= v <= u8::MAX ==> <u8 as TryFromChunks>::outcome(b, name) == Ok::<u8, ErrorView>(
            v as u8,
        ),
        0 <= v <= u16::MAX ==> <u16 as TryFromChunks>::outcome(b, name) == Ok::<u16, ErrorView>(
            v as u16,
        ),
        0 <= v <= u32::MAX ==> <u32 as TryFromChunks>::outcome(b, name) == Ok::<u32, ErrorView>(
            v as u32,
        ),
        0 <= v <= u64::MAX ==> <u64 as TryFromChunks>::outcome(b, name) == Ok::<u64, ErrorView>(
            v as u64,
        ),
        0 <= v <= u128::MAX ==> <u128 as TryFromChunks>::outcome(b, name) == Ok::<u128, ErrorView>(
            v as u128,
        ),
        0 <= v <= usize::MAX ==> <usize as TryFromChunks>::outcome(b, name) == Ok::<usize, ErrorView>(
            v as usize,
        ),
{
    lemma_utf8_round_trip(decimal_text(v));
    if i8::MIN <= v <= i8::MAX {
        lemma_decimal_round_trip(v, true, i8::MIN as int, i8::MAX as int);
    }
    if i16::MIN <= v <= i16::MAX {
        lemma_decimal_round_trip(v, true, i16::MIN as int, i16::MAX as int);
    }
    if i32::MIN <= v <= i32::MAX {
        lemma_decimal_round_trip(v, true, i32::MIN as int, i32::MAX as int);
    }
    if i64::MIN <= v <= i64::MAX {
        lemma_decimal_round_trip(v, true, i64::MIN as int, i64::MAX as int);
    }
    if i128::MIN <= v <= i128::MAX {
        lemma_decimal_round_trip(v, true, i128::MIN as int, i128::MAX as int);
    }
    if isize::MIN <= v <= isize::MAX {
        lemma_decimal_round_trip(v, true, isize::MIN as int, isize::MAX as int);
    }
    if 0 <= v <= u8::MAX {
        lemma_decimal_round_trip(v, false, 0, u8::MAX as int);
    }
    if 0 <= v <= u16::MAX {
        lemma_decimal_round_trip(v, false, 0, u16::MAX as int);
    }
    if 0 <= v <= u32::MAX {
        lemma_decimal_round_trip(v, false, 0, u32::MAX as int);
    }
    if 0 <= v <= u64::MAX {
        lemma_decimal_round_trip(v, false, 0, u64::MAX as int);
    }
    if 0 <= v <= u128::MAX {
        lemma_decimal_round_trip(v, false, 0, u128::MAX as int);
    }
    if 0 <= v <= usize::MAX {
        lemma_decimal_round_trip(v, false, 0, usize::MAX as int);
    }
}

/// The UTF-8 bytes of `true` or `false` convert back to that boolean, those
/// of a single character back to that character, and those of any text `t`
/// back to `t` itself.
pub proof fn lemma_bool_char_text_round_trip(name: Seq<char>, x: bool, c: char, t: Seq<char>)
    ensures
        <bool as TryFromChunks>::outcome(
            vstd::utf8::encode_utf8(
                if x {
                    "true"@
                } else {
                    "false"@
                },
            ),
            name,
        ) == Ok::<bool, ErrorView>(x),
        <char as TryFromChunks>::outcome(vstd::utf8::encode_utf8(seq![c]), name) == Ok::<
            char,
            ErrorView,
        >(c),
        <String as TryFromChunks>::outcome(vstd::utf8::encode_utf8(t), name) == Ok::<
            Seq<char>,
            ErrorView,
        >(t),
{
    lemma_bool_round_trip(x);
    lemma_utf8_round_trip(
        if x {
            "true"@
        } else {
            "false"@
        },
    );
    lemma_utf8_round_trip(seq![c]);
    lemma_utf8_round_trip(t);
}

} // verus!
