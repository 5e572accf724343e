use vstd::prelude::*;
use crate::chunks::{push_chunk, single_chunk};
use crate::convert::{FixedTimestamp, UtcTimestamp, Uuid};
use crate::error::{ErrorView, TypedMultipartError};
use crate::metadata::{copy_text, field_name_of, get_field_name, FieldMetadata};
use crate::stream::TryFromChunks;

verus! {

/// How many values a declared field takes.
#[derive(Clone, Copy, Debug, PartialEq, Eq, Structural)]
pub enum Cardinality {
    /// Exactly one value.
    Required,
    /// Zero or one value.
    Optional,
    /// Any number of values, kept in arrival order.
    RepeatedList,
    /// Any number of values keyed by what follows the field name as a prefix.
    RepeatedMap,
}

/// The type a declared field's payload is converted to.
#[derive(Clone, Copy, Debug, PartialEq, Eq, Structural)]
pub enum ElementKind {
    Bytes,
    Text,
    I8,
    I16,
    I32,
    I64,
    I128,
    Isize,
    U8,
    U16,
    U32,
    U64,
    U128,
    Usize,
    Bool,
    Char,
    Uuid,
    FixedTimestamp,
    UtcTimestamp,
}

/// A converted field value.
#[derive(Debug, PartialEq)]
pub enum Value {
    Bytes(Vec<u8>),
    Text(String),
    I8(i8),
    I16(i16),
    I32(i32),
    I64(i64),
    I128(i128),
    Isize(isize),
    U8(u8),
    U16(u16),
    U32(u32),
    U64(u64),
    U128(u128),
    Usize(usize),
    Bool(bool),
    Char(char),
    Uuid(Uuid),
    FixedTimestamp(FixedTimestamp),
    UtcTimestamp(UtcTimestamp),
}

pub enum ValueView {
    Bytes(Seq<u8>),
    Text(Seq<char>),
    I8(i8),
    I16(i16),
    I32(i32),
    I64(i64),
    I128(i128),
    Isize(isize),
    U8(u8),
    U16(u16),
    U32(u32),
    U64(u64),
    U128(u128),
    Usize(usize),
    Bool(bool),
    Char(char),
    Uuid(Uuid),
    FixedTimestamp(FixedTimestamp),
    UtcTimestamp(UtcTimestamp),
}

impl View for Value {
    type V = ValueView;

    open spec fn view(&self) -> ValueView {
        match self {
            Value::Bytes(x) => ValueView::Bytes(x@),
            Value::Text(x) => ValueView::Text(x@),
            Value::I8(x) => ValueView::I8(*x),
            Value::I16(x) => ValueView::I16(*x),
            Value::I32(x) => ValueView::I32(*x),
            Value::I64(x) => ValueView::I64(*x),
            Value::I128(x) => ValueView::I128(*x),
            Value::Isize(x) => ValueView::Isize(*x),
            Value::U8(x) => ValueView::U8(*x),
            Value::U16(x) => ValueView::U16(*x),
            Value::U32(x) => ValueView::U32(*x),
            Value::U64(x) => ValueView::U64(*x),
            Value::U128(x) => ValueView::U128(*x),
            Value::Usize(x) => ValueView::Usize(*x),
            Value::Bool(x) => ValueView::Bool(*x),
            Value::Char(x) => ValueView::Char(*x),
            Value::Uuid(x) => ValueView::Uuid(*x),
            Value::FixedTimestamp(x) => ValueView::FixedTimestamp(*x),
            Value::UtcTimestamp(x) => ValueView::UtcTimestamp(*x),
        }
    }
}

/// What converting a payload of bytes `b` from the part named `name` to
/// the kind `kind` gives.
pub open spec fn converted(kind: ElementKind, b: Seq<u8>, name: Seq<char>) -> Result<
    ValueView,
    ErrorView,
> {
    match kind {
        ElementKind::Bytes => Ok(ValueView::Bytes(b)),
        ElementKind::Text => match <String as TryFromChunks>::outcome(b, name) {
            Ok(x) => Ok(ValueView::Text(x)),
            Err(e) => Err(e),
        },
        ElementKind::I8 => match <i8 as TryFromChunks>::outcome(b, name) {
            Ok(x) => Ok(ValueView::I8(x)),
            Err(e) => Err(e),
        },
        ElementKind::I16 => match <i16 as TryFromChunks>::outcome(b, name) {
            Ok(x) => Ok(ValueView::I16(x)),
            Err(e) => Err(e),
        },
        ElementKind::I32 => match <i32 as TryFromChunks>::outcome(b, name) {
            Ok(x) => Ok(ValueView::I32(x)),
            Err(e) => Err(e),
        },
        ElementKind::I64 => match <i64 as TryFromChunks>::outcome(b, name) {
            Ok(x) => Ok(ValueView::I64(x)),
            Err(e) => Err(e),
        },
        ElementKind::I128 => match <i128 as TryFromChunks>::outcome(b, name) {
            Ok(x) => Ok(ValueView::I128(x)),
            Err(e) => Err(e),
        },
        ElementKind::Isize => match <isize as TryFromChunks>::outcome(b, name) {
            Ok(x) => Ok(ValueView::Isize(x)),
            Err(e) => Err(e),
        },
        ElementKind::U8 => match <u8 as TryFromChunks>::outcome(b, name) {
            Ok(x) => Ok(ValueView::U8(x)),
            Err(e) => Err(e),
        },
        ElementKind::U16 => match <u16 as TryFromChunks>::outcome(b, name) {
            Ok(x) => Ok(ValueView::U16(x)),
            Err(e) => Err(e),
        },
        ElementKind::U32 => match <u32 as TryFromChunks>::outcome(b, name) {
            Ok(x) => Ok(ValueView::U32(x)),
            Err(e) => Err(e),
        },
        ElementKind::U64 => match <u64 as TryFromChunks>::outcome(b, name) {
            Ok(x) => Ok(ValueView::U64(x)),
            Err(e) => Err(e),
        },
        ElementKind::U128 => match <u128 as TryFromChunks>::outcome(b, name) {
            Ok(x) => Ok(ValueView::U128(x)),
            Err(e) => Err(e),
        },
        ElementKind::Usize => match <usize as TryFromChunks>::outcome(b, name) {
            Ok(x) => Ok(ValueView::Usize(x)),
            Err(e) => Err(e),
        },
        ElementKind::Bool => match <bool as TryFromChunks>::outcome(b, name) {
            Ok(x) => Ok(ValueView::Bool(x)),
            Err(e) => Err(e),
        },
        ElementKind::Char => match <char as TryFromChunks>::outcome(b, name) {
            Ok(x) => Ok(ValueView::Char(x)),
            Err(e) => Err(e),
        },
        ElementKind::Uuid => match <Uuid as TryFromChunks>::outcome(b, name) {
            Ok(x) => Ok(ValueView::Uuid(x)),
            Err(e) => Err(e),
        },
        ElementKind::FixedTimestamp => match <FixedTimestamp as TryFromChunks>::outcome(b, name) {
            Ok(x) => Ok(ValueView::FixedTimestamp(x)),
            Err(e) => Err(e),
        },
        ElementKind::UtcTimestamp => match <UtcTimestamp as TryFromChunks>::outcome(b, name) {
            Ok(x) => Ok(ValueView::UtcTimestamp(x)),
            Err(e) => Err(e),
        },
    }
}

/// The value a conversion that succeeds gives.
pub open spec fn converted_value(kind: ElementKind, b: Seq<u8>, name: Seq<char>) -> ValueView {
    match converted(kind, b, name) {
        Ok(v) => v,
        Err(_) => ValueView::Bytes(Seq::empty()),
    }
}

/// Converts a gathered payload to the declared kind, through that type's
/// chunked conversion.
pub fn convert_payload(kind: ElementKind, payload: &Vec<u8>, name: &Option<String>) -> (r: Result<
    Value,
    TypedMultipartError,
>)
    ensures
        match r {
            Ok(v) => converted(kind, payload@, field_name_of(*name)) == Ok::<ValueView, ErrorView>(
                v@,
            ),
            Err(e) => converted(kind, payload@, field_name_of(*name)) == Err::<ValueView, ErrorView>(
                e@,
            ),
        },
{
    let chunks = single_chunk(payload);
    let metadata = FieldMetadata { name: copy_text(name), file_name: None, content_type: None };
    match kind {
        ElementKind::Bytes => {
            let mut copy: Vec<u8> = Vec::new();
            push_chunk(&mut copy, payload);
            assert(copy@ =~= payload@);
            Ok(Value::Bytes(copy))
        },
        ElementKind::Text => match <String as TryFromChunks>::try_from_chunks(&chunks, &metadata) {
            Ok(x) => Ok(Value::Text(x)),
            Err(e) => Err(e),
        },
        ElementKind::I8 => match <i8 as TryFromChunks>::try_from_chunks(&chunks, &metadata) {
            Ok(x) => Ok(Value::I8(x)),
            Err(e) => Err(e),
        },
        ElementKind::I16 => match <i16 as TryFromChunks>::try_from_chunks(&chunks, &metadata) {
            Ok(x) => Ok(Value::I16(x)),
            Err(e) => Err(e),
        },
        ElementKind::I32 => match <i32 as TryFromChunks>::try_from_chunks(&chunks, &metadata) {
            Ok(x) => Ok(Value::I32(x)),
            Err(e) => Err(e),
        },
        ElementKind::I64 => match <i64 as TryFromChunks>::try_from_chunks(&chunks, &metadata) {
            Ok(x) => Ok(Value::I64(x)),
            Err(e) => Err(e),
        },
        ElementKind::I128 => match <i128 as TryFromChunks>::try_from_chunks(&chunks, &metadata) {
            Ok(x) => Ok(Value::I128(x)),
            Err(e) => Err(e),
        },
        ElementKind::Isize => match <isize as TryFromChunks>::try_from_chunks(&chunks, &metadata) {
            Ok(x) => Ok(Value::Isize(x)),
            Err(e) => Err(e),
        },
        ElementKind::U8 => match <u8 as TryFromChunks>::try_from_chunks(&chunks, &metadata) {
            Ok(x) => Ok(Value::U8(x)),
            Err(e) => Err(e),
        },
        ElementKind::U16 => match <u16 as TryFromChunks>::try_from_chunks(&chunks, &metadata) {
            Ok(x) => Ok(Value::U16(x)),
            Err(e) => Err(e),
        },
        ElementKind::U32 => match <u32 as TryFromChunks>::try_from_chunks(&chunks, &metadata) {
            Ok(x) => Ok(Value::U32(x)),
            Err(e) => Err(e),
        },
        ElementKind::U64 => match <u64 as TryFromChunks>::try_from_chunks(&chunks, &metadata) {
            Ok(x) => Ok(Value::U64(x)),
            Err(e) => Err(e),
        },
        ElementKind::U128 => match <u128 as TryFromChunks>::try_from_chunks(&chunks, &metadata) {
            Ok(x) => Ok(Value::U128(x)),
            Err(e) => Err(e),
        },
        ElementKind::Usize => match <usize as TryFromChunks>::try_from_chunks(&chunks, &metadata) {
            Ok(x) => Ok(Value::Usize(x)),
            Err(e) => Err(e),
        },
        ElementKind::Bool => match <bool as TryFromChunks>::try_from_chunks(&chunks, &metadata) {
            Ok(x) => Ok(Value::Bool(x)),
            Err(e) => Err(e),
        },
        ElementKind::Char => match <char as TryFromChunks>::try_from_chunks(&chunks, &metadata) {
            Ok(x) => Ok(Value::Char(x)),
            Err(e) => Err(e),
        },
        ElementKind::Uuid => match <Uuid as TryFromChunks>::try_from_chunks(&chunks, &metadata) {
            Ok(x) => Ok(Value::Uuid(x)),
            Err(e) => Err(e),
        },
        ElementKind::FixedTimestamp => match <FixedTimestamp as TryFromChunks>::try_from_chunks(&chunks, &metadata) {
            Ok(x) => Ok(Value::FixedTimestamp(x)),
            Err(e) => Err(e),
        },
        ElementKind::UtcTimestamp => match <UtcTimestamp as TryFromChunks>::try_from_chunks(&chunks, &metadata) {
            Ok(x) => Ok(Value::UtcTimestamp(x)),
            Err(e) => Err(e),
        },
    }
}

/// One slot of the destination record.
pub struct TargetField {
    pub name: String,
    pub cardinality: Cardinality,
    pub element: ElementKind,
}

/// One part of a submission, with its payload already gathered.
pub struct Part {
    pub name: Option<String>,
    pub file_name: Option<String>,
    pub content_type: Option<String>,
    pub payload: Vec<u8>,
}

/// The choices left open by the routing rules.
#[derive(Clone, Copy, Debug, PartialEq, Eq, Structural)]
pub struct AssemblyPolicy {
    /// A part that names no declared field fails the assembly (else it is skipped).
    pub reject_unknown: bool,
    /// A second value for a single-valued field fails the assembly (else it overwrites).
    pub reject_duplicates: bool,
}

/// What one field of the record holds.
pub enum Slot {
    Empty,
    Single(Value),
    List(Vec<Value>),
    Keyed(Vec<(String, Value)>),
}

pub enum SlotView {
    Empty,
    Single(ValueView),
    List(Seq<ValueView>),
    Keyed(Seq<(Seq<char>, ValueView)>),
}

impl View for Slot {
    type V = SlotView;

    open spec fn view(&self) -> SlotView {
        match self {
            Slot::Empty => SlotView::Empty,
            Slot::Single(b) => SlotView::Single(b@),
            Slot::List(l) => SlotView::List(l@.map_values(|c: Value| c@)),
            Slot::Keyed(m) => SlotView::Keyed(entries_view(m@)),
        }
    }
}

pub open spec fn entries_view(m: Seq<(String, Value)>) -> Seq<(Seq<char>, ValueView)> {
    m.map_values(|e: (String, Value)| (e.0@, e.1@))
}

pub open spec fn slots_view(s: Seq<Slot>) -> Seq<SlotView> {
    s.map_values(|x: Slot| x@)
}

/// Whether a part named `part` belongs to the field `name` of cardinality `c`:
/// the same name, or, for a keyed field, a name that starts with it.
pub open spec fn name_matches(name: Seq<char>, c: Cardinality, part: Seq<char>) -> bool {
    if c == Cardinality::RepeatedMap {
        name.len() <= part.len() && part.subrange(0, name.len() as int) == name
    } else {
        part == name
    }
}

/// The first declared field from index `i` on that a part named `part` belongs to.
pub open spec fn first_match(fields: Seq<TargetField>, part: Seq<char>, i: int) -> Option<int>
    decreases fields.len() - i,
{
    if i < 0 || i >= fields.len() {
        None
    } else if name_matches(fields[i].name@, fields[i].cardinality, part) {
        Some(i)
    } else {
        first_match(fields, part, i + 1)
    }
}

/// The first entry from index `j` on with key `k`.
pub open spec fn key_index(m: Seq<(Seq<char>, ValueView)>, k: Seq<char>, j: int) -> Option<int>
    decreases m.len() - j,
{
    if j < 0 || j >= m.len() {
        None
    } else if m[j].0 == k {
        Some(j)
    } else {
        key_index(m, k, j + 1)
    }
}

proof fn lemma_key_index(m: Seq<(Seq<char>, ValueView)>, k: Seq<char>, i: int)
    requires
        0 <= i,
    ensures
        key_index(m, k, i) matches Some(j) ==> i <= j < m.len() && m[j].0 == k,
    decreases m.len() - i,
{
    if i < m.len() && m[i].0 != k {
        lemma_key_index(m, k, i + 1);
    }
}

proof fn lemma_first_match(fields: Seq<TargetField>, part: Seq<char>, i: int)
    requires
        0 <= i,
    ensures
        first_match(fields, part, i) matches Some(j) ==> i <= j < fields.len() && name_matches(
            fields[j].name@,
            fields[j].cardinality,
            part,
        ),
    decreases fields.len() - i,
{
    if i < fields.len() && !name_matches(fields[i].name@, fields[i].cardinality, part) {
        lemma_first_match(fields, part, i + 1);
    }
}

proof fn lemma_first_missing(fields: Seq<TargetField>, slots: Seq<SlotView>, i: int)
    requires
        0 <= i,
    ensures
        first_missing(fields, slots, i) matches Some(j) ==> i <= j < fields.len(),
    decreases fields.len() - i,
{
    if i < fields.len() && !(fields[i].cardinality == Cardinality::Required && slots[i] is Empty) {
        lemma_first_missing(fields, slots, i + 1);
    }
}

/// A keyed collection after `k` is set to `v`: the last write wins.
pub open spec fn put(m: Seq<(Seq<char>, ValueView)>, k: Seq<char>, v: ValueView) -> Seq<
    (Seq<char>, ValueView),
> {
    match key_index(m, k, 0) {
        Some(j) => m.update(j, (k, v)),
        None => m.push((k, v)),
    }
}

pub open spec fn initial_slot(c: Cardinality) -> SlotView {
    match c {
        Cardinality::RepeatedList => SlotView::List(Seq::empty()),
        Cardinality::RepeatedMap => SlotView::Keyed(Seq::empty()),
        _ => SlotView::Empty,
    }
}

/// The record before any part arrived.
pub open spec fn initial_slots(fields: Seq<TargetField>) -> Seq<SlotView> {
    fields.map_values(|f: TargetField| initial_slot(f.cardinality))
}

/// A slot after one more value for it arrived.
pub open spec fn store(
    slot: SlotView,
    field: Seq<char>,
    part: Seq<char>,
    value: ValueView,
    reject_duplicates: bool,
) -> Result<SlotView, ErrorView> {
    match slot {
        SlotView::Empty => Ok(SlotView::Single(value)),
        SlotView::Single(_) => if reject_duplicates {
            Err(ErrorView::DuplicateField(field))
        } else {
            Ok(SlotView::Single(value))
        },
        SlotView::List(l) => Ok(SlotView::List(l.push(value))),
        SlotView::Keyed(m) => Ok(SlotView::Keyed(put(m, part.skip(field.len() as int), value))),
    }
}

/// The record after one more part arrived.
pub open spec fn step(
    fields: Seq<TargetField>,
    slots: Seq<SlotView>,
    part: Seq<char>,
    payload: Seq<u8>,
    policy: AssemblyPolicy,
) -> Result<Seq<SlotView>, ErrorView> {
    match first_match(fields, part, 0) {
        None => if policy.reject_unknown {
            Err(ErrorView::UnknownField(part))
        } else {
            Ok(slots)
        },
        Some(i) => match converted(fields[i].element, payload, part) {
            Ok(v) => match store(slots[i], fields[i].name@, part, v, policy.reject_duplicates) {
                Ok(s) => Ok(slots.update(i, s)),
                Err(e) => Err(e),
            },
            Err(e) => Err(e),
        },
    }
}

/// The record after all of `parts`, in order; the first error stops it.
pub open spec fn collect(fields: Seq<TargetField>, parts: Seq<Part>, policy: AssemblyPolicy) -> Result<
    Seq<SlotView>,
    ErrorView,
>
    decreases parts.len(),
{
    if parts.len() == 0 {
        Ok(initial_slots(fields))
    } else {
        match collect(fields, parts.drop_last(), policy) {
            Ok(s) => step(
                fields,
                s,
                field_name_of(parts.last().name),
                parts.last().payload@,
                policy,
            ),
            Err(e) => Err(e),
        }
    }
}

/// The first required field from index `i` on that holds nothing.
pub open spec fn first_missing(fields: Seq<TargetField>, slots: Seq<SlotView>, i: int) -> Option<int>
    decreases fields.len() - i,
{
    if i < 0 || i >= fields.len() {
        None
    } else if fields[i].cardinality == Cardinality::Required && slots[i] is Empty {
        Some(i)
    } else {
        first_missing(fields, slots, i + 1)
    }
}

/// The finished record, or the first error of the assembly.
pub open spec fn assembled(fields: Seq<TargetField>, parts: Seq<Part>, policy: AssemblyPolicy) -> Result<
    Seq<SlotView>,
    ErrorView,
> {
    match collect(fields, parts, policy) {
        Ok(s) => match first_missing(fields, s, 0) {
            Some(i) => Err(ErrorView::MissingField(fields[i].name@)),
            None => Ok(s),
        },
        Err(e) => Err(e),
    }
}

/// Whether `s` starts with `p`.
pub fn has_prefix(s: &str, p: &str) -> (r: bool)
    ensures
        r == (p@.len() <= s@.len() && s@.subrange(0, p@.len() as int) == p@),
{
    let n = p.unicode_len();
    if n > s.unicode_len() {
        return false;
    }
    let mut i: usize = 0;
    while i < n
        invariant
            n == p@.len() <= s@.len(),
            i <= n,
            forall|k: int| 0 <= k < i ==> s@[k] == p@[k],
        decreases n - i,
    {
        if s.get_char(i) != p.get_char(i) {
            assert(s@.subrange(0, n as int)[i as int] != p@[i as int]);
            return false;
        }
        i = i + 1;
    }
    assert(s@.subrange(0, n as int) =~= p@);
    true
}

/// Whether a part named `part` belongs to `field`.
pub fn field_matches(field: &TargetField, part: &String) -> (r: bool)
    ensures
        r == name_matches(field.name@, field.cardinality, part@),
{
    match field.cardinality {
        Cardinality::RepeatedMap => has_prefix(part.as_str(), field.name.as_str()),
        _ => *part == field.name,
    }
}

/// The first declared field that a part named `part` belongs to.
pub fn find_field(fields: &Vec<TargetField>, part: &String) -> (r: Option<usize>)
    ensures
        match r {
            Some(i) => first_match(fields@, part@, 0) == Some(i as int),
            None => first_match(fields@, part@, 0) is None,
        },
{
    let mut i: usize = 0;
    while i < fields.len()
        invariant
            i <= fields@.len(),
            first_match(fields@, part@, 0) == first_match(fields@, part@, i as int),
        decreases fields@.len() - i,
    {
        if field_matches(&fields[i], part) {
            return Some(i);
        }
        i = i + 1;
    }
    None
}

/// The first entry with key `k`.
fn find_key(m: &Vec<(String, Value)>, k: &String) -> (r: Option<usize>)
    ensures
        match r {
            Some(j) => key_index(entries_view(m@), k@, 0) == Some(j as int),
            None => key_index(entries_view(m@), k@, 0) is None,
        },
{
    let mut j: usize = 0;
    while j < m.len()
        invariant
            j <= m@.len(),
            key_index(entries_view(m@), k@, 0) == key_index(entries_view(m@), k@, j as int),
        decreases m@.len() - j,
    {
        if m[j].0 == *k {
            return Some(j);
        }
        j = j + 1;
    }
    None
}

/// Sets key `k` to `v`, replacing an earlier value under the same key.
fn put_entry(m: &mut Vec<(String, Value)>, k: String, v: Value)
    ensures
        entries_view(final(m)@) == put(entries_view(old(m)@), k@, v@),
{
    match find_key(m, &k) {
        Some(j) => {
            proof {
                lemma_key_index(entries_view(m@), k@, 0);
            }
            m.set(j, (k, v));
            assert(entries_view(m@) =~= put(entries_view(old(m)@), k@, v@));
        },
        None => {
            m.push((k, v));
            assert(entries_view(m@) =~= put(entries_view(old(m)@), k@, v@));
        },
    }
}

/// A slot after one more value for it arrived.
fn store_part(
    slot: Slot,
    field: &String,
    part: &String,
    value: Value,
    reject_duplicates: bool,
) -> (r: Result<Slot, TypedMultipartError>)
    requires
        field@.len() <= part@.len(),
    ensures
        match r {
            Ok(s) => store(slot@, field@, part@, value@, reject_duplicates) == Ok::<
                SlotView,
                ErrorView,
            >(s@),
            Err(e) => store(slot@, field@, part@, value@, reject_duplicates) == Err::<
                SlotView,
                ErrorView,
            >(e@),
        },
{
    match slot {
        Slot::Empty => Ok(Slot::Single(value)),
        Slot::Single(_) => if reject_duplicates {
            Err(TypedMultipartError::DuplicateField { field_name: field.clone() })
        } else {
            Ok(Slot::Single(value))
        },
        Slot::List(l) => {
            let mut l = l;
            let ghost before = l@;
            l.push(value);
            assert(l@.map_values(|c: Value| c@) =~= before.map_values(|c: Value| c@).push(
                value@,
            ));
            Ok(Slot::List(l))
        },
        Slot::Keyed(m) => {
            let mut m = m;
            let key = String::from_str(
                part.as_str().substring_char(field.as_str().unicode_len(), part.as_str().unicode_len()),
            );
            assert(key@ =~= part@.skip(field@.len() as int));
            put_entry(&mut m, key, value);
            Ok(Slot::Keyed(m))
        },
    }
}

fn initial_slot_of(c: Cardinality) -> (r: Slot)
    ensures
        r@ == initial_slot(c),
{
    match c {
        Cardinality::RepeatedList => {
            let l: Vec<Value> = Vec::new();
            assert(l@.map_values(|c: Value| c@) =~= Seq::<ValueView>::empty());
            Slot::List(l)
        },
        Cardinality::RepeatedMap => {
            let m: Vec<(String, Value)> = Vec::new();
            assert(entries_view(m@) =~= Seq::<(Seq<char>, ValueView)>::empty());
            Slot::Keyed(m)
        },
        _ => Slot::Empty,
    }
}

proof fn lemma_collect_stops(
    fields: Seq<TargetField>,
    parts: Seq<Part>,
    k: int,
    policy: AssemblyPolicy,
)
    requires
        0 <= k <= parts.len(),
        collect(fields, parts.subrange(0, k), policy) is Err,
    ensures
        collect(fields, parts, policy) == collect(fields, parts.subrange(0, k), policy),
    decreases parts.len(),
{
    if k == parts.len() {
        assert(parts.subrange(0, k) =~= parts);
    } else {
        assert(parts.drop_last().subrange(0, k) =~= parts.subrange(0, k));
        lemma_collect_stops(fields, parts.drop_last(), k, policy);
    }
}

/// The list payloads of `parts`, converted, in arrival order.
pub open spec fn list_values(kind: ElementKind, parts: Seq<Part>) -> Seq<ValueView> {
    parts.map_values(|p: Part| converted_value(kind, p.payload@, field_name_of(p.name)))
}

/// Parts that all name the list field of a record with a required field and
/// a list field, each converting without error.
pub open spec fn list_parts(fields: Seq<TargetField>, parts: Seq<Part>) -> bool {
    forall|k: int|
        0 <= k < parts.len() ==> field_name_of(#[trigger] parts[k].name) == fields[1].name@
            && converted(fields[1].element, parts[k].payload@, field_name_of(parts[k].name)) is Ok
}

/// The shape of a record with one required field and one list field.
pub open spec fn required_and_list(fields: Seq<TargetField>) -> bool {
    fields.len() == 2 && fields[0].cardinality == Cardinality::Required && fields[1].cardinality
        == Cardinality::RepeatedList && fields[0].name@ != fields[1].name@
}

/// After any earlier parts, parts that all name the list field append their
/// converted values to the list, in arrival order, and change nothing else.
pub proof fn lemma_list_appends(
    fields: Seq<TargetField>,
    pre: Seq<Part>,
    parts: Seq<Part>,
    policy: AssemblyPolicy,
    s0: Seq<SlotView>,
    l0: Seq<ValueView>,
)
    requires
        required_and_list(fields),
        list_parts(fields, parts),
        collect(fields, pre, policy) == Ok::<Seq<SlotView>, ErrorView>(s0),
        s0.len() == 2,
        s0[1] == SlotView::List(l0),
    ensures
        collect(fields, pre + parts, policy) == Ok::<Seq<SlotView>, ErrorView>(
            s0.update(1, SlotView::List(l0 + list_values(fields[1].element, parts))),
        ),
    decreases parts.len(),
{
    let kind = fields[1].element;
    if parts.len() == 0 {
        assert(pre + parts =~= pre);
        assert(l0 + list_values(kind, parts) =~= l0);
        assert(s0.update(1, SlotView::List(l0)) =~= s0);
    } else {
        let rest = parts.drop_last();
        let last = parts.last();
        assert(list_parts(fields, rest)) by {
            assert forall|k: int| 0 <= k < rest.len() implies field_name_of(
                #[trigger] rest[k].name,
            ) == fields[1].name@ && converted(
                kind,
                rest[k].payload@,
                field_name_of(rest[k].name),
            ) is Ok by {
                assert(rest[k] == parts[k]);
            }
        }
        lemma_list_appends(fields, pre, rest, policy, s0, l0);
        assert((pre + parts).drop_last() =~= pre + rest);
        assert((pre + parts).last() == last);
        assert(field_name_of(parts[parts.len() - 1].name) == fields[1].name@);
        assert(first_match(fields, fields[1].name@, 1) == Some(1int));
        assert(first_match(fields, fields[1].name@, 0) == Some(1int));
        assert(converted(kind, last.payload@, field_name_of(last.name)) is Ok);
        assert(list_values(kind, parts) =~= list_values(kind, rest).push(
            converted_value(kind, last.payload@, field_name_of(last.name)),
        ));
        assert(s0.update(1, SlotView::List(l0 + list_values(kind, rest))).update(
            1,
            SlotView::List(
                (l0 + list_values(kind, rest)).push(
                    converted_value(kind, last.payload@, field_name_of(last.name)),
                ),
            ),
        ) =~= s0.update(1, SlotView::List(l0 + list_values(kind, parts))));
    }
}

/// A record with a required field and a list field, given parts that all
/// name the list field: the list holds their converted values in arrival
/// order (none, two, or any number), and the assembly fails with a
/// missing-field error naming the required field.
pub proof fn lemma_required_and_list(
    fields: Seq<TargetField>,
    parts: Seq<Part>,
    policy: AssemblyPolicy,
)
    requires
        required_and_list(fields),
        list_parts(fields, parts),
    ensures
        collect(fields, parts, policy) == Ok::<Seq<SlotView>, ErrorView>(
            seq![SlotView::Empty, SlotView::List(list_values(fields[1].element, parts))],
        ),
        assembled(fields, parts, policy) == Err::<Seq<SlotView>, ErrorView>(
            ErrorView::MissingField(fields[0].name@),
        ),
{
    let e = Seq::<Part>::empty();
    let s0 = seq![SlotView::Empty, SlotView::List(Seq::empty())];
    assert(initial_slots(fields) =~= s0);
    lemma_list_appends(fields, e, parts, policy, s0, Seq::empty());
    assert(e + parts =~= parts);
    assert(Seq::<ValueView>::empty() + list_values(fields[1].element, parts) =~= list_values(
        fields[1].element,
        parts,
    ));
    let s = seq![SlotView::Empty, SlotView::List(list_values(fields[1].element, parts))];
    assert(s0.update(1, SlotView::List(list_values(fields[1].element, parts))) =~= s);
    assert(first_missing(fields, s, 0) == Some(0int));
}

/// A record with a required field and a list field, given first a part for
/// the required field and then parts that all name the list field: the
/// record is complete, holds the required value, and the list holds the
/// converted values in arrival order.
pub proof fn lemma_required_then_list(
    fields: Seq<TargetField>,
    first: Part,
    parts: Seq<Part>,
    policy: AssemblyPolicy,
)
    requires
        required_and_list(fields),
        field_name_of(first.name) == fields[0].name@,
        converted(fields[0].element, first.payload@, field_name_of(first.name)) is Ok,
        list_parts(fields, parts),
    ensures
        assembled(fields, seq![first] + parts, policy) == Ok::<Seq<SlotView>, ErrorView>(
            seq![
                SlotView::Single(converted_value(fields[0].element, first.payload@, fields[0].name@)),
                SlotView::List(list_values(fields[1].element, parts)),
            ],
        ),
{
    let v = converted_value(fields[0].element, first.payload@, fields[0].name@);
    let pre = seq![first];
    assert(pre.drop_last() =~= Seq::<Part>::empty());
    assert(initial_slots(fields) =~= seq![SlotView::Empty, SlotView::List(Seq::empty())]);
    assert(first_match(fields, fields[0].name@, 0) == Some(0int));
    let s0 = seq![SlotView::Single(v), SlotView::List(Seq::<ValueView>::empty())];
    assert(seq![SlotView::Empty, SlotView::List(Seq::<ValueView>::empty())].update(
        0,
        SlotView::Single(v),
    ) =~= s0);
    assert(collect(fields, Seq::<Part>::empty(), policy) == Ok::<Seq<SlotView>, ErrorView>(
        initial_slots(fields),
    ));
    assert(pre.last() == first);
    assert(converted(fields[0].element, first.payload@, field_name_of(first.name)) == Ok::<
        ValueView,
        ErrorView,
    >(v));
    assert(collect(fields, pre, policy) == Ok::<Seq<SlotView>, ErrorView>(s0));
    lemma_list_appends(fields, pre, parts, policy, s0, Seq::empty());
    assert(Seq::<ValueView>::empty() + list_values(fields[1].element, parts) =~= list_values(
        fields[1].element,
        parts,
    ));
    let s = seq![SlotView::Single(v), SlotView::List(list_values(fields[1].element, parts))];
    assert(s0.update(1, SlotView::List(list_values(fields[1].element, parts))) =~= s);
    assert(first_missing(fields, s, 2) == None::<int>);
    assert(first_missing(fields, s, 1) == None::<int>);
    assert(first_missing(fields, s, 0) == None::<int>);
}

/// No key appears twice in a keyed slot.
pub open spec fn keys_unique(m: Seq<(Seq<char>, ValueView)>) -> bool {
    forall|i: int, j: int| 0 <= i < j < m.len() ==> #[trigger] m[i].0 != #[trigger] m[j].0
}

proof fn lemma_key_index_none(m: Seq<(Seq<char>, ValueView)>, k: Seq<char>, i: int)
    requires
        0 <= i,
        key_index(m, k, i) is None,
    ensures
        forall|j: int| i <= j < m.len() ==> #[trigger] m[j].0 != k,
    decreases m.len() - i,
{
    if i < m.len() {
        lemma_key_index_none(m, k, i + 1);
    }
}

/// Setting a key keeps the keys of a keyed slot unique, and the slot then
/// holds the key with the new value.
pub proof fn lemma_put_keeps_keys_unique(m: Seq<(Seq<char>, ValueView)>, k: Seq<char>, v: ValueView)
    requires
        keys_unique(m),
    ensures
        keys_unique(put(m, k, v)),
        exists|j: int| 0 <= j < put(m, k, v).len() && #[trigger] put(m, k, v)[j] == (k, v),
{
    lemma_key_index(m, k, 0);
    match key_index(m, k, 0) {
        Some(j) => {
            let p = m.update(j, (k, v));
            assert(p[j] == (k, v));
            assert forall|a: int, b: int| 0 <= a < b < p.len() implies #[trigger] p[a].0
                != #[trigger] p[b].0 by {
                assert(p[a].0 == m[a].0);
                assert(p[b].0 == m[b].0);
            }
        },
        None => {
            lemma_key_index_none(m, k, 0);
            let p = m.push((k, v));
            assert(p[m.len() as int] == (k, v));
            assert forall|a: int, b: int| 0 <= a < b < p.len() implies #[trigger] p[a].0
                != #[trigger] p[b].0 by {
                if b < m.len() {
                    assert(p[a] == m[a] && p[b] == m[b]);
                } else {
                    assert(p[a] == m[a]);
                }
            }
        },
    }
}

/// The first required field that holds nothing.
fn find_missing(fields: &Vec<TargetField>, slots: &Vec<Slot>) -> (r: Option<usize>)
    requires
        slots@.len() == fields@.len(),
    ensures
        match r {
            Some(i) => first_missing(fields@, slots_view(slots@), 0) == Some(i as int),
            None => first_missing(fields@, slots_view(slots@), 0) is None,
        },
{
    let mut i: usize = 0;
    while i < fields.len()
        invariant
            i <= fields@.len() == slots@.len(),
            first_missing(fields@, slots_view(slots@), 0) == first_missing(
                fields@,
                slots_view(slots@),
                i as int,
            ),
        decreases fields@.len() - i,
    {
        if fields[i].cardinality == Cardinality::Required {
            match &slots[i] {
                Slot::Empty => {
                    return Some(i);
                },
                _ => {},
            }
        }
        i = i + 1;
    }
    None
}

/// Builds a record of the declared `fields` from `parts`, taken once in
/// arrival order: each part goes to the first field it belongs to, single
/// slots keep one value, lists append, keyed slots keep the last value per key.
/// The first error stops the assembly; a required field left empty at the end
/// is a missing-field error naming it.
pub fn assemble(fields: &Vec<TargetField>, parts: &Vec<Part>, policy: AssemblyPolicy) -> (r: Result<
    Vec<Slot>,
    TypedMultipartError,
>)
    ensures
        match r {
            Ok(s) => assembled(fields@, parts@, policy) == Ok::<Seq<SlotView>, ErrorView>(
                slots_view(s@),
            ),
            Err(e) => assembled(fields@, parts@, policy) == Err::<Seq<SlotView>, ErrorView>(e@),
        },
{
    let mut slots: Vec<Slot> = Vec::new();
    let mut i: usize = 0;
    while i < fields.len()
        invariant
            i <= fields@.len(),
            slots_view(slots@) == initial_slots(fields@.subrange(0, i as int)),
        decreases fields@.len() - i,
    {
        let ghost prev = slots@;
        let c = fields[i].cardinality;
        slots.push(initial_slot_of(c));
        assert(slots_view(slots@) =~= slots_view(prev).push(initial_slot(c)));
        assert(initial_slots(fields@.subrange(0, i + 1)) =~= initial_slots(
            fields@.subrange(0, i as int),
        ).push(initial_slot(c)));
        i = i + 1;
    }
    assert(fields@.subrange(0, i as int) =~= fields@);
    assert(parts@.subrange(0, 0) =~= Seq::<Part>::empty());
    let mut k: usize = 0;
    while k < parts.len()
        invariant
            k <= parts@.len(),
            slots@.len() == fields@.len(),
            collect(fields@, parts@.subrange(0, k as int), policy) == Ok::<Seq<SlotView>, ErrorView>(
                slots_view(slots@),
            ),
        decreases parts@.len() - k,
    {
        let part = &parts[k];
        let name = get_field_name(&part.name);
        let ghost before = slots_view(slots@);
        assert(parts@.subrange(0, k + 1).drop_last() =~= parts@.subrange(0, k as int));
        assert(parts@.subrange(0, k + 1).last() == parts@[k as int]);
        match find_field(fields, &name) {
            None => {
                if policy.reject_unknown {
                    proof {
                        lemma_collect_stops(fields@, parts@, k + 1, policy);
                    }
                    return Err(TypedMultipartError::UnknownField { field_name: name });
                }
            },
            Some(j) => {
                proof {
                    lemma_first_match(fields@, name@, 0);
                }
                let value = match convert_payload(fields[j].element, &part.payload, &part.name) {
                    Ok(v) => v,
                    Err(e) => {
                        proof {
                            lemma_collect_stops(fields@, parts@, k + 1, policy);
                        }
                        return Err(e);
                    },
                };
                let slot = slots.remove(j);
                match store_part(slot, &fields[j].name, &name, value, policy.reject_duplicates) {
                    Ok(s) => {
                        slots.insert(j, s);
                        assert(slots_view(slots@) =~= before.update(j as int, s@));
                    },
                    Err(e) => {
                        proof {
                            lemma_collect_stops(fields@, parts@, k + 1, policy);
                        }
                        return Err(e);
                    },
                }
            },
        }
        k = k + 1;
    }
    assert(parts@.subrange(0, k as int) =~= parts@);
    match find_missing(fields, &slots) {
        Some(j) => {
            proof {
                lemma_first_missing(fields@, slots_view(slots@), 0);
            }
            Err(TypedMultipartError::MissingField { field_name: fields[j].name.clone() })
        },
        None => Ok(slots),
    }
}

} // verus!
