use vstd::prelude::*;
use crate::record::Part;

verus! {

/// The descriptive attributes of one part, copied out before its payload is read.
pub struct FieldMetadata {
    pub name: Option<String>,
    pub file_name: Option<String>,
    pub content_type: Option<String>,
}

/// The name used when a part carries none.
pub open spec fn unknown_name() -> Seq<char> {
    "<unknown>"@
}

/// The field name reported for a part: its own, or the placeholder.
pub open spec fn field_name_of(name: Option<String>) -> Seq<char> {
    match name {
        Some(n) => n@,
        None => unknown_name(),
    }
}

/// The field name to report in errors; never fails.
pub fn get_field_name(name: &Option<String>) -> (r: String)
    ensures
        r@ == field_name_of(*name),
{
    match name {
        Some(n) => n.clone(),
        None => String::from_str("<unknown>"),
    }
}

/// A copy of an optional text.
pub fn copy_text(o: &Option<String>) -> (r: Option<String>)
    ensures
        r == *o,
{
    match o {
        Some(n) => Some(n.clone()),
        None => None,
    }
}

impl FieldMetadata {
    /// The metadata of a part, read before its payload is consumed.
    pub fn from_part(part: &Part) -> (r: FieldMetadata)
        ensures
            r.name == part.name,
            r.file_name == part.file_name,
            r.content_type == part.content_type,
    {
        FieldMetadata {
            name: copy_text(&part.name),
            file_name: copy_text(&part.file_name),
            content_type: copy_text(&part.content_type),
        }
    }

    /// Metadata of a part that carries only a name.
    pub fn named(name: String) -> (r: FieldMetadata)
        ensures
            r.name == Some(name),
            r.file_name is None,
            r.content_type is None,
    {
        FieldMetadata { name: Some(name), file_name: None, content_type: None }
    }

    /// The field name to report in errors.
    pub fn field_name(&self) -> (r: String)
        ensures
            r@ == field_name_of(self.name),
    {
        get_field_name(&self.name)
    }
}

/// A converted value together with the metadata of the part it came from.
pub struct FieldData<T> {
    pub metadata: FieldMetadata,
    pub contents: T,
}

impl<T> FieldData<T> {
    /// Attaches the part's metadata to its converted contents.
    pub fn new(metadata: FieldMetadata, contents: T) -> (r: FieldData<T>)
        ensures
            r.metadata == metadata,
            r.contents == contents,
    {
        FieldData { metadata, contents }
    }
}

} // verus!
