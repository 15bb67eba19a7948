//! What can go wrong in an operation.
use vstd::prelude::*;

verus! {

/// A required or validated field of a listing document.
#[derive(Clone, Copy, Debug, PartialEq, Eq, Structural)]
pub enum Field {
    Buckets,
    Name,
    Key,
    MaxKeys,
    IsTruncated,
}

/// The element name of a field.
pub open spec fn field_text(f: Field) -> Seq<char> {
    match f {
        Field::Buckets => "Buckets"@,
        Field::Name => "Name"@,
        Field::Key => "Key"@,
        Field::MaxKeys => "MaxKeys"@,
        Field::IsTruncated => "IsTruncated"@,
    }
}

impl Field {
    /// The element name of the field.
    pub fn name(&self) -> (r: &'static str)
        ensures
            r@ == field_text(*self),
    {
        match self {
            Field::Buckets => "Buckets",
            Field::Name => "Name",
            Field::Key => "Key",
            Field::MaxKeys => "MaxKeys",
            Field::IsTruncated => "IsTruncated",
        }
    }
}

/// The first failure of an operation, surfaced unchanged.
#[derive(Clone, Debug, PartialEq, Eq)]
pub enum Error {
    /// The credentials could not be obtained.
    Credentials(String),
    /// The transport failed to deliver the request or its reply.
    Transport(String),
    /// The service answered with a status other than 200.
    HttpStatus(u32),
    /// The body is not UTF-8 where text is required.
    InvalidEncoding,
    /// The body is not well-formed XML.
    MarkupParse { line: u32, column: u32, message: String },
    /// A required element is absent.
    RequiredFieldMissing(Field),
    /// An element is present but its text is not of the declared type.
    FieldInvalid(Field),
}

} // verus!
