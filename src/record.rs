use vstd::prelude::*;
use crate::encode::push_digits;
use crate::format::decimal_digits;

verus! {

/// The one entity the store keeps: a name and a signed 32-bit value.
#[derive(Debug)]
pub struct Record {
    pub name: String,
    pub value: i32,
}

impl Record {
    pub fn new(name: String, value: i32) -> (r: Record)
        ensures
            r.name@ == name@,
            r.value == value,
    {
        Record { name, value }
    }
}

/// What was wrong with text that does not hold a record.
#[derive(Debug, PartialEq, Eq)]
pub enum DecodeKind {
    /// The text does not start with a JSON object.
    NotAnObject,
    /// A member of the object is not a string key, a colon and a value of
    /// the right kind (a string for `name`, a 32-bit integer for `value`).
    BadMember,
    /// A second `name` member.
    RepeatedName,
    /// A second `value` member.
    RepeatedValue,
    /// After a member, neither a comma nor the closing brace.
    ExpectedCommaOrEnd,
    /// Text other than whitespace after the object.
    TrailingText,
    /// The object has no `name` member.
    MissingName,
    /// The object has no `value` member.
    MissingValue,
}

/// Why text does not hold a record: what was wrong, and the index of the
/// character where it was found.
#[derive(Debug)]
pub struct DecodeError {
    pub kind: DecodeKind,
    pub at: usize,
}

/// Why a save or a load failed.
///
/// `Io` carries the description of the filesystem failure as the caller
/// reported it; `Decode` says why the text read is not a record.
#[derive(Debug)]
pub enum StoreError {
    Io(String),
    Decode(DecodeError),
}

pub open spec fn kind_text(k: DecodeKind) -> Seq<char> {
    match k {
        DecodeKind::NotAnObject => "expected a JSON object"@,
        DecodeKind::BadMember => "expected a member: \"name\" with a string, \"value\" with a 32-bit integer, or another key with a JSON value"@,
        DecodeKind::RepeatedName => "the member \"name\" is repeated"@,
        DecodeKind::RepeatedValue => "the member \"value\" is repeated"@,
        DecodeKind::ExpectedCommaOrEnd => "expected ',' or '}'"@,
        DecodeKind::TrailingText => "unexpected text after the object"@,
        DecodeKind::MissingName => "the member \"name\" is missing"@,
        DecodeKind::MissingValue => "the member \"value\" is missing"@,
    }
}

/// The message given for text that does not hold a record.
pub open spec fn decode_message(e: DecodeError) -> Seq<char> {
    "the text is not a record: "@ + kind_text(e.kind) + " at character "@ + decimal_digits(
        e.at as nat,
    )
}

fn kind_str(k: &DecodeKind) -> (r: &'static str)
    ensures
        r@ == kind_text(*k),
{
    match k {
        DecodeKind::NotAnObject => "expected a JSON object",
        DecodeKind::BadMember => "expected a member: \"name\" with a string, \"value\" with a 32-bit integer, or another key with a JSON value",
        DecodeKind::RepeatedName => "the member \"name\" is repeated",
        DecodeKind::RepeatedValue => "the member \"value\" is repeated",
        DecodeKind::ExpectedCommaOrEnd => "expected ',' or '}'",
        DecodeKind::TrailingText => "unexpected text after the object",
        DecodeKind::MissingName => "the member \"name\" is missing",
        DecodeKind::MissingValue => "the member \"value\" is missing",
    }
}

impl StoreError {
    pub fn is_io(&self) -> (r: bool)
        ensures
            r == (self is Io),
    {
        match self {
            StoreError::Io(_) => true,
            StoreError::Decode(_) => false,
        }
    }

    pub fn is_decode(&self) -> (r: bool)
        ensures
            r == (self is Decode),
    {
        match self {
            StoreError::Io(_) => false,
            StoreError::Decode(_) => true,
        }
    }

    /// The single human-readable line that callers see at the boundary.
    pub fn message(&self) -> (r: String)
        ensures
            self matches StoreError::Io(m) ==> r@ == m@,
            self matches StoreError::Decode(e) ==> r@ == decode_message(*e),
    {
        match self {
            StoreError::Io(m) => m.clone(),
            StoreError::Decode(e) => {
                let mut s = String::from_str("the text is not a record: ");
                s.append(kind_str(&e.kind));
                s.append(" at character ");
                push_digits(&mut s, e.at as u64);
                s
            },
        }
    }
}

} // verus!
