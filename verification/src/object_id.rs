//! Identifiers of object files.

use vstd::prelude::*;

use crate::types::{clone_text, RawObjectInfo, RawObjectModel};

verus! {

/// The identifier of a code file, in lower-case hexadecimal digits.
#[derive(Clone, Debug, PartialEq)]
pub struct CodeId(pub String);

impl DeepView for CodeId {
    type V = Seq<char>;

    open spec fn deep_view(&self) -> Seq<char> {
        self.0@
    }
}

/// The identifier of a debug file, in its canonical form.
#[derive(Clone, Debug, PartialEq)]
pub struct DebugId(pub String);

impl DeepView for DebugId {
    type V = Seq<char>;

    open spec fn deep_view(&self) -> Seq<char> {
        self.0@
    }
}

/// What an object file is searched by.
#[derive(Clone, Debug, PartialEq)]
pub struct ObjectId {
    /// The identifier of the code file.
    pub code_id: Option<CodeId>,
    /// The name of the code file.
    pub code_file: Option<String>,
    /// The identifier of the debug file.
    pub debug_id: Option<DebugId>,
    /// The name of the debug file.
    pub debug_file: Option<String>,
}

/// The model of an [`ObjectId`].
pub struct ObjectIdModel {
    pub code_id: Option<Seq<char>>,
    pub code_file: Option<Seq<char>>,
    pub debug_id: Option<Seq<char>>,
    pub debug_file: Option<Seq<char>>,
}

impl DeepView for ObjectId {
    type V = ObjectIdModel;

    open spec fn deep_view(&self) -> ObjectIdModel {
        ObjectIdModel {
            code_id: self.code_id.deep_view(),
            code_file: self.code_file.deep_view(),
            debug_id: self.debug_id.deep_view(),
            debug_file: self.debug_file.deep_view(),
        }
    }
}

/// Whether a character is a hexadecimal digit.
pub open spec fn is_hex_digit(c: char) -> bool {
    ('0' <= c && c <= '9') || ('a' <= c && c <= 'f') || ('A' <= c && c <= 'F')
}

/// A hexadecimal digit in lower case.
pub open spec fn lower_hex_digit(c: char) -> char {
    if 'A' <= c && c <= 'F' {
        (c as u32 + 32) as char
    } else {
        c
    }
}

/// The hexadecimal digits of a text, in lower case.
pub open spec fn hex_digits_of(text: Seq<char>) -> Seq<char> {
    text.filter(|c: char| is_hex_digit(c)).map_values(|c: char| lower_hex_digit(c))
}

/// The digit for a number below sixteen.
pub open spec fn hex_digit(n: int) -> char {
    if n < 10 {
        (n + '0' as u32) as char
    } else {
        (n - 10 + 'a' as u32) as char
    }
}

/// Bytes in hexadecimal digits, two for each byte.
pub open spec fn hex_text(bytes: Seq<u8>) -> Seq<char> {
    Seq::new(
        2 * bytes.len(),
        |i: int|
            hex_digit(
                if i % 2 == 0 {
                    bytes[i / 2] as int / 16
                } else {
                    bytes[i / 2] as int % 16
                },
            ),
    )
}

/// The digits of a UUID in five groups.
pub open spec fn hyphenated(digits: Seq<char>) -> Seq<char> {
    digits.subrange(0, 8) + seq!['-'] + digits.subrange(8, 12) + seq!['-'] + digits.subrange(12, 16)
        + seq!['-'] + digits.subrange(16, 20) + seq!['-'] + digits.subrange(20, 32)
}

/// Calls `<symbolic::common::CodeId as FromStr>::from_str`. Claims that it accepts every text, and
/// keeps its hexadecimal digits in lower case.
#[verifier::external_body]
pub(crate) fn parse_code_id(text: &str) -> (r: Option<String>)
    ensures
        r.deep_view() == Some(hex_digits_of(text@)),
{
    text.parse::<symbolic::common::CodeId>().ok().map(|id| id.as_str().to_owned())
}

/// The canonical form of a debug identifier, as `symbolic::common::DebugId` parses and prints it.
/// None where the text is no debug identifier.
pub uninterp spec fn canonical_debug_id(text: Seq<char>) -> Option<Seq<char>>;

/// Calls `<symbolic::common::DebugId as FromStr>::from_str` and prints the identifier. Claims that
/// the canonical form depends on the text alone.
#[verifier::external_body]
pub(crate) fn parse_debug_id(text: &str) -> (r: Option<String>)
    ensures
        r.deep_view() == canonical_debug_id(text@),
{
    text.parse::<symbolic::common::DebugId>().ok().map(|id| id.to_string())
}

/// Calls `symbolic::common::CodeId::from_binary`. Claims that the identifier has two hexadecimal
/// digits in lower case for each byte.
#[verifier::external_body]
pub(crate) fn code_id_from_binary(bytes: &[u8]) -> (r: String)
    ensures
        r@ == hex_text(bytes@),
{
    symbolic::common::CodeId::from_binary(bytes).to_string()
}

/// Calls `symbolic::common::DebugId::from_uuid`. Claims that the identifier is the UUID in five
/// groups of hexadecimal digits in lower case.
#[verifier::external_body]
pub(crate) fn debug_id_from_uuid(bytes: [u8; 16]) -> (r: String)
    ensures
        r@ == hyphenated(hex_text(bytes@)),
{
    symbolic::common::DebugId::from_uuid(symbolic::common::Uuid::from_bytes(bytes)).to_string()
}

/// What the object file of an image is searched by. An identifier that cannot be read is left out.
pub open spec fn object_id(raw: RawObjectModel) -> ObjectIdModel {
    ObjectIdModel {
        code_id: match raw.code_id {
            Some(text) => Some(hex_digits_of(text)),
            None => None,
        },
        code_file: raw.code_file,
        debug_id: match raw.debug_id {
            Some(text) => canonical_debug_id(text),
            None => None,
        },
        debug_file: raw.debug_file,
    }
}

/// What the object file of an image is searched by. An identifier that cannot be read is left out.
pub fn object_id_from_object_info(object_info: &RawObjectInfo) -> (r: ObjectId)
    ensures
        r.deep_view() == object_id(object_info.deep_view()),
{
    let debug_id: Option<DebugId> = match &object_info.debug_id {
        Some(text) => match parse_debug_id(text.as_str()) {
            Some(id) => Some(DebugId(id)),
            None => None,
        },
        None => None,
    };
    let code_id: Option<CodeId> = match &object_info.code_id {
        Some(text) => match parse_code_id(text.as_str()) {
            Some(id) => Some(CodeId(id)),
            None => None,
        },
        None => None,
    };
    ObjectId {
        code_id,
        code_file: clone_text(&object_info.code_file),
        debug_id,
        debug_file: clone_text(&object_info.debug_file),
    }
}

} // verus!
