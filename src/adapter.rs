//! The identifier's parse and render operations in the shapes that schema and
//! transport frameworks ask for: JSON values, bare parameters, header values.
use vstd::prelude::*;
use vstd::string::StringSliceAdditionalSpecFns;
use vstd::utf8::encode_utf8;
use crate::hex_text::{decode_spec, hex_text, HexError};
use crate::id::Id;

verus! {

/// The shape of a JSON value, with the text of a string node.
#[derive(Clone, Debug, PartialEq, Eq)]
pub enum JsonValue {
    Null,
    Bool(bool),
    Number,
    String(String),
    Array,
    Object,
}

/// Why a framework input was refused.
#[derive(Clone, Copy, Debug, PartialEq, Eq)]
pub enum ParseError {
    /// No input was given.
    ExpectedInput,
    /// The input has a shape other than a string.
    ExpectedType,
    /// The text is no valid hex text of an identifier.
    Hex(HexError),
}

/// What parsing the text `t` gives, in the adapters' error vocabulary.
pub open spec fn parse_text_spec(t: Seq<char>) -> Result<Seq<u8>, ParseError> {
    match decode_spec(encode_utf8(t), 16) {
        Ok(b) => Ok(b),
        Err(e) => Err(ParseError::Hex(e)),
    }
}

/// Whether `r` is the outcome `o` for an identifier.
pub open spec fn outcome_is(r: Result<Id, ParseError>, o: Result<Seq<u8>, ParseError>) -> bool {
    match o {
        Ok(b) => r matches Ok(id) && id@ == b,
        Err(e) => r matches Err(f) && f == e,
    }
}

/// The name that schema documents give the identifier type.
pub fn schema_name() -> (r: &'static str)
    ensures
        r@ == "string(hex)"@,
{
    "string(hex)"
}

/// The schema type and format of the identifier's text form.
pub fn schema_format() -> (r: (&'static str, &'static str))
    ensures
        r.0@ == "string"@,
        r.1@ == "hex"@,
{
    ("string", "hex")
}

impl Id {
    /// Parses a bare textual parameter, such as a path or query segment.
    pub fn parse_from_parameter(value: &str) -> (r: Result<Id, ParseError>)
        ensures
            outcome_is(r, parse_text_spec(value@)),
    {
        match Id::from_hex(value) {
            Ok(id) => Ok(id),
            Err(e) => Err(ParseError::Hex(e)),
        }
    }

    /// Parses the text of a form field: an absent field is missing input,
    /// and present text must be hex text.
    pub fn parse_from_field(text: Option<&str>) -> (r: Result<Id, ParseError>)
        ensures
            match text {
                None => r == Err::<Id, ParseError>(ParseError::ExpectedInput),
                Some(t) => outcome_is(r, parse_text_spec(t@)),
            },
    {
        match text {
            None => Err(ParseError::ExpectedInput),
            Some(t) => Id::parse_from_parameter(t),
        }
    }

    /// Parses a JSON value: absent and `null` are missing input, any shape
    /// other than a string is refused, and a string must be hex text.
    pub fn parse_from_json(value: Option<JsonValue>) -> (r: Result<Id, ParseError>)
        ensures
            match value {
                None | Some(JsonValue::Null) => r == Err::<Id, ParseError>(ParseError::ExpectedInput),
                Some(JsonValue::String(s)) => outcome_is(r, parse_text_spec(s@)),
                Some(_) => r == Err::<Id, ParseError>(ParseError::ExpectedType),
            },
    {
        match value {
            None => Err(ParseError::ExpectedInput),
            Some(JsonValue::Null) => Err(ParseError::ExpectedInput),
            Some(JsonValue::String(s)) => Id::parse_from_parameter(s.as_str()),
            Some(_) => Err(ParseError::ExpectedType),
        }
    }

    /// The JSON value of the identifier: a string node with its hex text.
    pub fn to_json(&self) -> (r: JsonValue)
        ensures
            r matches JsonValue::String(s) && s@ == hex_text(self@),
    {
        JsonValue::String(self.hex_encode())
    }

    /// The text of a transport header that carries the identifier.
    pub fn to_header(&self) -> (r: String)
        ensures
            r@ == hex_text(self@),
    {
        self.hex_encode()
    }
}

} // verus!
