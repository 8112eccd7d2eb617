use vstd::prelude::*;

verus! {

/// The closed set of serialization formats used at the contract boundary,
/// both for decoding input arguments and for encoding the return value.
#[derive(Clone, Copy, Debug, PartialEq, Eq, Structural)]
pub enum SerializerType {
    JSON,
    Borsh,
}

/// What a serializer directive's raw token payload denotes: the payloads
/// `(json)` and `(borsh)` select a format, anything else is malformed.
pub open spec fn spec_parse_serializer(tokens: Seq<char>) -> Option<SerializerType> {
    if tokens == "(json)"@ {
        Some(SerializerType::JSON)
    } else if tokens == "(borsh)"@ {
        Some(SerializerType::Borsh)
    } else {
        None
    }
}

/// Parse the raw token payload of a serializer directive attribute into a
/// serialization format, or report that the payload is malformed.
pub fn parse_serializer(tokens: &String) -> (r: Option<SerializerType>)
    ensures
        r == spec_parse_serializer(tokens@),
{
    if *tokens == "(json)".to_owned() {
        Some(SerializerType::JSON)
    } else if *tokens == "(borsh)".to_owned() {
        Some(SerializerType::Borsh)
    } else {
        None
    }
}

} // verus!
