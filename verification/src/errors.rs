//! The single failure surface of parsing and resolution.

use vstd::prelude::*;

verus! {

/// Why a parse or a resolution failed.  Every failure is terminal: there is
/// no partial success.
#[derive(Debug, Clone)]
pub enum IdfError {
    /// Malformed markup, with the byte offset the reader stopped at.
    Stream { position: u64, message: String },
    /// A tag lacks an attribute it must carry.
    MissingAttribute { tag: Vec<u8>, attribute: Vec<u8> },
    /// An attribute value that does not decode as the expected number.
    AttributeDecode { key: Vec<u8>, value: Vec<u8> },
    /// A component names a type that the registry does not hold.
    UnknownType { type_ref: Vec<u8> },
    /// A chain of types that contains itself.
    CyclicType { type_ref: Vec<u8> },
    /// A node with no special classification, no placement and no children.
    BareLeaf { type_ref: Vec<u8> },
}

/// The abstract value of an [`IdfError`].
pub enum IdfErrorV {
    Stream { position: u64, message: Seq<char> },
    MissingAttribute { tag: Seq<u8>, attribute: Seq<u8> },
    AttributeDecode { key: Seq<u8>, value: Seq<u8> },
    UnknownType { type_ref: Seq<u8> },
    CyclicType { type_ref: Seq<u8> },
    BareLeaf { type_ref: Seq<u8> },
}

impl View for IdfError {
    type V = IdfErrorV;

    open spec fn view(&self) -> IdfErrorV {
        match self {
            IdfError::Stream { position, message } => IdfErrorV::Stream {
                position: *position,
                message: message@,
            },
            IdfError::MissingAttribute { tag, attribute } => IdfErrorV::MissingAttribute {
                tag: tag@,
                attribute: attribute@,
            },
            IdfError::AttributeDecode { key, value } => IdfErrorV::AttributeDecode {
                key: key@,
                value: value@,
            },
            IdfError::UnknownType { type_ref } => IdfErrorV::UnknownType { type_ref: type_ref@ },
            IdfError::CyclicType { type_ref } => IdfErrorV::CyclicType { type_ref: type_ref@ },
            IdfError::BareLeaf { type_ref } => IdfErrorV::BareLeaf { type_ref: type_ref@ },
        }
    }
}

} // verus!
