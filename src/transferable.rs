//! Values that travel as the payload of a chunk.
use crate::wire::{EncodeError, ParseErrors, ParseFailure};
use vstd::prelude::*;

verus! {

/// A value with a byte form: `wire_form` says what `serialize` writes, and
/// `from_wire` what `deserialize` makes of given bytes.
pub trait Transferable: Sized + View {
    spec fn wire_form(v: Self::V) -> Result<Seq<u8>, EncodeError>;

    spec fn from_wire(data: Seq<u8>) -> Result<Self::V, ParseFailure>;

    fn serialize(&self) -> (r: Result<Vec<u8>, EncodeError>)
        ensures
            match Self::wire_form(self@) {
                Ok(b) => r matches Ok(v) && v@ == b,
                Err(e) => r == Err::<Vec<u8>, EncodeError>(e),
            },
    ;

    fn deserialize(data: &[u8]) -> (r: Result<Self, ParseErrors>)
        ensures
            match Self::from_wire(data@) {
                Ok(v) => r matches Ok(x) && x@ == v,
                Err(f) => r matches Err(e) && e.failure() == f,
            },
    ;
}

} // verus!
