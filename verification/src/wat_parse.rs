//! The calls into the `wat` crate: text-format parsing and its error text.
use vstd::prelude::*;
use wat::Error as WatError;

verus! {

#[verifier::external_type_specification]
#[verifier::external_body]
pub struct ExWatError(WatError);

/// The WebAssembly binary that the `wat` crate produces for a text-format
/// module, or `None` where it reports an error.
pub uninterp spec fn wat_binary(wat: Seq<char>) -> Option<Seq<u8>>;

/// Calls `wat::parse_str`. The contract says that the outcome is a function
/// of the text alone: the bytes of the binary on success, an error
/// otherwise. The crate is built without its component-model feature, the
/// only part of the parser that reads the environment.
#[verifier::external_body]
pub(crate) fn parse_wat(wat: &str) -> (r: std::result::Result<Vec<u8>, WatError>)
    ensures
        match r {
            Ok(bytes) => wat_binary(wat@) == Some(bytes@),
            Err(_) => wat_binary(wat@) is None,
        },
{
    wat::parse_str(wat)
}

/// The message of a `wat` parse error, through its `Display` impl. Nothing is
/// stated of the text.
#[verifier::external_body]
pub(crate) fn wat_error_text(e: &WatError) -> String {
    e.to_string()
}

} // verus!
