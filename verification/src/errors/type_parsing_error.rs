use vstd::prelude::*;
use vstd::string::StringExecFns;

verus! {

/// A type could not be read from text.
#[derive(Debug, PartialEq, Eq, Structural, Clone, Copy)]
pub struct TypeParsingError;

impl TypeParsingError {
    /// The message that describes this error.
    pub fn to_string(&self) -> (r: String)
        ensures
            r@ == "Type parsing failed"@,
    {
        String::from_str("Type parsing failed")
    }
}

} // verus!
