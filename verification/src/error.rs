//! The ways in which generation fails.
use vstd::prelude::*;
use vstd::string::*;

verus! {

/// Why no text was generated.
#[derive(Clone, Copy, Debug, PartialEq, Eq, Structural)]
pub enum GenError {
    /// A type names a struct that the package's struct table does not hold.
    UnresolvedStructReference,
    /// A type that has no TypeScript form: a tuple.
    UnsupportedType,
    /// Structs are nested deeper than the struct table has entries, so one of them
    /// holds itself.
    RecursiveStructReference,
    /// A value could not be written as JSON.
    SerializationFailure,
}

impl GenError {
    /// The text that describes the error.
    pub open spec fn message_text(self) -> Seq<char> {
        match self {
            GenError::UnresolvedStructReference => "unresolved struct reference"@,
            GenError::UnsupportedType => "not yet implemented"@,
            GenError::RecursiveStructReference => "recursive struct reference"@,
            GenError::SerializationFailure => "serialization failure"@,
        }
    }

    /// The text that describes the error.
    pub fn message(&self) -> (r: String)
        ensures
            r@ == self.message_text(),
    {
        match self {
            GenError::UnresolvedStructReference => String::from_str("unresolved struct reference"),
            GenError::UnsupportedType => String::from_str("not yet implemented"),
            GenError::RecursiveStructReference => String::from_str("recursive struct reference"),
            GenError::SerializationFailure => String::from_str("serialization failure"),
        }
    }
}

/// Whether `r` is the text or the error that `expected` gives.
pub open spec fn is_text_result(
    r: Result<String, GenError>,
    expected: Result<Seq<char>, GenError>,
) -> bool {
    match expected {
        Ok(t) => r matches Ok(s) && s@ == t,
        Err(e) => r matches Err(f) && f == e,
    }
}

} // verus!
