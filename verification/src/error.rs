use vstd::prelude::*;

verus! {

/// Why a term could not be generated.
#[derive(Debug)]
pub enum GenTermError {
    /// Some other failure, with its message.
    Error(String),
    /// A string was not valid UTF-8.
    Utf8Error,
    /// A string was not a valid IRI.
    IriParseError,
    /// A string held a NUL character, which a C string cannot hold.
    NulError,
}

impl GenTermError {
    /// An error with the given message.
    pub fn other(value: &str) -> (r: Self)
        ensures
            r matches GenTermError::Error(m) && m@ == value@,
    {
        GenTermError::Error(value.to_owned())
    }
}

}
