use vstd::prelude::*;

verus! {

/// Why a value could not be encoded.
#[derive(Debug, Clone, PartialEq, Eq)]
pub enum Error {
    /// A shape that the flat format cannot represent, with a message.
    Custom(String),
    /// A byte buffer that is not valid UTF-8.
    Utf8,
}

/// The kind of failure that the encoding model predicts, before a sink
/// turns it into an [`Error`].
#[derive(PartialEq, Eq, Structural, Clone, Copy, Debug)]
pub enum Fault {
    Unsupported,
    Utf8,
}

impl Error {
    /// The message of a `Custom` error, if it is one.
    pub fn message(&self) -> (r: Option<&str>)
        ensures
            match self {
                Error::Custom(m) => r is Some && r->0@ == m@,
                Error::Utf8 => r is None,
            },
    {
        match self {
            Error::Custom(m) => Some(m.as_str()),
            Error::Utf8 => None,
        }
    }
}

/// `e` is the error that a sink whose unsupported-shape message is `msg`
/// reports for the fault `f`.
pub open spec fn error_is(e: Error, f: Fault, msg: Seq<char>) -> bool {
    match f {
        Fault::Unsupported => e is Custom && e->Custom_0@ == msg,
        Fault::Utf8 => e is Utf8,
    }
}

} // verus!
