use vstd::prelude::*;

verus! {

/// What can go wrong when talking to the configuration service.
#[derive(Debug, Clone, PartialEq, Eq)]
pub enum Error {
    /// A response that does not have the expected shape, with its text.
    Custom(String),
    /// A transport failure: network, timeout or a status that is not a success.
    ReqwestError(String),
    /// A network address that does not parse.
    AddrParseError(String),
}

impl Error {
    /// The detail that the error carries.
    pub open spec fn detail(&self) -> Seq<char> {
        match self {
            Error::Custom(m) => m@,
            Error::ReqwestError(m) => m@,
            Error::AddrParseError(m) => m@,
        }
    }

    /// The detail as text, for logging.
    pub fn message(&self) -> (r: String)
        ensures
            r@ == self.detail(),
    {
        match self {
            Error::Custom(m) => m.clone(),
            Error::ReqwestError(m) => m.clone(),
            Error::AddrParseError(m) => m.clone(),
        }
    }
}

} // verus!
