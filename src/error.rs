use vstd::prelude::*;

verus! {

/// The ways a request can fail.
#[derive(Debug, Clone, PartialEq, Eq)]
pub enum Error {
    /// A URL that does not parse as an absolute URL; holds the text given.
    Url(String),
    /// The body could not be encoded with the declared encoder.
    BodyEncoding(String),
    /// The body could not be decoded into the requested type.
    Decode { len: usize, cause: String },
    /// The executor reported that the exchange itself failed.
    Transport(String),
}

} // verus!
