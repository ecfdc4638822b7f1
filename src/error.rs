use vstd::prelude::*;

verus! {

/// Why a locator could not be parsed or a resource could not be fetched.
#[derive(PartialEq, Eq, Structural, Clone, Copy, Debug)]
pub enum FetchError {
    /// The input cannot be split into scheme, host, port and path.
    MalformedLocator,
    /// The scheme is not one of `http`, `https`, `file`, `data`.
    UnsupportedScheme,
    /// The host could not be reached, or the TLS handshake failed.
    ConnectionError,
    /// A malformed status line or header, or an unsupported encoding.
    ProtocolError,
    /// A local file does not exist.
    ResourceNotFound,
    /// Any other failure to read a local file.
    IoError,
}

} // verus!
