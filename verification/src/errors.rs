//! The failure taxonomy of the tool.  Every failure is terminal for the
//! request being made; none is recovered from inside the library.

use vstd::prelude::*;

verus! {

/// One variant per stage that can fail, from URL parsing to I/O.
#[derive(Clone, Copy, Debug, PartialEq, Eq, Structural)]
pub enum ClientError {
    /// The raw URL string matches no recognized shape.
    InvalidUrl,
    /// Name resolution failed or produced no candidate address.
    AddressResolution,
    /// The raw transport connection could not be opened.
    Connect,
    /// The TLS client context could not be built.
    TlsSetup,
    /// The TLS handshake failed, including certificate or host mismatch.
    TlsHandshake,
    /// A read, write or flush failed after the connection was established.
    Io,
    /// Malformed interactive input.
    Input,
}

impl ClientError {
    /// The message reported to the user for this failure.
    pub fn message(&self) -> (r: &'static str)
        ensures
            *self == ClientError::InvalidUrl ==> r@ == "Url must be valid."@,
            *self == ClientError::AddressResolution ==> r@ == "Url must be valid."@,
            *self == ClientError::Connect ==> r@ == "Couldn't connect."@,
            *self == ClientError::TlsSetup ==> r@ == "SSL: connector error."@,
            *self == ClientError::TlsHandshake ==> r@
                == "SSL: couldn't establish an SSL connection."@,
            *self == ClientError::Io ==> r@ == "Write error"@,
            *self == ClientError::Input ==> r@ == "Input must be valid."@,
    {
        match self {
            ClientError::InvalidUrl => "Url must be valid.",
            ClientError::AddressResolution => "Url must be valid.",
            ClientError::Connect => "Couldn't connect.",
            ClientError::TlsSetup => "SSL: connector error.",
            ClientError::TlsHandshake => "SSL: couldn't establish an SSL connection.",
            ClientError::Io => "Write error",
            ClientError::Input => "Input must be valid.",
        }
    }
}

} // verus!
