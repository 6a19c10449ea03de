//! Turning a parsed target into an established transport: the decisions of
//! establishment (which transport to open, with what peer name, and which
//! error each stage reports), and the connection that owns the stream.
//!
//! Address resolution and the opening of sockets are outside work; the
//! driver performs them and hands their outcomes back as plain values.

use vstd::prelude::*;
use vstd::string::StringSliceAdditionalSpecFns;
use crate::errors::ClientError;
use crate::transport::TransportStream;
use crate::url::{Scheme, Target};

verus! {

/// The transport-opening step a driver must perform for a target.
#[derive(Debug)]
pub enum ConnectAction<A> {
    /// Open a plaintext connection to the address.
    OpenPlaintext { addr: A },
    /// Open a raw connection to the address, then run a TLS handshake with
    /// `server_name` as the peer identity for certificate validation.
    OpenTls { addr: A, server_name: String },
}

/// Decide the transport-opening step from the first address candidate that
/// resolution produced (`None` when resolution failed or produced none).
/// With no candidate the result is the resolution error and no connect
/// action: a raw connection is never attempted.
pub fn plan_connect<A>(target: &Target, first_candidate: Option<A>) -> (r: Result<
    ConnectAction<A>,
    ClientError,
>)
    ensures
        first_candidate is None ==> r == Err::<ConnectAction<A>, ClientError>(
            ClientError::AddressResolution,
        ),
        first_candidate matches Some(a) ==> (target.scheme == Scheme::Encrypted ==> (r matches Ok(
            act,
        ) && act matches ConnectAction::OpenTls { addr, server_name } && addr == a && server_name@
            == target.host@)) && (target.scheme != Scheme::Encrypted ==> (r matches Ok(act)
            && act matches ConnectAction::OpenPlaintext { addr } && addr == a)),
{
    match first_candidate {
        None => Err(ClientError::AddressResolution),
        Some(a) => {
            if target.scheme.uses_tls() {
                Ok(ConnectAction::OpenTls { addr: a, server_name: target.host.clone() })
            } else {
                Ok(ConnectAction::OpenPlaintext { addr: a })
            }
        },
    }
}

/// The stages of establishment and transfer that can fail.
#[derive(Clone, Copy, Debug, PartialEq, Eq, Structural)]
pub enum EstablishStage {
    /// Name resolution of the connection string.
    Resolve,
    /// Building the TLS client context.
    TlsContext,
    /// Opening the raw connection.
    RawConnect,
    /// The TLS handshake over the raw connection.
    TlsHandshake,
    /// Reading, writing or flushing after establishment.
    Transfer,
}

/// Which error a failure at each stage reports.
pub fn stage_error(stage: EstablishStage) -> (e: ClientError)
    ensures
        stage == EstablishStage::Resolve ==> e == ClientError::AddressResolution,
        stage == EstablishStage::TlsContext ==> e == ClientError::TlsSetup,
        stage == EstablishStage::RawConnect ==> e == ClientError::Connect,
        stage == EstablishStage::TlsHandshake ==> e == ClientError::TlsHandshake,
        stage == EstablishStage::Transfer ==> e == ClientError::Io,
{
    match stage {
        EstablishStage::Resolve => ClientError::AddressResolution,
        EstablishStage::TlsContext => ClientError::TlsSetup,
        EstablishStage::RawConnect => ClientError::Connect,
        EstablishStage::TlsHandshake => ClientError::TlsHandshake,
        EstablishStage::Transfer => ClientError::Io,
    }
}

/// An established transport bound to the target it was opened for, used for
/// exactly one request/response cycle.
pub struct Connection {
    pub stream: TransportStream,
    pub target: Target,
}

impl Connection {
    /// The stream's cursor is within its injected bytes.
    pub open spec fn wf(self) -> bool {
        self.stream.wf()
    }

    /// Queue the request text and flush it to the wire.
    pub fn send_request(&mut self, req: &str)
        requires
            old(self).wf(),
        ensures
            final (self).wf(),
            final (self).stream.sent() == old(self).stream.sent() + old(self).stream.pending()
                + req.spec_bytes(),
            final (self).stream.pending() == Seq::<u8>::empty(),
            final (self).stream.incoming() == old(self).stream.incoming(),
            final (self).stream.consumed() == old(self).stream.consumed(),
            final (self).stream.is_encrypted() == old(self).stream.is_encrypted(),
            final (self).target == old(self).target,
    {
        self.stream.write_all(req.as_bytes());
        self.stream.flush();
    }

    /// Read the whole response: chunks until a zero-length read.
    pub fn read_response(&mut self) -> (r: Vec<u8>)
        requires
            old(self).wf(),
        ensures
            final (self).wf(),
            r@ == old(self).stream.incoming().skip(old(self).stream.consumed() as int),
            final (self).stream.consumed() == final (self).stream.incoming().len(),
            final (self).stream.incoming() == old(self).stream.incoming(),
            final (self).stream.pending() == old(self).stream.pending(),
            final (self).stream.sent() == old(self).stream.sent(),
            final (self).stream.is_encrypted() == old(self).stream.is_encrypted(),
            final (self).target == old(self).target,
    {
        self.stream.read_to_end()
    }
}

} // verus!
