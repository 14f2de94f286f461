use vstd::prelude::*;

verus! {

/// Errors surfaced by the identity, credential and routing layers.
///
/// Credential verification failures (`InvalidSignature`, `Expired`,
/// `UntrustedIssuer`, `SubjectMismatch`) are reported only to the local
/// verifier and never relayed to the presenting peer. `OperationFailed` and
/// `TimedOut` are retryable; the others are terminal for the operation that
/// raised them.
#[derive(Clone, Copy, Debug, PartialEq, Eq, Structural)]
pub enum IdentityError {
    /// Handshake or trust-policy rejection during channel establishment,
    /// or an attestation whose proof of possession does not verify.
    AuthenticationFailed,
    /// A credential signature that does not verify under the issuer's key.
    InvalidSignature,
    /// A credential whose expiry is not later than the verification time.
    Expired,
    /// A credential issuer outside the trusted-authority set.
    UntrustedIssuer,
    /// A credential subject other than the expected one.
    SubjectMismatch,
    /// A vault or backend failure; the caller may retry.
    OperationFailed,
    /// A handshake or round trip that exceeded its bound; the caller may retry.
    TimedOut,
    /// An unknown address or closed mailbox; terminal for that message.
    RoutingFailure,
}

} // verus!
