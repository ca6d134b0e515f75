use vstd::prelude::*;

verus! {

/// Failures of the local UDP listener's construction; each carries the
/// address and port that were asked for.
#[derive(Clone, Debug)]
pub enum LocalError {
    /// The address and port do not form a socket address.
    InvalidAddress(String, u16),
    /// Binding was refused for want of privilege.
    PermissionDenied(String, u16),
    /// Binding failed for any other reason.
    Unknown(String, u16),
}

/// Failures of the upstream transport and of the bootstrap resolver.
#[derive(Clone, Debug)]
pub enum UpstreamError {
    /// The HTTPS client could not be built.
    Build,
    /// The host named first could not be resolved; the second field says why.
    Bootstrap(String, String),
    /// A request could not be resolved upstream.
    Resolve,
}

} // verus!
