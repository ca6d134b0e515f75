use vstd::prelude::*;

verus! {

/// The configuration of the gateway: where it listens and which DoH
/// resolver it forwards to.
#[derive(Clone, Debug)]
pub struct Args {
    pub local_address: String,
    pub local_port: u16,
    pub upstream_address: String,
    pub upstream_port: u16,
}

} // verus!
