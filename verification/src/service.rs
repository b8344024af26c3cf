//! Configuration of the standalone agent service (no actor system).
use vstd::prelude::*;
use crate::text::owned;

verus! {

/// The standalone service's identity and listening address.
#[derive(Clone, Debug)]
pub struct StandaloneServiceConfig {
    pub node_id: String,
    pub node_name: String,
    pub grpc_addr: String,
}

impl Default for StandaloneServiceConfig {
    /// Node `1`, named `node-1`, listening on `0.0.0.0:9000`.
    fn default() -> (c: Self)
        ensures
            c.node_id@ == "1"@,
            c.node_name@ == "node-1"@,
            c.grpc_addr@ == "0.0.0.0:9000"@,
    {
        StandaloneServiceConfig {
            node_id: owned("1"),
            node_name: owned("node-1"),
            grpc_addr: owned("0.0.0.0:9000"),
        }
    }
}

} // verus!
