//! A FIPA agent platform: typed-block containers, IPC framing, JADE-style
//! behaviour scheduling, agent addressing, manifests and protocol states.
use vstd::prelude::*;

pub mod clock;
pub mod wire;
pub mod block;
pub mod text;
pub mod strmap;
pub mod fmt;
pub mod frame;
pub mod behavior;
pub mod manifest;
pub mod address;
pub mod snapshot;
pub mod acl;
pub mod protocol;
pub mod codec;
pub mod content;
pub mod interplatform;
pub mod identity;
pub mod metrics;
pub mod mcp;
pub mod adapters;
pub mod router;
pub mod crypto;
pub mod migrate;
pub mod process;
pub mod keyed;
pub mod escrow;
pub mod ams;
pub mod order;
pub mod df;
pub mod ba;
pub mod bs;
pub mod guard;
pub mod resolve;
pub mod registry;
pub mod consensus;
pub mod service;
pub mod timers;
pub mod scaffold;
pub mod json;
pub mod replies;
pub mod executor;

verus! {
} // verus!
