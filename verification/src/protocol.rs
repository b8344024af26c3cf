//! FIPA interaction protocols as state machines over ACL messages.
pub mod state_machine;
pub mod contract_net;
pub mod brokering;
