//! Capability system: what each world is allowed to do.
//!
//! Capabilities form a tree (Root above Ring0 and User, Ring0 above Driver
//! and Admin, ...); holding a capability grants everything below it.
pub mod types;
pub mod hierarchy;
pub mod store;
pub mod audit;
pub mod presets;
pub mod system;
pub mod check;
pub mod grant;
pub mod revoke;
pub mod defaults;
pub mod policy;
pub mod selftest;
