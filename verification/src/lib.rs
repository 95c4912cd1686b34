//! Host environment for sandboxed logic components.
//!
//! A component of the circuit simulator is a compiled module that the
//! execution engine runs in a sandbox. Before a module is trusted, its
//! declared interface is held against a [`contract::Contract`]: the exports
//! that it must provide and the imports that it may declare. Modules that
//! pass are cataloged by name in categories, and instances of them are
//! created at a position and registered under a generated id by a
//! [`module::ModuleEnv`], which also plans the calls of every tick.
//!
//! The functions of this crate are verified against their contracts. What
//! they take on trust from the engine is gathered in [`engine`].

pub mod contract;
pub mod engine;
pub mod logic;
pub mod misc;
pub mod module;
pub mod name_map;
pub mod signature;
