//! A host-side manager for guest modules that run in isolation: a cache of compiled and
//! instantiated modules, a hot-reload step, a registry of host methods with
//! the byte protocol through which guests call them, and an allowlist that
//! decides which guest exports the host may call.

pub mod config;
pub mod host_import;
pub mod table;
pub mod utils;
pub mod wasm_manager;
pub mod watch;
