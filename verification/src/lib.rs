//! A macro-expansion core for an RPM-style spec macro dialect.
//!
//! The crate provides a bounded text cursor over shared character buffers,
//! a registry of named macro definitions with shadow-redefinition, and the
//! catalog of builtin macros (string transforms, path and URL utilities,
//! environment and filesystem queries, definition management).  An external
//! expansion driver resolves macro names through the registry and dispatches
//! to the catalog; everything the driver needs from the outside world
//! (environment variables, path existence, script execution) is passed in as
//! plain values, so the whole catalog is verified.

pub mod builtins;
pub mod cursor;
pub mod error;
pub mod interp;
pub mod registry;
pub mod text;
