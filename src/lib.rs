//! Adapter resolution and outcome classification for a URL bridge.
//!
//! A request names a percent-encoded absolute URL. Its host is turned into an
//! adapter key, the key selects an adapter file from the search directories,
//! an optional environment file supplies the adapter's environment, and the
//! adapter's exit status and output are mapped onto an HTTP reply.

pub mod text;
pub mod key;
pub mod env;
pub mod reply;
pub mod session;
