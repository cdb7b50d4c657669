//! Verified core of a desktop Python IDE.
//!
//! The heart of the crate is a client for a Debug Adapter Protocol style
//! debugger: length-prefixed message framing over a byte stream, request
//! sequencing and response correlation, a connection-retry supervisor, a
//! single-slot session manager, and the decision logic of the background
//! event loop.  Around it sit the small pure pieces of the IDE: project
//! templates, `pyproject.toml` rendering, and parsers for tool output.
//!
//! All I/O (sockets, child processes, the file system) lives outside this
//! crate; the library computes requests as bytes, consumes decoded messages
//! as plain values, and decides what the driver should do next.

pub mod correlate;
pub mod encode;
pub mod frame;
pub mod project;
pub mod protocol;
pub mod scaffold;
pub mod session;
pub mod supervise;
pub mod tools;
