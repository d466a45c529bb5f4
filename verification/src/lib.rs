//! Verified core of a game-client relauncher.
//!
//! The library locates a running client process among an OS process
//! snapshot, rewrites its launch arguments to inject a Java agent,
//! derives the installation's home directory, classifies termination
//! outcomes, plans the replacement launch (direct or through the
//! sandbox runtime), parses the hardware listing for GPU offload
//! hints, and keeps the append-only log buffer that the output relay
//! fills.  All decision logic is verified; calls into the OS go
//! through a small set of trusted wrappers.

pub mod text;
pub mod locator;
pub mod gpu;
pub mod terminator;
pub mod relay;
pub mod launcher;
pub mod artifacts;
pub mod app_state;
