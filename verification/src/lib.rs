//! Core of a TLS-intercepting forward proxy: the buffer pool backing the
//! relay loops, the domain-blocking access policy, the root-CA manager with
//! its per-hostname leaf-certificate cache, the per-connection session state
//! machine, and the listener's admission control. All I/O stays outside; the
//! logic here works on plain values and is verified.

pub mod acl;
pub mod buffer;
pub mod ca;
pub mod error;
pub mod metrics;
pub mod server;
pub mod session;

use vstd::prelude::*;

verus! {

/// Size in bytes of a small-tier buffer (64 KiB).
pub const SMALL_BUFFER_SIZE: usize = 64 * 1024;

/// Size in bytes of a medium-tier buffer (256 KiB).
pub const MEDIUM_BUFFER_SIZE: usize = 256 * 1024;

/// Size in bytes of a large-tier buffer (1 MiB).
pub const LARGE_BUFFER_SIZE: usize = 1024 * 1024;

/// Number of small buffers a pool may have outstanding at once.
pub const SMALL_POOL_SIZE: usize = 128;

/// Number of medium buffers a pool may have outstanding at once.
pub const MEDIUM_POOL_SIZE: usize = 64;

/// Number of large buffers a pool may have outstanding at once.
pub const LARGE_POOL_SIZE: usize = 32;

} // verus!
