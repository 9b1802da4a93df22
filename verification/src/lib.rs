//! Batch digest engine: frame-addressed shared-memory buffers, write/read
//! cursors, per-run parameter block, and the synchronous dispatch protocol
//! that sizes a compute grid for one batch of fixed-length inputs.
//!
//! The accelerator runtime itself (device discovery, kernel compilation,
//! command queues, the dispatch and wait primitives) is a capability outside
//! this library: a driver performs those calls and feeds their results back
//! through the narrow, contract-checked boundary functions here.

pub mod algo;
pub mod buffer;
pub mod error;
pub mod job;
pub mod params;

pub use algo::Digest;
pub use algo::SHA1;
pub use buffer::BatchBuffer;
pub use buffer::BatchBufferReader;
pub use buffer::BatchBufferSetter;
pub use error::Error;
pub use job::DigestCommandRun;
pub use job::DispatchPlan;
pub use params::DigestRunArgs;
pub use params::DigestRunArgsBuffer;
