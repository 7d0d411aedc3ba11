//! A sandboxed execution kernel: modules composed into processes that talk
//! through bounded channels, reference-counted blobs and per-topic event
//! timelines, under a cooperative scheduler with enforced resource limits.

pub mod abi;
pub mod arena;
pub mod blob;
pub mod channel;
pub mod event;
pub mod kernel;
pub mod metrics;
pub mod process;
pub mod refs;
pub mod sys;
pub mod timeline;
pub mod tool;
pub mod value;

pub use abi::{FilamentError, SystemError};
pub use refs::{FilamentBlob, FilamentBytes, FilamentList, FilamentMap, FilamentStr};
pub use tool::{McpClientArgs, Property, ToolContext, ToolSpec, TransportArgs};
pub use value::FilamentValue;
