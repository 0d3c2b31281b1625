//! Client side of the Android Debug Bridge host protocol.
//!
//! The library holds the protocol engine without the socket: it builds every
//! request as bytes, decodes every reply from the bytes read so far, and makes
//! each decision of the file-transfer, forwarding and scripting flows. The
//! program around it moves the bytes.
pub mod transport;
pub mod wire;
pub mod text;
pub mod error;
pub mod host;
pub mod stat;
pub mod sync;
pub mod paths;
pub mod transfer;
pub mod batch;
pub mod dirwalk;
pub mod commands;
pub mod install;
pub mod cli;
pub mod scripting;
pub mod bugreport;
pub mod options;

pub use transport::DeviceTransport;
pub use error::AdbError;
pub use text::strip_adb_prefix;
pub use stat::{RemoteDirEntry, RemoteMetadata, StatData};
pub use transfer::{PullResult, PushResult};
