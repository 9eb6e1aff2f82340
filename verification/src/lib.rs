//! Character-level change detection for a watched working tree.
//!
//! The library turns observations of file contents into a stream of
//! CRDT-ready operations (insert / delete / replace / create / delete /
//! rename), each carrying a Lamport-clocked position and a causal link to
//! the previous operation emitted for the same file.

pub mod blob;
pub mod classify;
pub mod clock;
pub mod detector;
pub mod diff;
pub mod digest;
pub mod fault;
pub mod lsp;
pub mod ops;
pub mod orchestra;
pub mod pathmap;
pub mod queue;
pub mod r2;
pub mod snapshot;
pub mod strutil;
pub mod version;
pub mod watchtypes;

pub use blob::{Blob, BlobMetadata, BlobRepository};
pub use clock::LamportClock;
pub use detector::Detector;
pub use fault::{categorize_error, EnhancedError, EnhancedResult, ErrorCategory, ToEnhanced};
pub use ops::{Operation, OperationType, Position};
pub use orchestra::{Conflict, DefaultTrafficAnalyzer, PatternMatch, ToolOutput, TrafficAnalyzer,
    TrafficBranch};
pub use queue::EventQueue;
pub use snapshot::FileSnapshot;
pub use version::{ToolSource, Version, VersionReq};
pub use watchtypes::{ChangeKind, ChangeSource, FileChange, ForgeEvent, LspEvent, QualityChange,
    RapidChange};
