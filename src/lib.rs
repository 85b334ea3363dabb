//! Ingestion engine for a source-hosting platform: contributor aggregation
//! over paginated commit history, date-window partitioning, and a resumable
//! windowed search sync, each stated as verified decisions over plain values.

mod text;

pub mod contributors;
pub mod http;
pub mod partition;
pub mod window_sync;
