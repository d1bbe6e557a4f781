//! Converts the status document of a FoundationDB cluster into Prometheus
//! metrics.

pub mod driver;
pub mod fetcher;
pub mod metrics;
pub mod status_models;
pub mod text;

pub use fetcher::{decode_cluster_status, FetchError};
pub use metrics::process_metrics;
pub use status_models::Status;
