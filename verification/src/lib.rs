//! Verified core of an asynchronous capture-analysis pipeline.
//!
//! Uploaded media items ("captures") wait in a work queue until a background
//! worker enriches them with a vision-model analysis, cross-checks it against
//! solar geometry derived from the capture's GPS and timestamp metadata,
//! persists the structured result together with normalized tags, and derives a
//! thumbnail.  The modules here hold the decision logic of that pipeline with
//! contracts; the surrounding process performs the I/O (HTTP, SQL, object
//! store) and feeds plain values in and out.

pub mod config;
pub mod context;
pub mod extract;
pub mod jsonval;
pub mod keys;
pub mod models;
pub mod numfmt;
pub mod request;
pub mod solar;
pub mod store;
pub mod tags;
pub mod text;
pub mod thumb;
pub mod vision;
pub mod worker;
