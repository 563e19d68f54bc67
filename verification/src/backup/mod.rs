//! Backups: full, incremental, and the upload to S3.

pub mod action;
pub mod conduct;
pub mod error;
pub mod full;
pub mod incremental;
pub mod listing;
pub mod retention;
pub mod s3;
pub mod script;
