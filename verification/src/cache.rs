//! Where archives live: in the local cache directory and in the S3 bucket.
pub mod consistency;
pub mod local;
pub mod s3;
