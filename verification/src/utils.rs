//! The steps of a run: scanning the build folder, choosing the frameworks to
//! work on, and deciding for each what to fetch, extract, zip or upload.
pub mod download;
pub mod upload;
pub mod archive;
pub mod scan;
