//! A password-gated file share: session checks, the upload and download
//! transfer rules, and the listing of the shared store, each with a contract.

pub mod names;
pub mod auth;
pub mod upload;
pub mod download;
pub mod store;
pub mod listing;
