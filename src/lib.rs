//! A small client for an S3-style object storage service: request signing
//! (Signature Version 4), request descriptors for the supported operations,
//! status handling of the transport's reply and typed unmarshalling of the
//! service's XML listings.
pub mod auth;
pub mod dispatch;
pub mod error;
pub mod hashing;
pub mod http;
pub mod markup;
pub mod query;
pub mod s3;
pub mod signer;
pub mod text;
pub mod timestamp;
pub mod util;
