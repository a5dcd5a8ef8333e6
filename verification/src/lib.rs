//! Client-side logic for pulling configuration files out of a container image
//! held by an OCI / Docker registry: which requests to make, how to read the
//! answers, which layer of the image to open, and which files of that layer to
//! keep.
//!
//! The crate performs no network access. A driver sends the requests that
//! [`endpoint`] describes and hands the answers to [`token`], [`manifest`] and
//! [`archive`]; [`select`] tells it which layer to ask for next.

pub mod error;
pub mod text;
pub mod path;
pub mod extract;
pub mod endpoint;
pub mod archive;
pub mod json;
pub mod token;
pub mod manifest;
pub mod select;
