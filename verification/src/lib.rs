//! Verified core of the Omnia WebAssembly runtime and guest SDK.

pub mod api;
pub mod blobstore;
pub mod builders;
pub mod cache;
pub mod error;
pub mod guest;
pub mod http;
pub mod identity;
pub mod insert;
pub mod keyvalue;
pub mod orm;
pub mod runtime;
pub mod runtime_macro;
pub mod sdk;
