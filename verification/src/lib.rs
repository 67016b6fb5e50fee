//! An image-transformation proxy core: the operation model, the token codec
//! for operation chains, and the bounded fetch cache for source images.

pub mod cache;
pub mod codec;
pub mod escape;
pub mod kv;
pub mod ops;
pub mod recency;
pub mod request;
pub mod store;
pub mod wire;
