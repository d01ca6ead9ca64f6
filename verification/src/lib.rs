//! A caching decorator over a composed-text source abstraction: memoizes the
//! flattened text, the binary buffer, the structural hash and per-granularity
//! source maps behind a shared, thread-safe handle, and reclaims the wrapped
//! subtree once every artifact it could supply has a cached substitute.
pub mod cached_source;
pub mod encoder;
pub mod helpers;
pub mod model;
pub mod source;
pub mod source_kinds;
pub mod types;
