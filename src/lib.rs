//! Change detection for an entity-component world: wrapping ticks, access proxies
//! that stamp changes, the overflow scan that keeps tick ages in range, a value
//! index kept current from change and removal events, and query filtering by an
//! indexed value.

pub mod change_detection;
pub mod color;
pub mod gcd;
pub mod indexing;
pub mod query_by_index;
pub mod tick;
pub mod world;
