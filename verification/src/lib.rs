//! Coordinate, region and identifier queries over variant records, with the
//! bookkeeping around them: chromosome name resolution, the identifier
//! index, paginated query sessions and whole-file statistics.

pub mod cache;
pub mod chromosome;
pub mod codec;
pub mod coordinate;
pub mod id_index;
pub mod metadata;
pub mod query;
pub mod response;
pub mod session;
pub mod stats;
pub mod tally;
pub mod variant;
