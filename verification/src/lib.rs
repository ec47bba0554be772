//! Synthetic workloads for benchmarking multi-scalar multiplication over the
//! BLS12-377 G1 group: curve points padded by replication, uniform scalars, and
//! scalars whose repetition pattern follows fixed frequency tiers.
//!
//! Field and group arithmetic and all randomness come from the arkworks and
//! rand crates. Each call into them sits in a small function whose contract is
//! trusted; the generators built on top are verified against those contracts.

pub mod curve;
pub mod field;
pub mod layout;
pub mod padding;
pub mod random;
pub mod runs;
pub mod util;
