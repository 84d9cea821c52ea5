//! Cost model for Merkle-tree commitments built from one or two hash
//! functions, with an optional cap, and a Blake3 adapter that offers the
//! no-pad and two-to-one hashing a Merkle tree needs.

pub mod adapter;
pub mod cost;
pub mod estimate;
pub mod relative;
pub mod text;
