//! A bit-sliced ternary sponge hash. The state is 729 ternary digits
//! (trits) arranged as 27 slices of 3 rows by 9 columns; each cell packs
//! 64 independent lanes into one pair of machine words, so every ring
//! operation advances 64 hash computations at once. The contracts relate
//! each lane of the executable state to a digit-level model of the
//! substitution, diffusion and round-constant layers and of the
//! absorb/finalize/squeeze protocol.

pub mod tables;
pub mod trits;
pub mod model;
pub mod stroika;

pub use stroika::{RoundCountError, Stroika};
pub use trits::Strit;
