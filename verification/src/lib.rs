//! A raffle: a host whitelists accounts, then draws ten distinct winners
//! with a deterministic pseudo-random generator seeded from a secret and
//! from entropy gathered when the raffle ends.

pub mod bytes;
pub mod rand;
pub mod state;
pub mod contract;
pub mod reply;
