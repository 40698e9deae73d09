//! One connection: what comes in over it, and what goes out.

pub mod read;
pub mod write;
