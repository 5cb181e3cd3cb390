//! A fixed-size worker pool whose dispatch queue, worker lifecycle and
//! shutdown protocol are verified.
//!
//! The library holds the pool's state and makes every decision of the
//! protocol; the threads, the blocking and the jobs themselves are driven
//! by the caller, which locks one `PoolCore` and calls into it.

pub mod error;
pub mod message;
pub mod worker;
pub mod pool;
