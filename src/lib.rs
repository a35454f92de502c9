//! A minimal HTTP responder: a request-line dispatcher and the bookkeeping
//! of a fixed-size worker pool, both verified.

pub mod pool;
pub mod router;
