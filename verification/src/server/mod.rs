//! The aggregated server: audit records and request routing.

pub mod audit;
pub mod router;
