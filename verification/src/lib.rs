//! Exact two-digit decimal prices, snapshot file naming and selection, and
//! the flattening of a product catalog into summary rows.

pub mod error;
pub mod text;
pub mod decimal;
pub mod snapshot;
pub mod catalog;
pub mod export;
