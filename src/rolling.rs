//! Sliding-window aggregates.
pub mod container;
pub mod validity;
pub mod minmax;
pub mod quantile;
pub mod history;
