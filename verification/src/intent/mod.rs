pub mod context;
pub mod detectors;
pub mod handlers;
