//! ESC/POS thermal printer library: receipt and raster encoding, job queue
//! accounting, transport chunking and retry decisions, with their contracts.

pub mod text;
pub mod errors;
pub mod config;
pub mod raster;
pub mod session;
pub mod escpos_adapter;
pub mod jobs;
pub mod api;
pub mod printer;
pub mod transport;

