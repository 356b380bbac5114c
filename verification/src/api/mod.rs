//! Functions and data types exposed to the application.

pub mod simple;
