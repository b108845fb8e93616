//! The records of the remote service as its published interface names them.

pub mod models;
