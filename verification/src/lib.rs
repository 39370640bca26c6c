//! Verified core of a communication service for industrial field protocols.

pub mod can;
pub mod combase;
pub mod error;
pub mod keyed;
pub mod param_map;
pub mod seq_util;
pub mod text;
