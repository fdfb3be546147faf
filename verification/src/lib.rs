//! Verified core of a toolkit for writing device drivers: register bit values,
//! the device description model and the checks and conversions that are run on it.

pub mod bit;
pub mod mir;
pub mod bits;
pub mod case;
pub mod deserialization;
pub mod dsl_device;
pub mod dsl_hir;
pub mod dsl_transform;
pub mod endian;
pub mod error;
pub mod hl;
pub mod kdl;
pub mod kdl_device_round_trip;
pub mod kdl_round_trip;
pub mod kdl_transform;
pub mod kdl_tree;
pub mod lir;
pub mod macro_input;
pub mod ll;
pub mod passes;
pub mod pipeline;
pub mod register_field;
pub mod register_generation;
pub mod reporting;
pub mod text;
pub mod utils;
