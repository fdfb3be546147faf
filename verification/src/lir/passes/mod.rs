//! The checks that are run on the low-level description of a device.

pub mod addresses_non_overlapping;
