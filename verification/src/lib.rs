//! A zero-copy persistence codec: values are encoded into flat,
//! offset-addressed byte regions, and pointers inside such a region are
//! relative byte offsets instead of addresses.

pub mod blob;
pub mod coerce;
pub mod compare;
pub mod dumper;
pub mod heap;
pub mod layout;
pub mod marshal;
pub mod offset;
pub mod pile;
pub mod save;
pub mod scalar;
pub mod validptr;
pub mod writer;
pub mod zone;
