//! Process introspection and control: parsing the kernel's per-process
//! status record into a typed value, planning process creation with
//! guaranteed release of every OS resource, mapping OS failure sentinels
//! to typed errors, and reaping terminated children out of a listing.

pub mod codec;
pub mod control;
pub mod errors;
pub mod listing;
pub mod numbers;
pub mod process;
pub mod spawn;
pub mod split;
