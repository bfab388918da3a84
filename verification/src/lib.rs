//! A verified core for a guided front end to a version-control command-line
//! tool.
//!
//! The library holds everything that can be checked: the classification of a
//! finished subprocess run, the construction of the fixed argument vectors for
//! each operation, the parsers that turn the tool's line-oriented output into
//! typed records, the business rules guarding commits and branch creation, and
//! the state machine of the guarded pull/push flows.  Spawning the subprocess,
//! prompting the user and rendering tables are left to a thin unverified shell
//! that hands plain strings in and out.

pub mod adapter;
pub mod records;
pub mod sync;
pub mod text;
pub mod workflow;
