//! A verified in-memory store of `Role` records: bilingual titles that link a
//! person to a team, with an effort allocation and an active period.
//!
//! The store owns the records and their lifecycle: creation with a generated
//! identifier, an idempotent get-or-create keyed on the person, lookups by
//! identifier, team or person, and whole-record update. Each operation's
//! contract pins down exactly which rows it returns and how the stored
//! sequence changes.

use vstd::prelude::*;

pub mod datefmt;
pub mod role;
pub mod store;

verus! {

/// Largest datestamp the store accepts: the last second of the year 9999,
/// counted in whole seconds from the epoch.
pub const MAX_DATESTAMP: i64 = 253402300799;

/// A datestamp the store can hold: within the window in which the calendar
/// formatter is defined.
pub open spec fn valid_datestamp(ts: i64) -> bool {
    0 <= ts <= MAX_DATESTAMP
}

} // verus!
