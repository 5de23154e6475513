//! Calendar rendering of datestamps.
//!
//! The store keeps every timestamp as whole seconds from the epoch; the
//! presentation layer shows them through one fixed calendar pattern. The
//! rendering itself is done by an outside calendar library, so the result is
//! given a name here and every contract above speaks of that name.

use vstd::prelude::*;

verus! {

/// The calendar rendering of a datestamp under the store's fixed pattern
/// (year-month-day). Names the result of the outside formatter: the rendering
/// is a function of the datestamp alone.
pub uninterp spec fn format_date(ts: int) -> Seq<char>;

/// Relies on `chrono::DateTime::<Utc>::from_timestamp`, which is `Some` for
/// every datestamp in the store's window, and on chrono's `%Y-%m-%d`
/// formatter: the rendering depends on the datestamp alone.
#[verifier::external_body]
pub(crate) fn format_datestamp(ts: i64) -> (r: String)
    requires
        crate::valid_datestamp(ts),
    ensures
        r@ == format_date(ts as int),
{
    match chrono::DateTime::<chrono::Utc>::from_timestamp(ts, 0) {
        Some(d) => d.format("%Y-%m-%d").to_string(),
        None => String::new(),
    }
}

} // verus!
