use vstd::prelude::*;

use chrono::TimeDelta;
use smallvec::SmallVec;

verus! {

/// chrono's signed span of time, carried through as it is.
#[verifier::external_type_specification]
#[verifier::external_body]
pub struct ExTimeDelta(chrono::TimeDelta);

/// An ordered list of algorithm identifiers, highest priority first, kept in
/// smallvec's vector with inline storage.
#[verifier::external_body]
#[derive(Debug, PartialEq, Eq)]
pub struct Preferences(pub SmallVec<[u8; 8]>);

/// The span that chrono builds from a whole number of seconds.
pub uninterp spec fn span_of_seconds(secs: int) -> chrono::TimeDelta;

/// The items that a preference list holds, in order.
pub uninterp spec fn pref_items(v: Preferences) -> Seq<u8>;

/// Relies on chrono::TimeDelta::seconds, which builds the span of `secs` whole
/// seconds and panics only beyond `i64::MAX / 1000` seconds, far above any `u32`.
#[verifier::external_body]
pub(crate) fn seconds_span(secs: u32) -> (r: TimeDelta)
    ensures
        r == span_of_seconds(secs as int),
{
    TimeDelta::seconds(secs as i64)
}

/// Relies on smallvec::SmallVec::from_slice, which copies the slice's items in order.
#[verifier::external_body]
pub(crate) fn prefs_from_slice(items: &[u8]) -> (r: Preferences)
    ensures
        pref_items(r) == items@,
{
    Preferences(SmallVec::from_slice(items))
}

} // verus!
