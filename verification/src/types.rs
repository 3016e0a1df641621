//! The kinds of record whose timestamps have a layout of their own.

use vstd::prelude::*;

verus! {

/// Kind of the record that a timestamp belongs to.
#[derive(Clone, Copy, Debug, PartialEq, Eq, Structural, Hash)]
pub enum Type {
    /// Observation data: full sub-second precision and a trailing flag.
    ObservationData,
    /// Navigation data: tenths of a second in old revisions, whole seconds since.
    NavigationData,
    /// Ionosphere maps: widely spaced columns, whole seconds.
    IonosphereMaps,
    /// Any other record: whole seconds.
    Other,
}

} // verus!
