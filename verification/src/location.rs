//! Where a deposit is headed: a remote domain and a recipient on it.

use crate::types::DomainID;
use vstd::prelude::*;
use vstd::slice::slice_to_vec;

verus! {

/// One step of a location.
#[derive(Clone, Debug, PartialEq, Eq)]
pub enum Junction {
    /// A key of any kind, as bytes.
    GeneralKey(Vec<u8>),
    /// An index of any kind.
    GeneralIndex(u128),
    /// Any step that names neither a key nor an index.
    Other,
}

/// Mathematical value of a [`Junction`].
pub enum JunctionView {
    GeneralKey(Seq<u8>),
    GeneralIndex(u128),
    Other,
}

impl View for Junction {
    type V = JunctionView;

    open spec fn view(&self) -> JunctionView {
        match self {
            Junction::GeneralKey(key) => JunctionView::GeneralKey(key@),
            Junction::GeneralIndex(index) => JunctionView::GeneralIndex(*index),
            Junction::Other => JunctionView::Other,
        }
    }
}

/// A place relative to the local ledger: a number of steps up, then steps
/// down.
#[derive(Clone, Debug, PartialEq, Eq)]
pub struct Location {
    pub parents: u8,
    pub interior: Vec<Junction>,
}

/// Mathematical value of a [`Location`].
pub struct LocationView {
    pub parents: u8,
    pub interior: Seq<JunctionView>,
}

impl View for Location {
    type V = LocationView;

    open spec fn view(&self) -> LocationView {
        LocationView {
            parents: self.parents,
            interior: self.interior@.map_values(|j: Junction| j@),
        }
    }
}

/// The domain and the recipient that `location` names.
///
/// A destination lies directly below the local ledger and has two steps: a
/// key, which is the recipient and is not empty, and an index, which is the
/// domain and fits a `DomainID`. Anything else is no destination.
pub open spec fn destination_of(location: LocationView) -> Option<(DomainID, Seq<u8>)> {
    if location.parents == 0 && location.interior.len() == 2 {
        match (location.interior[0], location.interior[1]) {
            (JunctionView::GeneralKey(recipient), JunctionView::GeneralIndex(domain)) => {
                if recipient.len() > 0 && domain <= DomainID::MAX {
                    Some((domain as DomainID, recipient))
                } else {
                    None
                }
            },
            _ => None,
        }
    } else {
        None
    }
}

/// The domain that `location` names, where it is a destination.
pub open spec fn destination_domain(location: LocationView) -> DomainID {
    match destination_of(location) {
        Some((domain, _)) => domain,
        None => 0,
    }
}

/// Reads the domain and the recipient out of `location`.
pub fn extract_dest(location: &Location) -> (destination: Option<(DomainID, Vec<u8>)>)
    ensures
        match destination {
            Some((domain, recipient)) => destination_of(location@) == Some((domain, recipient@)),
            None => destination_of(location@) is None,
        },
{
    if location.parents != 0 || location.interior.len() != 2 {
        return None;
    }
    assert(location@.interior[0] == location.interior@[0]@);
    assert(location@.interior[1] == location.interior@[1]@);
    match (&location.interior[0], &location.interior[1]) {
        (Junction::GeneralKey(recipient), Junction::GeneralIndex(domain)) => {
            if recipient.len() > 0 && *domain <= 255 {
                Some((*domain as DomainID, slice_to_vec(recipient.as_slice())))
            } else {
                None
            }
        },
        _ => None,
    }
}

} // verus!
