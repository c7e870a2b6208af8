//! The record that removes an element.
use crate::unique_id_generator::UID;
use vstd::prelude::*;

verus! {

/// Names the element that a `Delete` removes.
#[derive(Clone, Copy, Debug, PartialEq, Eq, Structural)]
pub struct ElemDeleter {
    pub unique_id: UID,
}

} // verus!
