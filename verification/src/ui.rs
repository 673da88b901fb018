//! The frame widget component.

use vstd::prelude::*;

verus! {

/// Marker component carrying a display title: it identifies an entity as a
/// top-level drawable panel with a border.
#[derive(Debug)]
pub struct Frame {
    pub title: String,
}

} // verus!
