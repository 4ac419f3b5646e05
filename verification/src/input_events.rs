//! Classification of input events.
//!
//! The windowing layer that produces input events stays with the
//! embedding code; this crate owns the event classification that
//! handlers register under.

use vstd::prelude::*;

verus! {

/// The kind of an input event, used as a registration key by event
/// handlers.
#[derive(Clone, Copy, Debug, PartialEq, Eq, Structural, Hash)]
pub enum InputEventType {
    MouseClicked,
    MouseClickedWithCoordinates,
    MouseCoordinates,
}

} // verus!
