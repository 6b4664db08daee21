use vstd::prelude::*;

verus! {

/// What a canvas widget asks for after handling an event: publish a message, or
/// only be drawn again.
pub enum CWidgetUpdate<M> {
    MESSAGE(M),
    REDRAW,
}

} // verus!
