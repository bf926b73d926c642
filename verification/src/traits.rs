use vstd::prelude::*;
use crate::draw_handle::DrawHandle;

verus! {

/// Allows for external objects to be drawn before any GUI elements are
/// drawn, effectively making a new layer beneath the GUI.
pub trait Drawable {
    fn draw(&mut self, draw_handler: &mut DrawHandle);
}

} // verus!
