use vstd::prelude::*;
use crate::draw_handle::DrawHandle;
use crate::types::Point;

verus! {

/// What every widget can do during a frame. `T` is what a click yields.
pub trait GuiComponentBehaviour<T> {
    /// Paints the widget on `draw_handler`.
    fn draw(&mut self, draw_handler: &mut DrawHandle);

    /// Whether the pointer at `mouse_position` hovers over the widget.
    fn is_hovered(&mut self, mouse_position: Point) -> bool;

    /// Tells the widget where the pointer is and whether the button that it
    /// listens to is active.
    fn is_clicked(&mut self, mouse_position: Point, is_clicked: bool) -> T;
}

} // verus!
