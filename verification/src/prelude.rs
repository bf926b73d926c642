pub use crate::button::{Button, ButtonView};
pub use crate::common::{is_inside, DrawableType};
pub use crate::draw_handle::{DrawCommand, DrawHandle};
pub use crate::dropdown::Dropdown;
pub use crate::error::GuiError;
pub use crate::fraction::Fraction;
pub use crate::gui_component::GuiComponentBehaviour;
pub use crate::gui_handler::GuiHandler;
pub use crate::gui_theme::{state_get_colour, StateColour};
pub use crate::label::Label;
pub use crate::slider::Slider;
pub use crate::traits::Drawable;
pub use crate::types::{Colour, Dimensions, Point, Pointer};
