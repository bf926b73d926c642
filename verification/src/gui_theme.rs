use vstd::prelude::*;
use crate::types::{dark_gray, gray, ray_white, Colour};

verus! {

/// The interaction states that the theme gives a color to.
#[derive(Clone, Copy, PartialEq, Eq, Structural, Debug)]
pub enum StateColour {
    Hovered,
    Active,
    Default,
    Text,
}

/// The theme: the color of each state.
pub open spec fn state_colour(state: StateColour) -> Colour {
    match state {
        StateColour::Hovered | StateColour::Active => Colour::dark_gray(),
        StateColour::Default => Colour::gray(),
        StateColour::Text => Colour::ray_white(),
    }
}

/// The color that the theme gives to `state`.
pub fn state_get_colour(state: StateColour) -> (c: Colour)
    ensures
        c == state_colour(state),
{
    match state {
        StateColour::Hovered | StateColour::Active => dark_gray(),
        StateColour::Default => gray(),
        StateColour::Text => ray_white(),
    }
}

} // verus!
