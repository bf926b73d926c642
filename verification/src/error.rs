use vstd::prelude::*;

verus! {

/// Why an operation of the toolkit was refused.
#[derive(Clone, Copy, PartialEq, Eq, Structural, Debug)]
pub enum GuiError {
    /// A draw was asked for while buttons exist and no function that
    /// receives their actions was ever set.
    Configuration,
    /// An index past the last widget of the kind asked for.
    Index,
    /// A draw was asked for on a drawing scope that was already handed back.
    SurfaceReleased,
}

impl GuiError {
    /// The error in words.
    pub fn message(&self) -> (s: String)
        ensures
            s@ == match *self {
                GuiError::Configuration =>
                    "Cannot draw. Actions function for buttons has not been set."@,
                GuiError::Index =>
                    "Cannot return the value of a Slider that is out of index range"@,
                GuiError::SurfaceReleased =>
                    "Cannot draw. The drawing scope has already been released."@,
            },
    {
        match self {
            GuiError::Configuration =>
                "Cannot draw. Actions function for buttons has not been set.".to_string(),
            GuiError::Index =>
                "Cannot return the value of a Slider that is out of index range".to_string(),
            GuiError::SurfaceReleased =>
                "Cannot draw. The drawing scope has already been released.".to_string(),
        }
    }
}

} // verus!
