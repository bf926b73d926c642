//! An immediate-mode widget toolkit: buttons, sliders, labels and dropdowns
//! that are laid out, painted and hit-tested once per frame. The toolkit
//! draws on a `DrawHandle`, which queues what the renderer is to paint, and
//! learns of the pointer from it.

pub mod button;
pub mod common;
pub mod draw_handle;
pub mod dropdown;
pub mod error;
pub mod fraction;
pub mod gui_component;
pub mod gui_handler;
pub mod gui_theme;
pub mod label;
pub mod model;
pub mod prelude;
pub mod slider;
pub mod traits;
pub mod types;
