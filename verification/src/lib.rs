//! A painting core in fixed-point arithmetic: pointer samples are coalesced,
//! resampled into evenly spaced brush dabs, and planned for compositing.
//!
//! The crate decides and computes; it never touches a window or a graphics
//! device. Its callers deliver pointer samples and execute the passes that
//! the compositor plans.
pub mod app;
pub mod brush;
pub mod color;
pub mod fixed;
pub mod input;
pub mod natural;
pub mod renderer;
pub mod stroke;
pub mod window;

pub use app::App;
pub use brush::{BrushDab, BrushParams, BrushState, InputFilterMode, PressureMapping};
pub use input::{InputQueue, PointerEvent, PointerEventSource, PointerEventType};
pub use renderer::{BlendColorSpace, Renderer};
pub use window::AppWrapper;
