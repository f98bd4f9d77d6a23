//! What the renderer computes before anything is drawn.
pub mod style;
pub mod text_renderer;
