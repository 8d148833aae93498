//! Geometry and styling for terminal user interfaces: coordinates,
//! rectangles, colours, text styles and the state of components.

pub mod coord;
pub mod rect;
pub mod color;
pub mod style;
pub mod component_state;
pub mod label;
pub mod window;
pub mod layout;
pub mod rendering;
