//! A cell grid for terminal user interfaces, and the widgets that draw on it.
//!
//! A [`buffer::Buffer`] holds one [`buffer::Cell`] for every coordinate of a
//! rectangular extent. A [`widgets::Widget`] draws itself into a
//! [`layout::Rect`] of such a buffer and touches nothing outside of it.
pub mod buffer;
pub mod layout;
pub mod style;
pub mod widgets;
