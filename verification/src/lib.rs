//! Additions for building declarative terminal user interfaces: a grid-based
//! layout and selection framework together with a few self-contained widgets.

/// Geometry: rectangles and sizing rules.
pub mod layout;

/// The declarative TUI framework: grid state, cursor, history, dispatch.
pub mod framework;

/// Additional widgets, usable on their own or as framework items.
pub mod widgets;

/// Styling data carried by widgets; painting happens outside this crate.
pub mod style;

/// Grapheme segmentation helpers for unicode-aware text handling.
pub mod graphemes;
