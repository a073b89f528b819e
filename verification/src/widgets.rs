/// A single-line editable text field.
pub mod textfield;

pub use textfield::TextField;
pub use textfield::TextFieldError;

/// A scrollable list of selectable text items.
pub mod textlist;

pub use textlist::TextList;
pub use textlist::TextListError;
pub use textlist::TrimType;

/// A grid of bordered cells.
pub mod grid;

pub use grid::Grid;
pub use grid::GridError;
