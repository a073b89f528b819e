use vstd::prelude::*;
use crate::framework::frameworkdata::FrameworkData;
use crate::framework::state::CursorState;
use crate::layout::Rect;

verus! {

/// The context handle of the framework: everything an item callback may
/// touch while the grid itself is being traversed. During dispatch the
/// framework lends an item callback this part of itself and the one
/// addressed item, and nothing else: the rest of the grid stays out of
/// reach, so a callback can never reshape the collection it is called
/// from.
#[derive(Debug)]
pub struct FrameworkClean {
    /// Selectable items, regenerated whenever the grid is replaced.
    pub selectables: Vec<Vec<(usize, usize)>>,
    /// The two-tier context store.
    pub data: FrameworkData,
    /// The state and position of the cursor.
    pub cursor: CursorState,
    /// The area of the previous frame, if anything was rendered yet.
    pub frame_area: Option<Rect>,
}

} // verus!
