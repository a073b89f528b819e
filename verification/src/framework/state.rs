use vstd::prelude::*;
use crate::framework::item::FrameworkItem;
use crate::layout::{Constraint, Rect};
use crate::widgets::grid::GridError;

verus! {

/// Errors returned by the framework's cursor, selection, and history
/// operations.
#[derive(Clone, Copy, Debug, PartialEq, Eq, Structural)]
pub enum FrameworkError {
    /// Moving the cursor while an item is selected is not allowed.
    MoveSelected,
    /// `select` was called while not hovering, or `deselect` while nothing
    /// was selected.
    CursorStateMismatch,
    /// No history entry at the requested position.
    NoSuchSave,
}

/// A direction for cursor movement.
#[derive(Clone, Copy, Debug, PartialEq, Eq, Structural)]
pub enum FrameworkDirection {
    Up,
    Down,
    Left,
    Right,
}

/// Facts about one item, handed to item callbacks: whether it is the
/// selected or the hovered item, and its column `x` and row `y` in the grid.
#[derive(Clone, Copy, Debug, PartialEq, Eq, Structural)]
pub struct ItemInfo {
    pub selected: bool,
    pub hover: bool,
    pub x: usize,
    pub y: usize,
}

/// The mathematical contents of a selectables index: for every row that has
/// at least one selectable item, the grid coordinates of its selectable
/// items, in order.
pub open spec fn sel_view(sel: Seq<Vec<(usize, usize)>>) -> Seq<Seq<(usize, usize)>> {
    sel.map_values(|r: Vec<(usize, usize)>| r@)
}

/// A well-formed selectables index never contains an empty row.
pub open spec fn sel_rows_nonempty(sel: Seq<Seq<(usize, usize)>>) -> bool {
    forall|i: int| 0 <= i < sel.len() ==> sel[i].len() > 0
}

/// The state and position of the cursor.
///
/// The two numbers of `Hover` and `Selected` are a column and a row in the
/// selectables index, not in the grid itself.
#[derive(Clone, Copy, Debug, PartialEq, Eq, Structural)]
pub enum CursorState {
    /// Nothing is hovered or selected.
    Idle,
    /// The cursor rests on an item without having committed input focus.
    Hover(usize, usize),
    /// An item holds input focus; movement is locked until deselected.
    Selected(usize, usize),
}

impl Default for CursorState {
    fn default() -> (r: Self)
        ensures
            r == CursorState::Idle,
    {
        CursorState::Idle
    }
}

impl CursorState {
    /// Whether the cursor, if it carries coordinates, addresses an existing
    /// slot of the selectables index; with an empty index the coordinates
    /// must have been reset to the origin.
    pub open spec fn in_bounds(self, sel: Seq<Seq<(usize, usize)>>) -> bool {
        match self {
            CursorState::Idle => true,
            CursorState::Hover(x, y) | CursorState::Selected(x, y) => if sel.len() == 0 {
                x == 0 && y == 0
            } else {
                y < sel.len() && x < sel[y as int].len()
            },
        }
    }

    pub fn is_selected(&self) -> (r: bool)
        ensures
            r == (self is Selected),
    {
        match self {
            CursorState::Selected(_, _) => true,
            _ => false,
        }
    }

    pub fn is_hover(&self) -> (r: bool)
        ensures
            r == (self is Hover),
    {
        match self {
            CursorState::Hover(_, _) => true,
            _ => false,
        }
    }

    pub fn is_none(&self) -> (r: bool)
        ensures
            r == (self is Idle),
    {
        match self {
            CursorState::Idle => true,
            _ => false,
        }
    }
}

impl CursorState {
    /// Commit input focus to the hovered item.
    ///
    /// Succeeds exactly when the cursor is hovering; the coordinates carry
    /// over unchanged. In any other state the cursor is left untouched and
    /// `CursorStateMismatch` is returned.
    pub fn select(&mut self) -> (r: Result<(), FrameworkError>)
        ensures
            r is Ok <==> *old(self) is Hover,
            *old(self) matches CursorState::Hover(x, y) ==> *final(self) == CursorState::Selected(
                x,
                y,
            ),
            !(*old(self) is Hover) ==> *final(self) == *old(self) && r == Result::<
                (),
                FrameworkError,
            >::Err(FrameworkError::CursorStateMismatch),
    {
        match *self {
            CursorState::Hover(x, y) => {
                *self = CursorState::Selected(x, y);
                Ok(())
            },
            _ => Err(FrameworkError::CursorStateMismatch),
        }
    }

    /// Release input focus, returning to hovering at the same coordinates.
    ///
    /// Succeeds exactly when an item is selected; otherwise the cursor is
    /// left untouched and `CursorStateMismatch` is returned.
    pub fn deselect(&mut self) -> (r: Result<(), FrameworkError>)
        ensures
            r is Ok <==> *old(self) is Selected,
            *old(self) matches CursorState::Selected(x, y) ==> *final(self) == CursorState::Hover(
                x,
                y,
            ),
            !(*old(self) is Selected) ==> *final(self) == *old(self) && r == Result::<
                (),
                FrameworkError,
            >::Err(FrameworkError::CursorStateMismatch),
    {
        match *self {
            CursorState::Selected(x, y) => {
                *self = CursorState::Hover(x, y);
                Ok(())
            },
            _ => Err(FrameworkError::CursorStateMismatch),
        }
    }
}

impl CursorState {
    pub fn to_hover(location: (usize, usize)) -> (r: Self)
        ensures
            r == CursorState::Hover(location.0, location.1),
    {
        CursorState::Hover(location.0, location.1)
    }

    pub fn to_selected(location: (usize, usize)) -> (r: Self)
        ensures
            r == CursorState::Selected(location.0, location.1),
    {
        CursorState::Selected(location.0, location.1)
    }

    /// The grid coordinates of the hovered item, or `None` when the cursor
    /// is not hovering or the selectables index is empty.
    pub fn hover(&self, selectables: &Vec<Vec<(usize, usize)>>) -> (r: Option<(usize, usize)>)
        requires
            self.in_bounds(sel_view(selectables@)),
        ensures
            r == self.spec_hover(sel_view(selectables@)),
    {
        match *self {
            CursorState::Hover(x, y) if selectables.len() > 0 => Some(
                Self::selectables_to_coors(selectables, (x, y)),
            ),
            _ => None,
        }
    }

    pub open spec fn spec_hover(self, sel: Seq<Seq<(usize, usize)>>) -> Option<(usize, usize)> {
        match self {
            CursorState::Hover(x, y) => if sel.len() > 0 {
                Some(sel[y as int][x as int])
            } else {
                None
            },
            _ => None,
        }
    }

    /// The grid coordinates of the selected item, or `None` when nothing is
    /// selected or the selectables index is empty.
    pub fn selected(&self, selectables: &Vec<Vec<(usize, usize)>>) -> (r: Option<(usize, usize)>)
        requires
            self.in_bounds(sel_view(selectables@)),
        ensures
            r == self.spec_selected(sel_view(selectables@)),
    {
        match *self {
            CursorState::Selected(x, y) if selectables.len() > 0 => Some(
                Self::selectables_to_coors(selectables, (x, y)),
            ),
            _ => None,
        }
    }

    pub open spec fn spec_selected(self, sel: Seq<Seq<(usize, usize)>>) -> Option<(usize, usize)> {
        match self {
            CursorState::Selected(x, y) => if sel.len() > 0 {
                Some(sel[y as int][x as int])
            } else {
                None
            },
            _ => None,
        }
    }

    /// Translate selectables-index coordinates to grid coordinates.
    fn selectables_to_coors(selectables: &Vec<Vec<(usize, usize)>>, location: (usize, usize)) -> (r:
        (usize, usize))
        requires
            location.1 < selectables@.len(),
            location.0 < selectables@[location.1 as int]@.len(),
        ensures
            r == sel_view(selectables@)[location.1 as int][location.0 as int],
    {
        let (location_x, location_y) = location;
        selectables[location_y][location_x]
    }
}

impl CursorState {
    /// The cursor after the directional step of a movement, before clamping.
    ///
    /// From `Hover`, left and up saturate at zero while right and down
    /// increment; from `None`, left and up enter at the origin while right
    /// and down enter at the far edge of their axis, to be resolved by the
    /// clamp that follows.
    pub open spec fn step_spec(self, direction: FrameworkDirection) -> CursorState
        recommends
            !(self is Selected),
    {
        match direction {
            FrameworkDirection::Up => match self {
                CursorState::Hover(x, y) => CursorState::Hover(x, if y > 0 {
                    (y - 1) as usize
                } else {
                    0
                }),
                _ => CursorState::Hover(0, 0),
            },
            FrameworkDirection::Down => match self {
                CursorState::Hover(x, y) => CursorState::Hover(x, if y < usize::MAX {
                    (y + 1) as usize
                } else {
                    y
                }),
                _ => CursorState::Hover(0, usize::MAX),
            },
            FrameworkDirection::Left => match self {
                CursorState::Hover(x, y) => CursorState::Hover(if x > 0 {
                    (x - 1) as usize
                } else {
                    0
                }, y),
                _ => CursorState::Hover(0, 0),
            },
            FrameworkDirection::Right => match self {
                CursorState::Hover(x, y) => CursorState::Hover(if x < usize::MAX {
                    (x + 1) as usize
                } else {
                    x
                }, y),
                _ => CursorState::Hover(usize::MAX, 0),
            },
        }
    }

    /// The cursor after the clamp pass: a hovering cursor is capped to the
    /// bounds of the selectables index, or reset to the origin when the
    /// index is empty.
    pub open spec fn clamp_spec(self, sel: Seq<Seq<(usize, usize)>>) -> CursorState {
        match self {
            CursorState::Hover(x, y) => if sel.len() == 0 {
                CursorState::Hover(0, 0)
            } else {
                let yc = if y < sel.len() {
                    y
                } else {
                    (sel.len() - 1) as usize
                };
                let xc = if x < sel[yc as int].len() {
                    x
                } else {
                    (sel[yc as int].len() - 1) as usize
                };
                CursorState::Hover(xc, yc)
            },
            _ => self,
        }
    }

    /// The cursor after a whole movement: unchanged when an item is
    /// selected, otherwise the directional step followed by the clamp.
    pub open spec fn move_spec(self, direction: FrameworkDirection, sel: Seq<Seq<(usize, usize)>>)
        -> CursorState {
        if self is Selected {
            self
        } else {
            self.step_spec(direction).clamp_spec(sel)
        }
    }

    /// Move the cursor in the given direction and clamp it to the bounds of
    /// the selectables index.
    ///
    /// Fails with `MoveSelected`, leaving the cursor unchanged, whenever an
    /// item is selected; otherwise the cursor ends at
    /// `move_spec(direction, selectables)`, which is always a `Hover`. The
    /// index must be a real selectables index, which never holds an empty
    /// row.
    pub fn move_cursor(
        &mut self,
        direction: FrameworkDirection,
        selectables: &Vec<Vec<(usize, usize)>>,
    ) -> (r: Result<(), FrameworkError>)
        requires
            sel_rows_nonempty(sel_view(selectables@)),
        ensures
            r is Ok <==> !(*old(self) is Selected),
            *final(self) == old(self).move_spec(direction, sel_view(selectables@)),
            *old(self) is Selected ==> r == Result::<(), FrameworkError>::Err(
                FrameworkError::MoveSelected,
            ),
    {
        let stepped: Result<(), FrameworkError> = match direction {
            FrameworkDirection::Up => self.up(),
            FrameworkDirection::Down => self.down(),
            FrameworkDirection::Left => self.left(),
            FrameworkDirection::Right => self.right(),
        };
        match stepped {
            Ok(()) => {
                self.move_check(selectables);
                Ok(())
            },
            Err(e) => Err(e),
        }
    }

    /// Clamp a hovering cursor to the bounds of the selectables index.
    fn move_check(&mut self, selectables: &Vec<Vec<(usize, usize)>>)
        requires
            *old(self) is Hover,
            sel_rows_nonempty(sel_view(selectables@)),
        ensures
            *final(self) == old(self).clamp_spec(sel_view(selectables@)),
    {
        match *self {
            CursorState::Hover(x, y) => {
                if selectables.len() == 0 {
                    *self = CursorState::Hover(0, 0);
                    return ;
                }
                let y_max: usize = selectables.len() - 1;
                let yc: usize = if y > y_max {
                    y_max
                } else {
                    y
                };
                let x_max: usize = selectables[yc].len() - 1;
                let xc: usize = if x > x_max {
                    x_max
                } else {
                    x
                };
                *self = CursorState::Hover(xc, yc);
            },
            _ => {},
        }
    }

    fn left(&mut self) -> (r: Result<(), FrameworkError>)
        ensures
            r is Ok <==> !(*old(self) is Selected),
            !(*old(self) is Selected) ==> *final(self) == old(self).step_spec(
                FrameworkDirection::Left,
            ),
            *old(self) is Selected ==> *final(self) == *old(self) && r == Result::<
                (),
                FrameworkError,
            >::Err(FrameworkError::MoveSelected),
    {
        match *self {
            CursorState::Hover(x, y) => {
                if x != 0 {
                    *self = CursorState::Hover(x - 1, y);
                }
                Ok(())
            },
            CursorState::Idle => {
                *self = CursorState::Hover(0, 0);
                Ok(())
            },
            CursorState::Selected(_, _) => Err(FrameworkError::MoveSelected),
        }
    }

    fn right(&mut self) -> (r: Result<(), FrameworkError>)
        ensures
            r is Ok <==> !(*old(self) is Selected),
            !(*old(self) is Selected) ==> *final(self) == old(self).step_spec(
                FrameworkDirection::Right,
            ),
            *old(self) is Selected ==> *final(self) == *old(self) && r == Result::<
                (),
                FrameworkError,
            >::Err(FrameworkError::MoveSelected),
    {
        match *self {
            CursorState::Hover(x, y) => {
                if x != usize::MAX {
                    *self = CursorState::Hover(x + 1, y);
                }
                Ok(())
            },
            CursorState::Idle => {
                *self = CursorState::Hover(usize::MAX, 0);
                Ok(())
            },
            CursorState::Selected(_, _) => Err(FrameworkError::MoveSelected),
        }
    }

    fn up(&mut self) -> (r: Result<(), FrameworkError>)
        ensures
            r is Ok <==> !(*old(self) is Selected),
            !(*old(self) is Selected) ==> *final(self) == old(self).step_spec(
                FrameworkDirection::Up,
            ),
            *old(self) is Selected ==> *final(self) == *old(self) && r == Result::<
                (),
                FrameworkError,
            >::Err(FrameworkError::MoveSelected),
    {
        match *self {
            CursorState::Hover(x, y) => {
                if y != 0 {
                    *self = CursorState::Hover(x, y - 1);
                }
                Ok(())
            },
            CursorState::Idle => {
                *self = CursorState::Hover(0, 0);
                Ok(())
            },
            CursorState::Selected(_, _) => Err(FrameworkError::MoveSelected),
        }
    }

    fn down(&mut self) -> (r: Result<(), FrameworkError>)
        ensures
            r is Ok <==> !(*old(self) is Selected),
            !(*old(self) is Selected) ==> *final(self) == old(self).step_spec(
                FrameworkDirection::Down,
            ),
            *old(self) is Selected ==> *final(self) == *old(self) && r == Result::<
                (),
                FrameworkError,
            >::Err(FrameworkError::MoveSelected),
    {
        match *self {
            CursorState::Hover(x, y) => {
                if y != usize::MAX {
                    *self = CursorState::Hover(x, y + 1);
                }
                Ok(())
            },
            CursorState::Idle => {
                *self = CursorState::Hover(0, usize::MAX);
                Ok(())
            },
            CursorState::Selected(_, _) => Err(FrameworkError::MoveSelected),
        }
    }
}

/// After any movement over a selectables index without empty rows, a cursor
/// that was within bounds stays within bounds, whether the movement
/// succeeded or was refused.
pub proof fn lemma_move_preserves_bounds(
    pre: CursorState,
    direction: FrameworkDirection,
    sel: Seq<Seq<(usize, usize)>>,
)
    requires
        sel_rows_nonempty(sel),
        pre.in_bounds(sel),
    ensures
        pre.move_spec(direction, sel).in_bounds(sel),
{
}

/// One item of a row, together with its width rule.
#[derive(Debug)]
pub struct RowItem {
    /// The item itself.
    pub item: FrameworkItem,
    /// Width of the item.
    pub width: Constraint,
}

impl RowItem {
    /// Both hold the same item and width.
    pub open spec fn congruent(self, other: RowItem) -> bool {
        self.item.congruent(other.item) && self.width == other.width
    }
}

impl Clone for RowItem {
    fn clone(&self) -> (r: Self)
        ensures
            r.congruent(*self),
    {
        RowItem { item: self.item.clone(), width: self.width }
    }
}

/// A row of items with its height rule and centering flag.
#[derive(Debug)]
pub struct Row {
    /// All the items in the row.
    pub items: Vec<RowItem>,
    /// Whether the row's items are centered in the available width.
    pub centered: bool,
    /// The height of the row.
    pub height: Constraint,
}

impl Row {
    /// Both rows hold the same items, flag, and height.
    pub open spec fn congruent(self, other: Row) -> bool {
        &&& self.items@.len() == other.items@.len()
        &&& forall|i: int|
            0 <= i < self.items@.len() ==> (#[trigger] self.items@[i]).congruent(other.items@[i])
        &&& self.centered == other.centered
        &&& self.height == other.height
    }
}

impl Clone for Row {
    fn clone(&self) -> (r: Self)
        ensures
            r.congruent(*self),
    {
        let mut items: Vec<RowItem> = Vec::new();
        let mut i: usize = 0;
        while i < self.items.len()
            invariant
                0 <= i <= self.items@.len(),
                items@.len() == i,
                forall|j: int|
                    0 <= j < i ==> (#[trigger] items@[j]).congruent(self.items@[j]),
            decreases self.items@.len() - i,
        {
            items.push(self.items[i].clone());
            i = i + 1;
        }
        Row { items, centered: self.centered, height: self.height }
    }
}

/// The items and the layout of the interface: an ordered list of rows.
#[derive(Debug)]
pub struct State(pub Vec<Row>);

impl State {
    /// Both states hold congruent rows.
    pub open spec fn congruent(self, other: State) -> bool {
        &&& self.0@.len() == other.0@.len()
        &&& forall|i: int| 0 <= i < self.0@.len() ==> (#[trigger] self.0@[i]).congruent(other.0@[i])
    }

    /// The other grid holds exactly the same rows and item values.
    pub open spec fn same_items(self, other: State) -> bool {
        &&& self.0@.len() == other.0@.len()
        &&& forall|y: int|
            0 <= y < self.0@.len() ==> ({
                let a = #[trigger] self.0@[y];
                let b = other.0@[y];
                &&& a.centered == b.centered
                &&& a.height == b.height
                &&& a.items@.len() == b.items@.len()
                &&& forall|x: int| 0 <= x < a.items@.len() ==> a.items@[x] == b.items@[x]
            })
    }
}

impl Clone for State {
    fn clone(&self) -> (r: Self)
        ensures
            r.congruent(*self),
    {
        let mut rows: Vec<Row> = Vec::new();
        let mut i: usize = 0;
        while i < self.0.len()
            invariant
                0 <= i <= self.0@.len(),
                rows@.len() == i,
                forall|j: int| 0 <= j < i ==> (#[trigger] rows@[j]).congruent(self.0@[j]),
            decreases self.0@.len() - i,
        {
            rows.push(self.0[i].clone());
            i = i + 1;
        }
        State(rows)
    }
}

/// The grid coordinates of the selectable items of one row at grid row
/// `y`, in column order.
pub open spec fn row_sel(items: Seq<RowItem>, y: usize) -> Seq<(usize, usize)>
    decreases items.len(),
{
    if items.len() == 0 {
        Seq::empty()
    } else {
        let prefix = row_sel(items.drop_last(), y);
        if items.last().item.spec_selectable() {
            prefix.push((((items.len() - 1) as usize), y))
        } else {
            prefix
        }
    }
}

/// The selectables index of a whole grid: the selectable coordinates of
/// each row, rows without any left out.
pub open spec fn state_sel(rows: Seq<Row>) -> Seq<Seq<(usize, usize)>>
    decreases rows.len(),
{
    if rows.len() == 0 {
        Seq::empty()
    } else {
        let prefix = state_sel(rows.drop_last());
        let last_row = row_sel(rows.last().items@, (rows.len() - 1) as usize);
        if last_row.len() == 0 {
            prefix
        } else {
            prefix.push(last_row)
        }
    }
}

/// Every coordinate a row contributes points at a selectable item of that
/// row.
pub proof fn lemma_row_sel_valid(items: Seq<RowItem>, y: usize)
    requires
        items.len() <= usize::MAX,
    ensures
        forall|k: int|
            0 <= k < row_sel(items, y).len() ==> ({
                let c = #[trigger] row_sel(items, y)[k];
                &&& c.1 == y
                &&& c.0 < items.len()
                &&& items[c.0 as int].item.spec_selectable()
            }),
    decreases items.len(),
{
    if items.len() > 0 {
        lemma_row_sel_valid(items.drop_last(), y);
        assert forall|k: int| 0 <= k < row_sel(items, y).len() implies ({
            let c = #[trigger] row_sel(items, y)[k];
            &&& c.1 == y
            &&& c.0 < items.len()
            &&& items[c.0 as int].item.spec_selectable()
        }) by {
            let prefix = row_sel(items.drop_last(), y);
            if k < prefix.len() {
                assert(row_sel(items, y)[k] == prefix[k]);
                assert(items.drop_last()[prefix[k].0 as int] == items[prefix[k].0 as int]);
            }
        }
    }
}

/// Every coordinate of the selectables index points at a selectable item
/// of the grid, and no row of the index is empty.
pub proof fn lemma_state_sel_valid(rows: Seq<Row>)
    requires
        rows.len() <= usize::MAX,
        forall|y: int| 0 <= y < rows.len() ==> (#[trigger] rows[y]).items@.len() <= usize::MAX,
    ensures
        sel_rows_nonempty(state_sel(rows)),
        forall|i: int, k: int|
            0 <= i < state_sel(rows).len() && 0 <= k < state_sel(rows)[i].len() ==> ({
                let c = #[trigger] state_sel(rows)[i][k];
                &&& c.1 < rows.len()
                &&& c.0 < rows[c.1 as int].items@.len()
                &&& rows[c.1 as int].items@[c.0 as int].item.spec_selectable()
            }),
    decreases rows.len(),
{
    if rows.len() > 0 {
        let dl = rows.drop_last();
        assert forall|y: int| 0 <= y < dl.len() implies (#[trigger] dl[y]).items@.len()
            <= usize::MAX by {
            assert(dl[y] == rows[y]);
        }
        lemma_state_sel_valid(dl);
        assert(rows[rows.len() - 1].items@.len() <= usize::MAX);
        lemma_row_sel_valid(rows.last().items@, (rows.len() - 1) as usize);
        assert forall|i: int, k: int|
            0 <= i < state_sel(rows).len() && 0 <= k < state_sel(rows)[i].len() implies ({
            let c = #[trigger] state_sel(rows)[i][k];
            &&& c.1 < rows.len()
            &&& c.0 < rows[c.1 as int].items@.len()
            &&& rows[c.1 as int].items@[c.0 as int].item.spec_selectable()
        }) by {
            let prefix = state_sel(dl);
            if i < prefix.len() {
                assert(state_sel(rows)[i] == prefix[i]);
                let c = prefix[i][k];
                assert(dl[c.1 as int] == rows[c.1 as int]);
            }
        }
    }
}

/// The selectables index only looks at how many items each row has and
/// which of them are selectable: two grids that agree on that have the
/// same index.
pub proof fn lemma_state_sel_congruent(rows1: Seq<Row>, rows2: Seq<Row>)
    requires
        rows1.len() == rows2.len(),
        forall|y: int|
            0 <= y < rows1.len() ==> (#[trigger] rows1[y]).items@.len() == rows2[y].items@.len(),
        forall|y: int, x: int|
            0 <= y < rows1.len() && 0 <= x < rows1[y].items@.len() ==> (#[trigger] rows1[y].items@[x]).item.spec_selectable() == rows2[y].items@[x].item.spec_selectable(),
    ensures
        state_sel(rows1) == state_sel(rows2),
    decreases rows1.len(),
{
    if rows1.len() > 0 {
        let y = rows1.len() - 1;
        assert(rows1[y].items@.len() == rows2[y].items@.len());
        assert forall|x: int| 0 <= x < rows1[y].items@.len() implies (
        #[trigger] rows1[y].items@[x]).item.spec_selectable()
            == rows2[y].items@[x].item.spec_selectable() by {}
        lemma_row_sel_congruent(rows1.last().items@, rows2.last().items@, y as usize);
        assert forall|yy: int|
            0 <= yy < rows1.drop_last().len() implies (#[trigger] rows1.drop_last()[yy]).items@.len()
            == rows2.drop_last()[yy].items@.len() by {
            assert(rows1.drop_last()[yy] == rows1[yy]);
        }
        assert forall|yy: int, x: int|
            0 <= yy < rows1.drop_last().len() && 0 <= x
                < rows1.drop_last()[yy].items@.len() implies (
        #[trigger] rows1.drop_last()[yy].items@[x]).item.spec_selectable() == rows2.drop_last()[yy].items@[x].item.spec_selectable() by {
            assert(rows1.drop_last()[yy] == rows1[yy]);
            assert(rows2.drop_last()[yy] == rows2[yy]);
            assert(rows1[yy].items@[x].item.spec_selectable()
                == rows2[yy].items@[x].item.spec_selectable());
        }
        lemma_state_sel_congruent(rows1.drop_last(), rows2.drop_last());
    }
}

/// The row-level counterpart of `lemma_state_sel_congruent`.
proof fn lemma_row_sel_congruent(items1: Seq<RowItem>, items2: Seq<RowItem>, y: usize)
    requires
        items1.len() == items2.len(),
        forall|x: int|
            0 <= x < items1.len() ==> (#[trigger] items1[x]).item.spec_selectable()
                == items2[x].item.spec_selectable(),
    ensures
        row_sel(items1, y) == row_sel(items2, y),
    decreases items1.len(),
{
    if items1.len() > 0 {
        assert(items1[items1.len() - 1].item.spec_selectable() == items2[items1.len()
            - 1].item.spec_selectable());
        assert forall|x: int|
            0 <= x < items1.drop_last().len() implies (
        #[trigger] items1.drop_last()[x]).item.spec_selectable() == items2.drop_last()[x].item.spec_selectable() by {
            assert(items1.drop_last()[x] == items1[x]);
            assert(items2.drop_last()[x] == items2[x]);
        }
        lemma_row_sel_congruent(items1.drop_last(), items2.drop_last(), y);
    }
}

/// The validity facts of `lemma_state_sel_valid`, for a grid held in a
/// real vector.
pub proof fn lemma_sel_valid_for(state: State)
    ensures
        sel_rows_nonempty(state_sel(state.0@)),
        forall|i: int, k: int|
            0 <= i < state_sel(state.0@).len() && 0 <= k < state_sel(state.0@)[i].len() ==> ({
                let c = #[trigger] state_sel(state.0@)[i][k];
                &&& c.1 < state.0@.len()
                &&& c.0 < state.0@[c.1 as int].items@.len()
                &&& state.0@[c.1 as int].items@[c.0 as int].item.spec_selectable()
            }),
{
    assert(state.0.len() == state.0@.len());
    assert forall|y: int| 0 <= y < state.0@.len() implies (#[trigger] state.0@[y]).items@.len()
        <= usize::MAX by {
        assert(state.0@[y].items.len() == state.0@[y].items@.len());
    }
    lemma_state_sel_valid(state.0@);
}

/// Two grids with the same item values derive the same selectables index.
pub proof fn lemma_same_items_sel(s1: State, s2: State)
    requires
        s1.same_items(s2),
    ensures
        state_sel(s1.0@) == state_sel(s2.0@),
{
    assert forall|y: int| 0 <= y < s1.0@.len() implies (#[trigger] s1.0@[y]).items@.len()
        == s2.0@[y].items@.len() by {}
    assert forall|y: int, x: int|
        0 <= y < s1.0@.len() && 0 <= x < s1.0@[y].items@.len() implies (
    #[trigger] s1.0@[y].items@[x]).item.spec_selectable()
        == s2.0@[y].items@[x].item.spec_selectable() by {
        assert(s1.0@[y].items@[x] == s2.0@[y].items@[x]);
    }
    lemma_state_sel_congruent(s1.0@, s2.0@);
}

impl State {
    /// Generate the selectables index: the grid coordinates of every
    /// selectable item, row by row, rows without any left out.
    pub fn selectables(&self) -> (r: Vec<Vec<(usize, usize)>>)
        ensures
            sel_view(r@) == state_sel(self.0@),
    {
        let mut selectables: Vec<Vec<(usize, usize)>> = Vec::new();
        let mut y: usize = 0;
        while y < self.0.len()
            invariant
                0 <= y <= self.0@.len(),
                sel_view(selectables@) == state_sel(self.0@.take(y as int)),
            decreases self.0@.len() - y,
        {
            let row: &Row = &self.0[y];
            let mut row_selectables: Vec<(usize, usize)> = Vec::new();
            let mut x: usize = 0;
            while x < row.items.len()
                invariant
                    0 <= x <= row.items@.len(),
                    row == self.0@[y as int],
                    0 <= y < self.0@.len(),
                    row_selectables@ == row_sel(row.items@.take(x as int), y),
                decreases row.items@.len() - x,
            {
                proof {
                    assert(row.items@.take(x + 1).drop_last() =~= row.items@.take(x as int));
                }
                if row.items[x].item.selectable() {
                    row_selectables.push((x, y));
                }
                x = x + 1;
            }
            proof {
                assert(row.items@.take(row.items@.len() as int) =~= row.items@);
                assert(self.0@.take(y + 1).drop_last() =~= self.0@.take(y as int));
                assert(self.0@.take(y + 1).last() == self.0@[y as int]);
            }
            if row_selectables.len() > 0 {
                selectables.push(row_selectables);
                proof {
                    assert(sel_view(selectables@) =~= state_sel(self.0@.take(y + 1)));
                }
            } else {
                proof {
                    assert(sel_view(selectables@) =~= state_sel(self.0@.take(y + 1)));
                }
            }
            y = y + 1;
        }
        proof {
            assert(self.0@.take(self.0@.len() as int) =~= self.0@);
        }
        selectables
    }

    /// A reference to the item in column `x` of row `y`.
    pub fn get(&self, x: usize, y: usize) -> (r: &FrameworkItem)
        requires
            y < self.0@.len(),
            x < self.0@[y as int].items@.len(),
        ensures
            *r == self.0@[y as int].items@[x as int].item,
    {
        &self.0[y].items[x].item
    }

    /// A mutable reference to the item in column `x` of row `y`; the rest
    /// of the grid keeps its shape and contents.
    pub fn get_mut(&mut self, x: usize, y: usize) -> (r: &mut FrameworkItem)
        requires
            y < old(self).0@.len(),
            x < old(self).0@[y as int].items@.len(),
        ensures
            *r == old(self).0@[y as int].items@[x as int].item,
            final(self).0@.len() == old(self).0@.len(),
            forall|yy: int|
                0 <= yy < old(self).0@.len() && yy != y ==> final(self).0@[yy] == old(self).0@[yy],
            final(self).0@[y as int].centered == old(self).0@[y as int].centered,
            final(self).0@[y as int].height == old(self).0@[y as int].height,
            final(self).0@[y as int].items@.len() == old(self).0@[y as int].items@.len(),
            forall|xx: int|
                0 <= xx < old(self).0@[y as int].items@.len() && xx != x ==> final(self).0@[y as int].items@[xx] == old(self).0@[y as int].items@[xx],
            final(self).0@[y as int].items@[x as int].width == old(self).0@[y as int].items@[x as int].width,
            final(self).0@[y as int].items@[x as int].item == *final(r),
    {
        &mut self.0[y].items[x].item
    }
}


/// The total width of the first `k` items of a row, each width rule
/// resolved against the row's available span.
pub open spec fn row_widths_sum(items: Seq<RowItem>, width: u16, k: int) -> int
    decreases k,
{
    if k <= 0 {
        0
    } else {
        row_widths_sum(items, width, k - 1) + items[k - 1].width.spec_apply(width)
    }
}

/// The total height of the first `k` rows, each height rule resolved
/// against the available height.
pub open spec fn rows_heights_sum(rows: Seq<Row>, height: u16, k: int) -> int
    decreases k,
{
    if k <= 0 {
        0
    } else {
        rows_heights_sum(rows, height, k - 1) + rows[k - 1].height.spec_apply(height)
    }
}

/// The leading padding of a row: half the leftover width for a centered
/// row, rounded down, and nothing otherwise.
pub open spec fn row_lead(row: Row, width: u16) -> int {
    if row.centered {
        (width - row_widths_sum(row.items@, width, row.items@.len() as int)) / 2
    } else {
        0
    }
}

/// Whether the rows' resolved heights fit in the area's height and every
/// row's resolved widths fit in the area's width.
pub open spec fn chunks_fit(rows: Seq<Row>, area: Rect) -> bool {
    &&& rows_heights_sum(rows, area.height, rows.len() as int) <= area.height
    &&& forall|y: int|
        0 <= y < rows.len() ==> row_widths_sum(
            (#[trigger] rows[y]).items@,
            area.width,
            rows[y].items@.len() as int,
        ) <= area.width
}

/// The rectangle of the item in column `x` of row `y`: rows are stacked
/// from the area's top, items are laid side by side after the row's
/// leading padding.
pub open spec fn chunk_spec(rows: Seq<Row>, area: Rect, x: int, y: int) -> Rect {
    Rect {
        x: (area.x + row_lead(rows[y], area.width) + row_widths_sum(
            rows[y].items@,
            area.width,
            x,
        )) as u16,
        y: (area.y + rows_heights_sum(rows, area.height, y)) as u16,
        width: rows[y].items@[x].width.spec_apply(area.width) as u16,
        height: rows[y].height.spec_apply(area.height) as u16,
    }
}

/// Partial width sums only grow along a row.
pub proof fn lemma_row_widths_sum_mono(items: Seq<RowItem>, width: u16, a: int, b: int)
    requires
        a <= b,
    ensures
        row_widths_sum(items, width, a) <= row_widths_sum(items, width, b),
    decreases b - a,
{
    if a < b {
        lemma_row_widths_sum_mono(items, width, a, b - 1);
    }
}

/// Partial height sums only grow down the rows.
pub proof fn lemma_rows_heights_sum_mono(rows: Seq<Row>, height: u16, a: int, b: int)
    requires
        a <= b,
    ensures
        rows_heights_sum(rows, height, a) <= rows_heights_sum(rows, height, b),
    decreases b - a,
{
    if a < b {
        lemma_rows_heights_sum_mono(rows, height, a, b - 1);
    }
}

/// Centered-row layout: the space left of a centered row's first item and
/// the space right of its last item differ by at most one cell.
pub proof fn lemma_centered_row_padding(rows: Seq<Row>, area: Rect, y: int)
    requires
        0 <= y < rows.len(),
        rows[y].centered,
        rows[y].items@.len() > 0,
        chunks_fit(rows, area),
        area.wf(),
    ensures
        ({
            let row = rows[y];
            let n = row.items@.len() as int;
            let first = chunk_spec(rows, area, 0, y);
            let last = chunk_spec(rows, area, n - 1, y);
            let lead = first.x - area.x;
            let trail = area.x + area.width - (last.x + last.width);
            &&& lead <= trail
            &&& trail <= lead + 1
        }),
{
    let row = rows[y];
    let n = row.items@.len() as int;
    let total = row_widths_sum(row.items@, area.width, n);
    let lead = row_lead(row, area.width);
    lemma_row_widths_sum_mono(row.items@, area.width, 0, n);
    lemma_row_widths_sum_mono(row.items@, area.width, n - 1, n);
    lemma_rows_heights_sum_mono(rows, area.height, 0, y);
    lemma_rows_heights_sum_mono(rows, area.height, y, rows.len() as int);
    assert(row_widths_sum(row.items@, area.width, n) == row_widths_sum(
        row.items@,
        area.width,
        n - 1,
    ) + row.items@[n - 1].width.spec_apply(area.width));
    assert(lead == (area.width - total) / 2);
    assert(lead * 2 <= area.width - total) by (nonlinear_arith)
        requires
            lead == (area.width - total) / 2,
            0 <= total <= area.width,
    ;
    assert(area.width - total <= lead * 2 + 1) by (nonlinear_arith)
        requires
            lead == (area.width - total) / 2,
            0 <= total <= area.width,
    ;
    assert(0 <= lead);
    assert(lead + total <= area.width);
    let wprev = row_widths_sum(row.items@, area.width, n - 1);
    let wlast = row.items@[n - 1].width.spec_apply(area.width);
    assert(wprev + wlast == total);
    assert(row_widths_sum(row.items@, area.width, 0) == 0);
    lemma_row_widths_sum_mono(row.items@, area.width, 0, n - 1);
    assert(0 <= wlast) by {
        match row.items@[n - 1].width {
            Constraint::Length(_) => {},
            Constraint::Percentage(_) => {},
            Constraint::Min(_) => {},
        }
    }
    assert(area.x + lead + wprev <= area.x + area.width <= u16::MAX);
    let first = chunk_spec(rows, area, 0, y);
    let last = chunk_spec(rows, area, n - 1, y);
    assert(first.x == area.x + lead);
    assert(last.x == area.x + lead + wprev);
    assert(last.width == wlast);
    assert(last.x + last.width == area.x + lead + total);
}

impl State {
    /// Split `area` into one rectangle per item: rows are stacked from the
    /// top, sized by their height rules; each row is split by its items'
    /// width rules, shifted right by half the leftover width when the row
    /// is centered.
    ///
    /// Fails with `NotEnoughLength`, changing nothing, exactly when the
    /// resolved heights together exceed the area's height or some row's
    /// resolved widths together exceed its width.
    pub fn get_chunks(&self, area: Rect) -> (r: Result<Vec<Vec<Rect>>, GridError>)
        requires
            area.wf(),
        ensures
            r is Ok <==> chunks_fit(self.0@, area),
            r matches Ok(c) ==> ({
                &&& c@.len() == self.0@.len()
                &&& forall|y: int|
                    0 <= y < c@.len() ==> (#[trigger] c@[y])@.len() == self.0@[y].items@.len()
                &&& forall|y: int, x: int|
                    0 <= y < c@.len() && 0 <= x < self.0@[y].items@.len() ==> (#[trigger] c@[y]@[x])
                        == chunk_spec(self.0@, area, x, y)
            }),
            r is Err ==> r == Result::<Vec<Vec<Rect>>, GridError>::Err(GridError::NotEnoughLength),
    {
        // first pass: check that everything fits
        let mut acc: u16 = 0;
        let mut y: usize = 0;
        while y < self.0.len()
            invariant
                0 <= y <= self.0@.len(),
                acc == rows_heights_sum(self.0@, area.height, y as int),
                acc <= area.height,
                forall|yy: int|
                    0 <= yy < y ==> row_widths_sum(
                        (#[trigger] self.0@[yy]).items@,
                        area.width,
                        self.0@[yy].items@.len() as int,
                    ) <= area.width,
            decreases self.0@.len() - y,
        {
            let h: u16 = self.0[y].height.apply(area.height);
            if h > area.height - acc {
                proof {
                    lemma_rows_heights_sum_mono(
                        self.0@,
                        area.height,
                        y + 1,
                        self.0@.len() as int,
                    );
                }
                return Err(GridError::NotEnoughLength);
            }
            acc = acc + h;
            let row: &Row = &self.0[y];
            let mut wacc: u16 = 0;
            let mut x: usize = 0;
            while x < row.items.len()
                invariant
                    0 <= x <= row.items@.len(),
                    row == self.0@[y as int],
                    0 <= y < self.0@.len(),
                    wacc == row_widths_sum(row.items@, area.width, x as int),
                    wacc <= area.width,
                decreases row.items@.len() - x,
            {
                let w: u16 = row.items[x].width.apply(area.width);
                if w > area.width - wacc {
                    proof {
                        lemma_row_widths_sum_mono(
                            row.items@,
                            area.width,
                            x + 1,
                            row.items@.len() as int,
                        );
                    }
                    return Err(GridError::NotEnoughLength);
                }
                wacc = wacc + w;
                x = x + 1;
            }
            y = y + 1;
        }
        // second pass: build the rectangles
        let mut out: Vec<Vec<Rect>> = Vec::new();
        let mut ypos: u16 = area.y;
        let mut y: usize = 0;
        while y < self.0.len()
            invariant
                0 <= y <= self.0@.len(),
                area.wf(),
                chunks_fit(self.0@, area),
                ypos == area.y + rows_heights_sum(self.0@, area.height, y as int),
                out@.len() == y,
                forall|yy: int|
                    0 <= yy < y ==> (#[trigger] out@[yy])@.len() == self.0@[yy].items@.len(),
                forall|yy: int, x: int|
                    0 <= yy < y && 0 <= x < self.0@[yy].items@.len() ==> (#[trigger] out@[yy]@[x])
                        == chunk_spec(self.0@, area, x, yy),
            decreases self.0@.len() - y,
        {
            proof {
                lemma_rows_heights_sum_mono(self.0@, area.height, y + 1, self.0@.len() as int);
                lemma_rows_heights_sum_mono(self.0@, area.height, 0, y as int);
            }
            let row: &Row = &self.0[y];
            let h: u16 = row.height.apply(area.height);
            let n: usize = row.items.len();
            let mut wacc: u16 = 0;
            let mut x: usize = 0;
            // the row's total width, for the centering offset
            while x < n
                invariant
                    0 <= x <= n,
                    n == row.items@.len(),
                    row == self.0@[y as int],
                    0 <= y < self.0@.len(),
                    area.wf(),
                    chunks_fit(self.0@, area),
                    wacc == row_widths_sum(row.items@, area.width, x as int),
                    wacc <= area.width,
                decreases n - x,
            {
                proof {
                    lemma_row_widths_sum_mono(row.items@, area.width, x + 1, n as int);
                }
                wacc = wacc + row.items[x].width.apply(area.width);
                x = x + 1;
            }
            let lead: u16 = if row.centered {
                (area.width - wacc) / 2
            } else {
                0
            };
            let mut rects: Vec<Rect> = Vec::new();
            let mut xpos: u16 = area.x + lead;
            let mut x: usize = 0;
            while x < n
                invariant
                    0 <= x <= n,
                    n == row.items@.len(),
                    row == self.0@[y as int],
                    0 <= y < self.0@.len(),
                    area.wf(),
                    chunks_fit(self.0@, area),
                    lead == row_lead(self.0@[y as int], area.width),
                    lead + row_widths_sum(row.items@, area.width, n as int) <= area.width,
                    ypos == area.y + rows_heights_sum(self.0@, area.height, y as int),
                    ypos + h <= u16::MAX,
                    h == self.0@[y as int].height.spec_apply(area.height),
                    xpos == area.x + lead + row_widths_sum(row.items@, area.width, x as int),
                    rects@.len() == x,
                    forall|xx: int|
                        0 <= xx < x ==> (#[trigger] rects@[xx]) == chunk_spec(
                            self.0@,
                            area,
                            xx,
                            y as int,
                        ),
                decreases n - x,
            {
                proof {
                    lemma_row_widths_sum_mono(row.items@, area.width, x + 1, n as int);
                }
                let w: u16 = row.items[x].width.apply(area.width);
                rects.push(Rect { x: xpos, y: ypos, width: w, height: h });
                xpos = xpos + w;
                x = x + 1;
            }
            out.push(rects);
            ypos = ypos + h;
            y = y + 1;
        }
        Ok(out)
    }
}


} // verus!
