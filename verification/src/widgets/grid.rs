use vstd::prelude::*;
use crate::layout::{Constraint, Rect};
use crate::style::{BorderType, LineSet, Style};

verus! {

/// Errors returned by the grid widget.
#[derive(Clone, Copy, Debug, PartialEq, Eq, Structural)]
pub enum GridError {
    /// The available span cannot hold the cells plus their border lines.
    NotEnoughLength,
    /// A grid must have at least one column and one row.
    ZeroLength,
}

/// A widget drawing a grid of bordered cells.
///
/// The grid itself only computes cell rectangles and border glyphs; putting
/// them on a screen is the host's concern.
#[derive(Debug)]
pub struct Grid {
    /// Sizing rule of each column.
    pub widths: Vec<Constraint>,
    /// Sizing rule of each row.
    pub heights: Vec<Constraint>,
    /// Which glyph family draws the lines.
    pub border_type: BorderType,
    /// Style of the lines.
    pub border_style: Style,
}

impl Clone for Grid {
    fn clone(&self) -> (r: Self)
        ensures
            r.widths@ == self.widths@,
            r.heights@ == self.heights@,
            r.border_type == self.border_type,
            r.border_style == self.border_style,
    {
        let r = Grid {
            widths: self.widths.clone(),
            heights: self.heights.clone(),
            border_type: self.border_type,
            border_style: self.border_style,
        };
        proof {
            assert(r.widths@ =~= self.widths@);
            assert(r.heights@ =~= self.heights@);
        }
        r
    }
}

impl Grid {
    /// Make a grid from column and row sizing rules; either list being
    /// empty is refused with `ZeroLength`.
    pub fn new(widths: Vec<Constraint>, heights: Vec<Constraint>) -> (r: Result<Self, GridError>)
        ensures
            r is Ok <==> (widths@.len() > 0 && heights@.len() > 0),
            r matches Ok(g) ==> g.widths@ == widths@ && g.heights@ == heights@ && g.border_type
                == BorderType::Plain && g.border_style == Style::plain(),
            r is Err ==> r == Result::<Self, GridError>::Err(GridError::ZeroLength),
    {
        if widths.len() == 0 || heights.len() == 0 {
            return Err(GridError::ZeroLength);
        }
        Ok(
            Grid {
                widths,
                heights,
                border_type: BorderType::Plain,
                border_style: Style::new(),
            },
        )
    }
}

/// What each rule resolves to once the span has set aside one cell per
/// border line: rule `i` applied to `length - n`, where `n` counts the
/// rules.
pub open spec fn resolved_lengths(constraints: Seq<Constraint>, length: u16) -> Seq<int> {
    constraints.map_values(|c: Constraint| c.spec_apply((length - constraints.len()) as u16))
}

/// The distance from the first border line to line `k`: each of the first
/// `k` bands takes its length plus the one cell of the line before it.
pub open spec fn lines_prefix(lengths: Seq<u16>, k: int) -> int
    decreases k,
{
    if k <= 0 {
        0
    } else {
        lines_prefix(lengths, k - 1) + 1 + lengths[k - 1]
    }
}

impl Grid {
    /// Resolve sizing rules against a span of `length` cells, after setting
    /// aside one cell per rule for border lines. Fails with
    /// `NotEnoughLength` when the span cannot even hold the lines.
    pub fn lengths(constraints: &Vec<Constraint>, length: u16) -> (r: Result<Vec<u16>, GridError>)
        ensures
            r is Ok <==> length as int > constraints@.len(),
            r matches Ok(v) ==> v@.len() == constraints@.len() && (forall|i: int|
                0 <= i < v@.len() ==> v@[i] == resolved_lengths(constraints@, length)[i]),
            r is Err ==> r == Result::<Vec<u16>, GridError>::Err(GridError::NotEnoughLength),
    {
        if length as usize <= constraints.len() {
            return Err(GridError::NotEnoughLength);
        }
        let span: u16 = length - constraints.len() as u16;
        let mut out: Vec<u16> = Vec::new();
        let mut i: usize = 0;
        while i < constraints.len()
            invariant
                0 <= i <= constraints@.len(),
                constraints@.len() < length,
                span == length - constraints@.len(),
                out@.len() == i,
                forall|j: int|
                    0 <= j < i ==> out@[j] == resolved_lengths(constraints@, length)[j],
            decreases constraints@.len() - i,
        {
            out.push(constraints[i].apply(span));
            i = i + 1;
        }
        Ok(out)
    }

    /// The positions of the border lines around bands of the given lengths:
    /// one line before each band and one after the last.
    pub fn lines(position: u16, lengths: &Vec<u16>) -> (r: Vec<u16>)
        requires
            position + lines_prefix(lengths@, lengths@.len() as int) <= u16::MAX,
        ensures
            r@.len() == lengths@.len() + 1,
            forall|k: int| 0 <= k <= lengths@.len() ==> r@[k] == position + lines_prefix(lengths@, k),
    {
        proof {
            lemma_lines_prefix_mono(lengths@, lengths@.len() as int);
        }
        let mut out: Vec<u16> = Vec::new();
        let mut pos: u16 = position;
        let mut i: usize = 0;
        out.push(pos);
        while i < lengths.len()
            invariant
                0 <= i <= lengths@.len(),
                position + lines_prefix(lengths@, lengths@.len() as int) <= u16::MAX,
                pos == position + lines_prefix(lengths@, i as int),
                out@.len() == i + 1,
                forall|k: int| 0 <= k <= i ==> out@[k] == position + lines_prefix(lengths@, k),
            decreases lengths@.len() - i,
        {
            proof {
                lemma_lines_prefix_mono_from(lengths@, i + 1, lengths@.len() as int);
            }
            pos = pos + 1 + lengths[i];
            out.push(pos);
            i = i + 1;
        }
        out
    }

    /// Resolve the row rules against a height, with the span shortened by
    /// one cell for the closing line.
    pub fn heights(&self, height: u16) -> (r: Result<Vec<u16>, GridError>)
        ensures
            r is Ok <==> height as int > self.heights@.len() + 1,
            r matches Ok(v) ==> v@.len() == self.heights@.len() && (forall|i: int|
                0 <= i < v@.len() ==> v@[i] == resolved_lengths(
                    self.heights@,
                    (height - 1) as u16,
                )[i]),
            r is Err ==> r == Result::<Vec<u16>, GridError>::Err(GridError::NotEnoughLength),
    {
        if height == 0 {
            return Err(GridError::NotEnoughLength);
        }
        Self::lengths(&self.heights, height - 1)
    }

    /// Resolve the column rules against a width, with the span shortened by
    /// one cell for the closing line.
    pub fn widths(&self, width: u16) -> (r: Result<Vec<u16>, GridError>)
        ensures
            r is Ok <==> width as int > self.widths@.len() + 1,
            r matches Ok(v) ==> v@.len() == self.widths@.len() && (forall|i: int|
                0 <= i < v@.len() ==> v@[i] == resolved_lengths(self.widths@, (width - 1) as u16)[i]),
            r is Err ==> r == Result::<Vec<u16>, GridError>::Err(GridError::NotEnoughLength),
    {
        if width == 0 {
            return Err(GridError::NotEnoughLength);
        }
        Self::lengths(&self.widths, width - 1)
    }
}

/// Prefix distances only grow with `k`.
proof fn lemma_lines_prefix_mono(lengths: Seq<u16>, k: int)
    ensures
        forall|j: int| 0 <= j <= k ==> lines_prefix(lengths, j) <= lines_prefix(lengths, k),
    decreases k,
{
    if k > 0 {
        lemma_lines_prefix_mono(lengths, k - 1);
    }
}

/// Prefix distances grow between any two positions.
proof fn lemma_lines_prefix_mono_from(lengths: Seq<u16>, a: int, b: int)
    requires
        a <= b,
    ensures
        lines_prefix(lengths, a) <= lines_prefix(lengths, b),
    decreases b - a,
{
    if a < b {
        lemma_lines_prefix_mono_from(lengths, a + 1, b);
    }
}

/// The grid's cell rectangle in column `j`, row `i`: one cell to the right
/// of and below the border lines at those positions.
pub open spec fn grid_chunk_spec(area: Rect, widths: Seq<u16>, heights: Seq<u16>, j: int, i: int)
    -> Rect {
    Rect {
        x: (area.x + lines_prefix(widths, j) + 1) as u16,
        y: (area.y + lines_prefix(heights, i) + 1) as u16,
        width: widths[j],
        height: heights[i],
    }
}

impl Grid {
    /// The rectangles of the grid's cells inside `area`, row by row.
    ///
    /// Fails with `NotEnoughLength` when the area cannot hold the cells and
    /// their border lines, or when a resolved position would leave the
    /// `u16` coordinate space.
    pub fn chunks(&self, area: Rect) -> (r: Result<Vec<Vec<Rect>>, GridError>)
        ensures
            r matches Ok(rows) ==> ({
                let widths = resolved_lengths(self.widths@, (area.width - 1) as u16);
                let heights = resolved_lengths(self.heights@, (area.height - 1) as u16);
                &&& area.width as int > self.widths@.len() + 1
                &&& area.height as int > self.heights@.len() + 1
                &&& rows@.len() == self.heights@.len()
                &&& forall|i: int|
                    0 <= i < rows@.len() ==> #[trigger] rows@[i]@.len() == self.widths@.len()
                &&& forall|i: int, j: int|
                    0 <= i < rows@.len() && 0 <= j < self.widths@.len() ==> rows@[i]@[j]
                        == grid_chunk_spec(
                        area,
                        widths.map_values(|v: int| v as u16),
                        heights.map_values(|v: int| v as u16),
                        j,
                        i,
                    )
            }),
            r is Err ==> r == Result::<Vec<Vec<Rect>>, GridError>::Err(GridError::NotEnoughLength)
                || r == Result::<Vec<Vec<Rect>>, GridError>::Err(GridError::ZeroLength),
    {
        let widths = self.widths(area.width)?;
        let heights = self.heights(area.height)?;
        if !fits_in_u16(area.x, &widths) || !fits_in_u16(area.y, &heights) {
            return Err(GridError::NotEnoughLength);
        }
        let xs = Self::lines(area.x, &widths);
        let ys = Self::lines(area.y, &heights);
        let mut rows: Vec<Vec<Rect>> = Vec::new();
        let mut i: usize = 0;
        while i < heights.len()
            invariant
                0 <= i <= heights@.len(),
                xs@.len() == widths@.len() + 1,
                ys@.len() == heights@.len() + 1,
                area.x + lines_prefix(widths@, widths@.len() as int) + 1 <= u16::MAX + 1,
                area.y + lines_prefix(heights@, heights@.len() as int) + 1 <= u16::MAX + 1,
                forall|k: int|
                    0 <= k <= widths@.len() ==> xs@[k] == area.x + lines_prefix(widths@, k),
                forall|k: int|
                    0 <= k <= heights@.len() ==> ys@[k] == area.y + lines_prefix(heights@, k),
                rows@.len() == i,
                forall|a: int, b: int|
                    0 <= a < i && 0 <= b < widths@.len() ==> rows@[a]@[b] == grid_chunk_spec(
                        area,
                        widths@,
                        heights@,
                        b,
                        a,
                    ),
                forall|a: int| 0 <= a < i ==> #[trigger] rows@[a]@.len() == widths@.len(),
            decreases heights@.len() - i,
        {
            proof {
                lemma_lines_prefix_mono(heights@, heights@.len() as int);
            }
            let mut row: Vec<Rect> = Vec::new();
            let mut j: usize = 0;
            while j < widths.len()
                invariant
                    0 <= j <= widths@.len(),
                    0 <= i < heights@.len(),
                    xs@.len() == widths@.len() + 1,
                    ys@.len() == heights@.len() + 1,
                    area.x + lines_prefix(widths@, widths@.len() as int) + 1 <= u16::MAX + 1,
                    area.y + lines_prefix(heights@, heights@.len() as int) + 1 <= u16::MAX + 1,
                    forall|k: int|
                        0 <= k <= widths@.len() ==> xs@[k] == area.x + lines_prefix(widths@, k),
                    forall|k: int|
                        0 <= k <= heights@.len() ==> ys@[k] == area.y + lines_prefix(heights@, k),
                    row@.len() == j,
                    forall|b: int|
                        0 <= b < j ==> row@[b] == grid_chunk_spec(area, widths@, heights@, b, i as int),
                decreases widths@.len() - j,
            {
                proof {
                    lemma_lines_prefix_mono_from(widths@, j + 1, widths@.len() as int);
                    lemma_lines_prefix_mono_from(heights@, i + 1, heights@.len() as int);
                }
                let rect = Rect::new(xs[j] + 1, ys[i] + 1, widths[j], heights[i]);
                row.push(rect);
                j = j + 1;
            }
            rows.push(row);
            i = i + 1;
        }
        proof {
            let widths_spec = resolved_lengths(self.widths@, (area.width - 1) as u16);
            let heights_spec = resolved_lengths(self.heights@, (area.height - 1) as u16);
            assert(widths@ =~= widths_spec.map_values(|v: int| v as u16));
            assert(heights@ =~= heights_spec.map_values(|v: int| v as u16));
        }
        Ok(rows)
    }
}

/// Whether the last border line around bands of the given lengths would
/// still lie within the `u16` coordinate space.
fn fits_in_u16(position: u16, lengths: &Vec<u16>) -> (r: bool)
    ensures
        r == (position + lines_prefix(lengths@, lengths@.len() as int) <= u16::MAX),
{
    let mut acc: u64 = position as u64;
    let mut i: usize = 0;
    while i < lengths.len()
        invariant
            0 <= i <= lengths@.len(),
            acc == position + lines_prefix(lengths@, i as int),
            acc <= u16::MAX as u64,
        decreases lengths@.len() - i,
    {
        acc = acc + 1 + lengths[i] as u64;
        if acc > u16::MAX as u64 {
            proof {
                lemma_lines_prefix_mono_from(lengths@, i + 1, lengths@.len() as int);
            }
            return false;
        }
        i = i + 1;
    }
    true
}

/// The glyph drawn where the horizontal border line at row `y` meets the
/// vertical one at column `x`: a corner on the outer rim, a tee where an
/// inner line meets the rim, and a crossing everywhere else.
pub open spec fn spec_from_pos(
    x: u16,
    y: u16,
    left: u16,
    right: u16,
    top: u16,
    bottom: u16,
    set: LineSet,
) -> &'static str {
    if y == top {
        if x == left {
            set.top_left
        } else if x == right {
            set.top_right
        } else {
            set.horizontal_down
        }
    } else if y == bottom {
        if x == left {
            set.bottom_left
        } else if x == right {
            set.bottom_right
        } else {
            set.horizontal_up
        }
    } else if x == left {
        set.vertical_right
    } else if x == right {
        set.vertical_left
    } else {
        set.cross
    }
}

impl Grid {
    /// Pick the glyph for the meeting point of the border lines at column
    /// `x` and row `y`, given the outermost line positions.
    pub fn from_pos(
        x: u16,
        y: u16,
        left: u16,
        right: u16,
        top: u16,
        bottom: u16,
        set: &LineSet,
    ) -> (r: &'static str)
        ensures
            r == spec_from_pos(x, y, left, right, top, bottom, *set),
    {
        let is_top: bool = y == top;
        let is_bottom: bool = y == bottom;
        let is_left: bool = x == left;
        let is_right: bool = x == right;
        if is_top {
            if is_left {
                return set.top_left;
            }
            if is_right {
                return set.top_right;
            }
            return set.horizontal_down;
        }
        if is_bottom {
            if is_left {
                return set.bottom_left;
            }
            if is_right {
                return set.bottom_right;
            }
            return set.horizontal_up;
        }
        if is_left {
            return set.vertical_right;
        }
        if is_right {
            return set.vertical_left;
        }
        set.cross
    }
}

impl Grid {
    /// Change the glyph family and hand the grid back.
    pub fn border_type(self, border_type: BorderType) -> (r: Self)
        ensures
            r.border_type == border_type,
            r.widths@ == self.widths@ && r.heights@ == self.heights@ && r.border_style
                == self.border_style,
    {
        let mut out = self;
        out.set_border_type(border_type);
        out
    }

    /// Change the glyph family.
    pub fn set_border_type(&mut self, border_type: BorderType)
        ensures
            final(self).border_type == border_type,
            final(self).widths == old(self).widths && final(self).heights == old(self).heights
                && final(self).border_style == old(self).border_style,
    {
        self.border_type = border_type;
    }

    /// Change the line style and hand the grid back.
    pub fn border_style(self, border_style: Style) -> (r: Self)
        ensures
            r.border_style == border_style,
            r.widths@ == self.widths@ && r.heights@ == self.heights@ && r.border_type
                == self.border_type,
    {
        let mut out = self;
        out.set_border_style(border_style);
        out
    }

    /// Change the line style.
    pub fn set_border_style(&mut self, border_style: Style)
        ensures
            final(self).border_style == border_style,
            final(self).widths == old(self).widths && final(self).heights == old(self).heights
                && final(self).border_type == old(self).border_type,
    {
        self.border_style = border_style;
    }
}

} // verus!
