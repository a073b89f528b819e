use vstd::prelude::*;

verus! {

/// A rectangle of terminal cells, measured in columns and rows.
#[derive(Clone, Copy, Debug, PartialEq, Eq, Structural)]
pub struct Rect {
    pub x: u16,
    pub y: u16,
    pub width: u16,
    pub height: u16,
}

impl Rect {
    /// True when the rectangle's far edges stay within the `u16` coordinate space.
    pub open spec fn wf(self) -> bool {
        self.x + self.width <= u16::MAX && self.y + self.height <= u16::MAX
    }

    pub fn new(x: u16, y: u16, width: u16, height: u16) -> (r: Rect)
        ensures
            r == (Rect { x, y, width, height }),
    {
        Rect { x, y, width, height }
    }

    /// Whether two rectangles overlap in at least one cell.
    pub fn intersects(&self, other: &Rect) -> (r: bool)
        requires
            self.wf(),
            other.wf(),
        ensures
            r == self.spec_intersects(*other),
    {
        self.x < other.x + other.width && other.x < self.x + self.width && self.y < other.y
            + other.height && other.y < self.y + self.height
    }

    pub open spec fn spec_intersects(self, other: Rect) -> bool {
        self.x < other.x + other.width && other.x < self.x + self.width && self.y < other.y
            + other.height && other.y < self.y + self.height
    }

    /// Whether the cell at column `col`, row `row` lies inside the rectangle.
    pub open spec fn spec_contains(self, col: u16, row: u16) -> bool {
        self.x <= col < self.x + self.width && self.y <= row < self.y + self.height
    }

    pub fn contains(&self, col: u16, row: u16) -> (r: bool)
        ensures
            r == self.spec_contains(col, row),
    {
        self.x <= col && (col as u32) < self.x as u32 + self.width as u32 && self.y <= row && (
        row as u32) < self.y as u32 + self.height as u32
    }
}

/// A sizing rule for one row or one item: a fixed number of cells, a
/// percentage of the available span, or a minimum number of cells.
#[derive(Clone, Copy, Debug, PartialEq, Eq, Structural)]
pub enum Constraint {
    /// Exactly this many cells, capped at the available span.
    Length(u16),
    /// This percentage of the available span, rounded down.
    Percentage(u16),
    /// At least this many cells, granted even beyond the available span.
    Min(u16),
}

impl Constraint {
    /// The number of cells this rule resolves to against an available span.
    pub open spec fn spec_apply(self, length: u16) -> int {
        match self {
            Constraint::Length(l) => if l <= length {
                l as int
            } else {
                length as int
            },
            Constraint::Percentage(p) => {
                let frac = length * p / 100;
                if frac <= length {
                    frac
                } else {
                    length as int
                }
            },
            Constraint::Min(m) => m as int,
        }
    }

    /// Resolve the rule against an available span of `length` cells.
    pub fn apply(&self, length: u16) -> (r: u16)
        ensures
            r == self.spec_apply(length),
    {
        match self {
            Constraint::Length(l) => {
                if *l <= length {
                    *l
                } else {
                    length
                }
            },
            Constraint::Percentage(p) => {
                proof {
                    assert((length as u64) * (*p as u64) <= 65535u64 * 65535u64)
                        by (nonlinear_arith)
                        requires
                            length <= 65535,
                            *p <= 65535,
                    ;
                }
                let frac: u64 = (length as u64) * (*p as u64) / 100;
                if frac <= length as u64 {
                    frac as u16
                } else {
                    length
                }
            },
            Constraint::Min(m) => *m,
        }
    }
}

} // verus!
