use vstd::prelude::*;
use crate::framework::frameworkdata::DataMap;
use crate::framework::state::{sel_view, state_sel, CursorState, State};

verus! {

/// One saved state of the framework: a full structural copy of the
/// selectables index, the per-state store tier, the grid, and the cursor,
/// taken at `push_history` time. Mutating the live framework afterwards
/// can never reach into a snapshot.
#[derive(Debug)]
pub struct FrameworkHistory {
    /// The selectables index at save time.
    pub selectables: Vec<Vec<(usize, usize)>>,
    /// The per-state store tier at save time.
    pub data: DataMap,
    /// The grid at save time.
    pub state: State,
    /// The cursor at save time.
    pub cursor: CursorState,
}

impl FrameworkHistory {
    /// The snapshot is internally consistent: its index belongs to its
    /// grid, its cursor stays inside the index, and its store keeps one
    /// entry per key.
    pub open spec fn wf(self) -> bool {
        &&& sel_view(self.selectables@) == state_sel(self.state.0@)
        &&& self.cursor.in_bounds(sel_view(self.selectables@))
        &&& self.data.wf()
    }
}

/// An element-for-element copy of a selectables index.
pub(crate) fn copy_selectables(v: &Vec<Vec<(usize, usize)>>) -> (r: Vec<Vec<(usize, usize)>>)
    ensures
        r@.len() == v@.len(),
        forall|i: int| 0 <= i < v@.len() ==> (#[trigger] r@[i])@ == v@[i]@,
        sel_view(r@) == sel_view(v@),
{
    let mut out: Vec<Vec<(usize, usize)>> = Vec::new();
    let mut i: usize = 0;
    while i < v.len()
        invariant
            0 <= i <= v@.len(),
            out@.len() == i,
            forall|j: int| 0 <= j < i ==> (#[trigger] out@[j])@ == v@[j]@,
        decreases v@.len() - i,
    {
        let row: &Vec<(usize, usize)> = &v[i];
        let mut out_row: Vec<(usize, usize)> = Vec::new();
        let mut j: usize = 0;
        while j < row.len()
            invariant
                0 <= j <= row@.len(),
                out_row@ == row@.take(j as int),
            decreases row@.len() - j,
        {
            out_row.push(row[j]);
            proof {
                assert(out_row@ =~= row@.take(j + 1));
            }
            j = j + 1;
        }
        proof {
            assert(row@.take(row@.len() as int) =~= row@);
        }
        out.push(out_row);
        i = i + 1;
    }
    proof {
        assert(sel_view(out@) =~= sel_view(v@));
    }
    out
}

} // verus!
