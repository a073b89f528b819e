use vstd::prelude::*;
use crate::framework::frameworkclean::FrameworkClean;
use crate::framework::frameworkdata::{DataMap, FrameworkData};
use crate::framework::frameworkhistory::{copy_selectables, FrameworkHistory};
use crate::framework::item::FrameworkItem;
use crate::framework::item::{ItemError, KeyInput};
use crate::widgets::textfield::{content_after_insert, content_after_remove};
use crate::framework::state::{
    chunk_spec, chunks_fit, lemma_move_preserves_bounds, lemma_same_items_sel,
    lemma_sel_valid_for, lemma_state_sel_congruent, sel_view, state_sel, CursorState,
    FrameworkDirection, FrameworkError, ItemInfo, Row, State,
};
use crate::layout::Rect;
use crate::widgets::grid::GridError;
use vstd::math::min;

verus! {

/// The orchestrator of a declarative terminal interface: it owns the grid,
/// the selectables index derived from it, the cursor, the two-tier context
/// store, and the history stack, and routes every input to at most one
/// item.
#[derive(Debug)]
pub struct Framework {
    /// The cursor, selectables index, context store, and last frame area:
    /// the part of the framework that item callbacks may touch.
    pub clean: FrameworkClean,
    /// The grid of items.
    pub state: State,
    /// Saved states, pushed and popped only on request.
    pub history: Vec<FrameworkHistory>,
}

impl Framework {
    /// The framework's standing invariant: the selectables index belongs
    /// to the current grid, the cursor stays inside the index, the store
    /// keeps one entry per key, every saved state is itself consistent,
    /// and a remembered frame area lies within the coordinate space.
    pub open spec fn wf(self) -> bool {
        &&& sel_view(self.clean.selectables@) == state_sel(self.state.0@)
        &&& self.clean.cursor.in_bounds(sel_view(self.clean.selectables@))
        &&& self.clean.data.wf()
        &&& forall|i: int| 0 <= i < self.history@.len() ==> (#[trigger] self.history@[i]).wf()
        &&& self.clean.frame_area matches Some(a) ==> a.wf()
    }

    /// What a history snapshot records of a framework: the same index, the
    /// per-state store tier, a structural copy of the grid, and the cursor.
    pub open spec fn snapshot_matches(h: FrameworkHistory, fw: Framework) -> bool {
        &&& sel_view(h.selectables@) == sel_view(fw.clean.selectables@)
        &&& h.data@ == fw.clean.data.state@
        &&& h.state.congruent(fw.state)
        &&& h.cursor == fw.clean.cursor
    }
}

impl Framework {
    /// Create a framework around a grid; the selectables index is derived
    /// from it, and everything else starts empty.
    pub fn new(state: State) -> (r: Framework)
        ensures
            r.wf(),
            sel_view(r.clean.selectables@) == state_sel(state.0@),
            r.state == state,
            r.clean.cursor == CursorState::Idle,
            r.clean.frame_area is None,
            r.clean.data.global@ == Map::<u64, crate::framework::frameworkdata::DataValue>::empty(),
            r.clean.data.state@ == Map::<u64, crate::framework::frameworkdata::DataValue>::empty(),
            r.history@.len() == 0,
    {
        let selectables = state.selectables();
        Framework {
            clean: FrameworkClean {
                selectables,
                data: FrameworkData::default(),
                cursor: CursorState::Idle,
                frame_area: None,
            },
            state,
            history: Vec::new(),
        }
    }

    /// Replace the grid and regenerate the selectables index. The cursor
    /// and both store tiers are left alone: a caller that needs a clean
    /// slate resets them itself, and until the cursor is reset it may
    /// point outside the new index.
    pub fn set_state(&mut self, state: State)
        ensures
            final(self).state == state,
            sel_view(final(self).clean.selectables@) == state_sel(state.0@),
            final(self).clean.cursor == old(self).clean.cursor,
            final(self).clean.data == old(self).clean.data,
            final(self).clean.frame_area == old(self).clean.frame_area,
            final(self).history == old(self).history,
            old(self).wf() && final(self).clean.cursor.in_bounds(
                sel_view(final(self).clean.selectables@),
            ) ==> final(self).wf(),
    {
        self.state = state;
        self.clean.selectables = self.state.selectables();
    }

    pub fn is_selected(&self) -> (r: bool)
        ensures
            r == (self.clean.cursor is Selected),
    {
        self.clean.cursor.is_selected()
    }

    pub fn is_hover(&self) -> (r: bool)
        ensures
            r == (self.clean.cursor is Hover),
    {
        self.clean.cursor.is_hover()
    }

    pub fn is_none(&self) -> (r: bool)
        ensures
            r == (self.clean.cursor is Idle),
    {
        self.clean.cursor.is_none()
    }
}

impl Framework {
    /// Drop every saved state.
    pub fn clear_history(&mut self)
        ensures
            final(self).history@.len() == 0,
            final(self).clean == old(self).clean,
            final(self).state == old(self).state,
            old(self).wf() ==> final(self).wf(),
    {
        self.history.clear();
    }

    /// Save the current state: a structural copy of the selectables index,
    /// the per-state store tier, the grid, and the cursor goes on top of
    /// the history stack.
    pub fn push_history(&mut self)
        requires
            old(self).wf(),
        ensures
            final(self).wf(),
            final(self).history@.len() == old(self).history@.len() + 1,
            final(self).history@.subrange(0, old(self).history@.len() as int) == old(self).history@,
            Self::snapshot_matches(final(self).history@.last(), *old(self)),
            final(self).clean == old(self).clean,
            final(self).state == old(self).state,
    {
        let entry = FrameworkHistory {
            selectables: copy_selectables(&self.clean.selectables),
            data: self.clean.data.state.clone(),
            state: self.state.clone(),
            cursor: self.clean.cursor,
        };
        proof {
            let r1 = entry.state.0@;
            let r2 = self.state.0@;
            assert forall|y: int| 0 <= y < r1.len() implies (#[trigger] r1[y]).items@.len()
                == r2[y].items@.len() by {
                assert(r1[y].congruent(r2[y]));
            }
            assert forall|y: int, x: int|
                0 <= y < r1.len() && 0 <= x < r1[y].items@.len() implies (
            #[trigger] r1[y].items@[x]).item.spec_selectable()
                == r2[y].items@[x].item.spec_selectable() by {
                assert(r1[y].congruent(r2[y]));
                assert(r1[y].items@[x].congruent(r2[y].items@[x]));
            }
            lemma_state_sel_congruent(r1, r2);
        }
        self.history.push(entry);
        proof {
            assert(final(self).history@.subrange(0, old(self).history@.len() as int) =~= old(self).history@);
        }
    }

    /// Take the most recent saved state off the stack and hand it back,
    /// or nothing when the stack is empty.
    pub fn pop_history(&mut self) -> (r: Option<FrameworkHistory>)
        ensures
            old(self).history@.len() == 0 ==> r is None && final(self).history@ == old(self).history@,
            old(self).history@.len() > 0 ==> r == Some(old(self).history@.last()) && final(self).history@ == old(self).history@.drop_last(),
            final(self).clean == old(self).clean,
            final(self).state == old(self).state,
            old(self).wf() ==> final(self).wf(),
    {
        self.history.pop()
    }

    /// Restore the most recent saved state and drop it from the stack:
    /// the selectables index, the per-state store tier, the grid, and the
    /// cursor all come back from the snapshot. Fails with `NoSuchSave`,
    /// changing nothing, exactly when the stack is empty.
    pub fn revert_last_history(&mut self) -> (r: Result<(), FrameworkError>)
        requires
            old(self).wf(),
        ensures
            final(self).wf(),
            r is Ok <==> old(self).history@.len() > 0,
            old(self).history@.len() == 0 ==> r == Result::<(), FrameworkError>::Err(
                FrameworkError::NoSuchSave,
            ) && final(self).clean == old(self).clean && final(self).state == old(self).state
                && final(self).history@ == old(self).history@,
            old(self).history@.len() > 0 ==> ({
                let h = old(self).history@.last();
                &&& final(self).clean.selectables == h.selectables
                &&& final(self).clean.data.state == h.data
                &&& final(self).state == h.state
                &&& final(self).clean.cursor == h.cursor
                &&& final(self).history@ == old(self).history@.drop_last()
                &&& final(self).clean.data.global == old(self).clean.data.global
                &&& final(self).clean.frame_area == old(self).clean.frame_area
            }),
    {
        let history = match self.history.pop() {
            None => { return Err(FrameworkError::NoSuchSave) },
            Some(history) => history,
        };
        self.clean.selectables = history.selectables;
        self.clean.data.state = history.data;
        self.state = history.state;
        self.clean.cursor = history.cursor;
        Ok(())
    }

    /// Restore the saved state at `index`, counted from the oldest, and
    /// drop it from the stack. Fails with `NoSuchSave`, changing nothing,
    /// exactly when no such entry exists.
    pub fn revert_history(&mut self, index: usize) -> (r: Result<(), FrameworkError>)
        requires
            old(self).wf(),
        ensures
            final(self).wf(),
            r is Ok <==> index < old(self).history@.len(),
            index >= old(self).history@.len() ==> r == Result::<(), FrameworkError>::Err(
                FrameworkError::NoSuchSave,
            ) && final(self).clean == old(self).clean && final(self).state == old(self).state
                && final(self).history@ == old(self).history@,
            index < old(self).history@.len() ==> ({
                let h = old(self).history@[index as int];
                &&& final(self).clean.selectables == h.selectables
                &&& final(self).clean.data.state == h.data
                &&& final(self).state == h.state
                &&& final(self).clean.cursor == h.cursor
                &&& final(self).history@ == old(self).history@.remove(index as int)
                &&& final(self).clean.data.global == old(self).clean.data.global
                &&& final(self).clean.frame_area == old(self).clean.frame_area
            }),
    {
        if index >= self.history.len() {
            return Err(FrameworkError::NoSuchSave);
        }
        let history = self.history.remove(index);
        self.clean.selectables = history.selectables;
        self.clean.data.state = history.data;
        self.state = history.state;
        self.clean.cursor = history.cursor;
        Ok(())
    }
}

/// Saving and then restoring brings everything back: whatever was done to
/// a framework between a `push_history` and the `revert_last_history` that
/// finds that snapshot on top, the restored framework holds the index, the
/// grid, the per-state store, and the cursor of push time.
pub proof fn lemma_push_then_revert(
    at_push: Framework,
    pushed: Framework,
    mutated: Framework,
    reverted: Framework,
)
    requires
        pushed.history@.len() == at_push.history@.len() + 1,
        Framework::snapshot_matches(pushed.history@.last(), at_push),
        mutated.history@ == pushed.history@,
        mutated.history@.len() > 0,
        reverted.clean.selectables == mutated.history@.last().selectables,
        reverted.clean.data.state == mutated.history@.last().data,
        reverted.state == mutated.history@.last().state,
        reverted.clean.cursor == mutated.history@.last().cursor,
    ensures
        sel_view(reverted.clean.selectables@) == sel_view(at_push.clean.selectables@),
        reverted.clean.data.state@ == at_push.clean.data.state@,
        reverted.state.congruent(at_push.state),
        reverted.clean.cursor == at_push.clean.cursor,
{
}

impl Framework {
    /// Move the cursor and clamp it to the selectables index.
    ///
    /// Fails with `MoveSelected`, changing nothing, exactly when an item
    /// is selected; otherwise the cursor ends at `move_spec`.
    pub fn move_cursor(&mut self, direction: FrameworkDirection) -> (r: Result<
        (),
        FrameworkError,
    >)
        requires
            old(self).wf(),
        ensures
            final(self).wf(),
            r is Ok <==> !(old(self).clean.cursor is Selected),
            old(self).clean.cursor is Selected ==> r == Result::<(), FrameworkError>::Err(
                FrameworkError::MoveSelected,
            ),
            final(self).clean.cursor == old(self).clean.cursor.move_spec(
                direction,
                sel_view(old(self).clean.selectables@),
            ),
            final(self).clean.selectables == old(self).clean.selectables,
            final(self).clean.data == old(self).clean.data,
            final(self).clean.frame_area == old(self).clean.frame_area,
            final(self).state == old(self).state,
            final(self).history == old(self).history,
    {
        proof {
            lemma_sel_valid_for(self.state);
            lemma_move_preserves_bounds(
                self.clean.cursor,
                direction,
                sel_view(self.clean.selectables@),
            );
        }
        self.clean.cursor.move_cursor(direction, &self.clean.selectables)
    }

    /// Select the hovered item: the item's own select hook is asked first,
    /// and only its acceptance commits the cursor. Fails with
    /// `CursorStateMismatch`, changing nothing, exactly when the cursor is
    /// not hovering or the index is empty.
    pub fn select(&mut self) -> (r: Result<(), FrameworkError>)
        requires
            old(self).wf(),
        ensures
            final(self).wf(),
            r is Ok <==> (old(self).clean.cursor is Hover && old(self).clean.selectables@.len()
                > 0),
            r is Err ==> r == Result::<(), FrameworkError>::Err(FrameworkError::CursorStateMismatch)
                && *final(self) == *old(self),
            old(self).clean.cursor matches CursorState::Hover(x, y) ==> (old(self).clean.selectables@.len() > 0 ==> final(self).clean.cursor == CursorState::Selected(
                x,
                y,
            )),
            final(self).clean.selectables == old(self).clean.selectables,
            final(self).clean.data == old(self).clean.data,
            final(self).clean.frame_area == old(self).clean.frame_area,
            final(self).state.same_items(old(self).state),
            final(self).history == old(self).history,
    {
        proof {
            lemma_sel_valid_for(self.state);
        }
        let hovered = self.clean.cursor.hover(&self.clean.selectables);
        match hovered {
            Some((x, y)) => {
                let item = self.state.get_mut(x, y);
                let accepted = FrameworkItem::select(item, &mut self.clean);
                if accepted {
                    let r = self.clean.cursor.select();
                    proof {
                        assert(self.state.same_items(old(self).state));
                        lemma_same_items_sel(self.state, old(self).state);
                    }
                    r
                } else {
                    proof {
                        assert(self.state.same_items(old(self).state));
                        lemma_same_items_sel(self.state, old(self).state);
                    }
                    Ok(())
                }
            },
            None => Err(FrameworkError::CursorStateMismatch),
        }
    }

    /// Deselect the selected item: the item's own deselect hook is asked
    /// first, and only its acceptance releases the cursor. Fails with
    /// `CursorStateMismatch`, changing nothing, exactly when nothing is
    /// selected or the index is empty.
    pub fn deselect(&mut self) -> (r: Result<(), FrameworkError>)
        requires
            old(self).wf(),
        ensures
            final(self).wf(),
            r is Ok <==> (old(self).clean.cursor is Selected && old(self).clean.selectables@.len()
                > 0),
            r is Err ==> r == Result::<(), FrameworkError>::Err(FrameworkError::CursorStateMismatch)
                && *final(self) == *old(self),
            old(self).clean.cursor matches CursorState::Selected(x, y) ==> (old(self).clean.selectables@.len() > 0 ==> final(self).clean.cursor == CursorState::Hover(
                x,
                y,
            )),
            final(self).clean.selectables == old(self).clean.selectables,
            final(self).clean.data == old(self).clean.data,
            final(self).clean.frame_area == old(self).clean.frame_area,
            final(self).state.same_items(old(self).state),
            final(self).history == old(self).history,
    {
        proof {
            lemma_sel_valid_for(self.state);
        }
        let selected = self.clean.cursor.selected(&self.clean.selectables);
        match selected {
            Some((x, y)) => {
                let item = self.state.get_mut(x, y);
                let accepted = FrameworkItem::deselect(item, &mut self.clean);
                if accepted {
                    let r = self.clean.cursor.deselect();
                    proof {
                        assert(self.state.same_items(old(self).state));
                        lemma_same_items_sel(self.state, old(self).state);
                    }
                    r
                } else {
                    proof {
                        assert(self.state.same_items(old(self).state));
                        lemma_same_items_sel(self.state, old(self).state);
                    }
                    Ok(())
                }
            },
            None => Err(FrameworkError::CursorStateMismatch),
        }
    }
}

/// One step of a render plan: hand the item at grid column `info.x`, row
/// `info.y` its rectangle and its standing, on the base pass or on the
/// popup pass.
#[derive(Clone, Copy, Debug, PartialEq, Eq, Structural)]
pub struct RenderEntry {
    /// The rectangle the item paints into.
    pub chunk: Rect,
    /// Whether this is the popup pass, reserved for overlays painted after
    /// all base content.
    pub popup_render: bool,
    /// The item's coordinates and standing.
    pub info: ItemInfo,
}

/// The plan entry for the item at column `x`, row `y`.
pub open spec fn render_entry_spec(
    chunk: Rect,
    selg: Option<(usize, usize)>,
    hovg: Option<(usize, usize)>,
    popup: bool,
    x: int,
    y: int,
) -> RenderEntry {
    RenderEntry {
        chunk,
        popup_render: popup,
        info: ItemInfo {
            selected: selg == Some((x as usize, y as usize)),
            hover: hovg == Some((x as usize, y as usize)),
            x: x as usize,
            y: y as usize,
        },
    }
}

/// The contents of a chunk table, row by row.
pub open spec fn chunks_view(chunks: Seq<Vec<Rect>>) -> Seq<Seq<Rect>> {
    chunks.map_values(|v: Vec<Rect>| v@)
}

/// One whole pass over the grid against a given chunk table, in row-major
/// order; rows or items beyond the table are left out.
pub open spec fn pass_given_spec(
    rows: Seq<Row>,
    chunks: Seq<Seq<Rect>>,
    selg: Option<(usize, usize)>,
    hovg: Option<(usize, usize)>,
    popup: bool,
) -> Seq<RenderEntry> {
    Seq::new(
        min(rows.len() as int, chunks.len() as int) as nat,
        |y: int|
            Seq::new(
                min(rows[y].items@.len() as int, chunks[y].len() as int) as nat,
                |x: int| render_entry_spec(chunks[y][x], selg, hovg, popup, x, y),
            ),
    ).flatten()
}

/// The chunk table the layout of `area` produces.
pub open spec fn chunk_grid_spec(rows: Seq<Row>, area: Rect) -> Seq<Seq<Rect>> {
    Seq::new(
        rows.len(),
        |y: int| Seq::new(rows[y].items@.len(), |x: int| chunk_spec(rows, area, x, y)),
    )
}

/// One whole pass over the grid as laid out in `area`.
pub open spec fn full_pass_spec(
    rows: Seq<Row>,
    area: Rect,
    selg: Option<(usize, usize)>,
    hovg: Option<(usize, usize)>,
    popup: bool,
) -> Seq<RenderEntry> {
    pass_given_spec(rows, chunk_grid_spec(rows, area), selg, hovg, popup)
}

impl Framework {
    /// The plan of one pass over every item against an already-computed
    /// chunk table, with the given selected and hovered grid coordinates.
    pub fn render_raw(
        &self,
        chunks: &Vec<Vec<Rect>>,
        selected: Option<(usize, usize)>,
        hover: Option<(usize, usize)>,
        popup_render: bool,
    ) -> (r: Vec<RenderEntry>)
        ensures
            r@ == pass_given_spec(self.state.0@, chunks_view(chunks@), selected, hover, popup_render),
    {
        let ghost plan = Seq::new(
            min(self.state.0@.len() as int, chunks@.len() as int) as nat,
            |y: int|
                Seq::new(
                    min(self.state.0@[y].items@.len() as int, chunks@[y]@.len() as int) as nat,
                    |x: int| render_entry_spec(chunks@[y]@[x], selected, hover, popup_render, x, y),
                ),
        );
        let mut out: Vec<RenderEntry> = Vec::new();
        let ny: usize = if self.state.0.len() <= chunks.len() {
            self.state.0.len()
        } else {
            chunks.len()
        };
        proof {
            assert(Seq::<Seq<RenderEntry>>::empty().flatten() =~= Seq::<RenderEntry>::empty());
            assert(plan.take(0) =~= Seq::<Seq<RenderEntry>>::empty());
        }
        let mut y: usize = 0;
        while y < ny
            invariant
                0 <= y <= ny,
                ny == min(self.state.0@.len() as int, chunks@.len() as int),
                plan == Seq::new(
                    min(self.state.0@.len() as int, chunks@.len() as int) as nat,
                    |yy: int|
                        Seq::new(
                            min(
                                self.state.0@[yy].items@.len() as int,
                                chunks@[yy]@.len() as int,
                            ) as nat,
                            |x: int| render_entry_spec(
                                chunks@[yy]@[x],
                                selected,
                                hover,
                                popup_render,
                                x,
                                yy,
                            ),
                        ),
                ),
                out@ == plan.take(y as int).flatten(),
            decreases ny - y,
        {
            let row_items: usize = self.state.0[y].items.len();
            let row_chunks: usize = chunks[y].len();
            let nx: usize = if row_items <= row_chunks {
                row_items
            } else {
                row_chunks
            };
            let mut x: usize = 0;
            while x < nx
                invariant
                    0 <= x <= nx,
                    0 <= y < ny,
                    ny == min(self.state.0@.len() as int, chunks@.len() as int),
                    nx == min(self.state.0@[y as int].items@.len() as int, chunks@[y as int]@.len() as int),
                    plan == Seq::new(
                        min(self.state.0@.len() as int, chunks@.len() as int) as nat,
                        |yy: int|
                            Seq::new(
                                min(
                                    self.state.0@[yy].items@.len() as int,
                                    chunks@[yy]@.len() as int,
                                ) as nat,
                                |x2: int| render_entry_spec(
                                    chunks@[yy]@[x2],
                                    selected,
                                    hover,
                                    popup_render,
                                    x2,
                                    yy,
                                ),
                            ),
                    ),
                    out@ == plan.take(y as int).flatten() + plan[y as int].take(x as int),
                decreases nx - x,
            {
                let chunk: Rect = chunks[y][x];
                out.push(
                    RenderEntry {
                        chunk,
                        popup_render,
                        info: ItemInfo {
                            selected: opt_eq(selected, x, y),
                            hover: opt_eq(hover, x, y),
                            x,
                            y,
                        },
                    },
                );
                proof {
                    assert(plan[y as int].take(x + 1) =~= plan[y as int].take(x as int).push(
                        plan[y as int][x as int],
                    ));
                    assert(out@ =~= plan.take(y as int).flatten() + plan[y as int].take(x + 1));
                }
                x = x + 1;
            }
            proof {
                assert(plan[y as int].take(nx as int) =~= plan[y as int]);
                assert(plan.take(y + 1) =~= plan.take(y as int).push(plan[y as int]));
                plan.take(y as int).lemma_flatten_push(plan[y as int]);
                assert(out@ =~= plan.take(y + 1).flatten());
            }
            y = y + 1;
        }
        proof {
            assert(plan.take(ny as int) =~= plan);
            let cv = chunks_view(chunks@);
            let s2 = Seq::new(
                min(self.state.0@.len() as int, cv.len() as int) as nat,
                |y: int|
                    Seq::new(
                        min(self.state.0@[y].items@.len() as int, cv[y].len() as int) as nat,
                        |x: int| render_entry_spec(cv[y][x], selected, hover, popup_render, x, y),
                    ),
            );
            assert(plan =~~= s2);
        }
        out
    }

    /// Record `area` as the frame area and compute the full two-pass render
    /// plan: every item's rectangle and standing on the base pass, then the
    /// same on the popup pass. Fails with `NotEnoughLength`, recording the
    /// area but planning nothing, exactly when the layout does not fit.
    pub fn render(&mut self, area: Rect) -> (r: Result<Vec<RenderEntry>, GridError>)
        requires
            old(self).wf(),
            area.wf(),
        ensures
            final(self).wf(),
            final(self).clean.frame_area == Some(area),
            final(self).clean.selectables == old(self).clean.selectables,
            final(self).clean.cursor == old(self).clean.cursor,
            final(self).clean.data == old(self).clean.data,
            final(self).state == old(self).state,
            final(self).history == old(self).history,
            r is Ok <==> chunks_fit(old(self).state.0@, area),
            r matches Ok(plan) ==> ({
                let sel = sel_view(old(self).clean.selectables@);
                let selg = old(self).clean.cursor.spec_selected(sel);
                let hovg = old(self).clean.cursor.spec_hover(sel);
                plan@ == full_pass_spec(old(self).state.0@, area, selg, hovg, false)
                    + full_pass_spec(old(self).state.0@, area, selg, hovg, true)
            }),
            r is Err ==> r == Result::<Vec<RenderEntry>, GridError>::Err(GridError::NotEnoughLength),
    {
        self.clean.frame_area = Some(area);
        let chunks = match self.state.get_chunks(area) {
            Ok(chunks) => chunks,
            Err(e) => { return Err(e) },
        };
        proof {
            lemma_sel_valid_for(self.state);
        }
        let selected = self.clean.cursor.selected(&self.clean.selectables);
        let hover = self.clean.cursor.hover(&self.clean.selectables);
        let mut plan = self.render_raw(&chunks, selected, hover, false);
        let mut plan2 = self.render_raw(&chunks, selected, hover, true);
        proof {
            assert forall|y: int| 0 <= y < chunks@.len() implies #[trigger] chunks_view(chunks@)[y]
                =~= chunk_grid_spec(self.state.0@, area)[y] by {}
            assert(chunks_view(chunks@) =~= chunk_grid_spec(self.state.0@, area));
        }
        plan.append(&mut plan2);
        Ok(plan)
    }

    /// The plan entry for one item, from an already-computed rectangle and
    /// already-resolved selected and hovered grid coordinates.
    pub fn render_only_raw(
        &self,
        x: usize,
        y: usize,
        chunk: Rect,
        popup_render: bool,
        selected: Option<(usize, usize)>,
        hover: Option<(usize, usize)>,
    ) -> (r: RenderEntry)
        ensures
            r == render_entry_spec(chunk, selected, hover, popup_render, x as int, y as int),
    {
        RenderEntry {
            chunk,
            popup_render,
            info: ItemInfo { selected: opt_eq(selected, x, y), hover: opt_eq(hover, x, y), x, y },
        }
    }

    /// The two-pass plan for the single item at column `x`, row `y` of the
    /// grid, laid out in `area`. Fails with `NotEnoughLength` exactly when
    /// the layout does not fit.
    pub fn render_only(&mut self, area: Rect, x: usize, y: usize) -> (r: Result<
        Vec<RenderEntry>,
        GridError,
    >)
        requires
            old(self).wf(),
            area.wf(),
            y < old(self).state.0@.len(),
            x < old(self).state.0@[y as int].items@.len(),
        ensures
            *final(self) == *old(self),
            final(self).wf(),
            r is Ok <==> chunks_fit(old(self).state.0@, area),
            r matches Ok(plan) ==> ({
                let sel = sel_view(old(self).clean.selectables@);
                let selg = old(self).clean.cursor.spec_selected(sel);
                let hovg = old(self).clean.cursor.spec_hover(sel);
                let chunk = chunk_spec(old(self).state.0@, area, x as int, y as int);
                plan@ == seq![
                    render_entry_spec(chunk, selg, hovg, false, x as int, y as int),
                    render_entry_spec(chunk, selg, hovg, true, x as int, y as int),
                ]
            }),
            r is Err ==> r == Result::<Vec<RenderEntry>, GridError>::Err(GridError::NotEnoughLength),
    {
        let chunks = match self.state.get_chunks(area) {
            Ok(chunks) => chunks,
            Err(e) => { return Err(e) },
        };
        proof {
            lemma_sel_valid_for(self.state);
        }
        let selected = self.clean.cursor.selected(&self.clean.selectables);
        let hover = self.clean.cursor.hover(&self.clean.selectables);
        let chunk: Rect = chunks[y][x];
        let mut plan: Vec<RenderEntry> = Vec::new();
        plan.push(self.render_only_raw(x, y, chunk, false, selected, hover));
        plan.push(self.render_only_raw(x, y, chunk, true, selected, hover));
        proof {
            assert(plan@ =~= seq![
                render_entry_spec(
                    chunk_spec(self.state.0@, area, x as int, y as int),
                    self.clean.cursor.spec_selected(sel_view(self.clean.selectables@)),
                    self.clean.cursor.spec_hover(sel_view(self.clean.selectables@)),
                    false,
                    x as int,
                    y as int,
                ),
                render_entry_spec(
                    chunk_spec(self.state.0@, area, x as int, y as int),
                    self.clean.cursor.spec_selected(sel_view(self.clean.selectables@)),
                    self.clean.cursor.spec_hover(sel_view(self.clean.selectables@)),
                    true,
                    x as int,
                    y as int,
                ),
            ]);
        }
        Ok(plan)
    }

    /// The two-pass plan for several items, each named by its grid
    /// coordinates: first all of them on the base pass, then all of them
    /// on the popup pass. Fails with `NotEnoughLength` exactly when the
    /// layout does not fit.
    pub fn render_only_multiple(&mut self, area: Rect, locations: &Vec<(usize, usize)>) -> (r:
        Result<Vec<RenderEntry>, GridError>)
        requires
            old(self).wf(),
            area.wf(),
            forall|i: int|
                0 <= i < locations@.len() ==> ({
                    let loc = #[trigger] locations@[i];
                    loc.1 < old(self).state.0@.len() && loc.0 < old(self).state.0@[loc.1 as int].items@.len()
                }),
        ensures
            *final(self) == *old(self),
            final(self).wf(),
            r is Ok <==> chunks_fit(old(self).state.0@, area),
            r matches Ok(plan) ==> ({
                let sel = sel_view(old(self).clean.selectables@);
                let selg = old(self).clean.cursor.spec_selected(sel);
                let hovg = old(self).clean.cursor.spec_hover(sel);
                let n = locations@.len() as int;
                &&& plan@.len() == 2 * n
                &&& forall|i: int|
                    0 <= i < n ==> ({
                        let loc = #[trigger] locations@[i];
                        plan@[i] == render_entry_spec(
                            chunk_spec(old(self).state.0@, area, loc.0 as int, loc.1 as int),
                            selg,
                            hovg,
                            false,
                            loc.0 as int,
                            loc.1 as int,
                        )
                    })
                &&& forall|i: int|
                    0 <= i < n ==> ({
                        let loc = #[trigger] locations@[i];
                        plan@[n + i] == render_entry_spec(
                            chunk_spec(old(self).state.0@, area, loc.0 as int, loc.1 as int),
                            selg,
                            hovg,
                            true,
                            loc.0 as int,
                            loc.1 as int,
                        )
                    })
            }),
            r is Err ==> r == Result::<Vec<RenderEntry>, GridError>::Err(GridError::NotEnoughLength),
    {
        let chunks = match self.state.get_chunks(area) {
            Ok(chunks) => chunks,
            Err(e) => { return Err(e) },
        };
        proof {
            lemma_sel_valid_for(self.state);
        }
        let selected = self.clean.cursor.selected(&self.clean.selectables);
        let hover = self.clean.cursor.hover(&self.clean.selectables);
        let n: usize = locations.len();
        let mut plan: Vec<RenderEntry> = Vec::new();
        let mut i: usize = 0;
        while i < n
            invariant
                0 <= i <= n,
                n == locations@.len(),
                chunks@.len() == self.state.0@.len(),
                forall|yy: int|
                    0 <= yy < chunks@.len() ==> (#[trigger] chunks@[yy])@.len()
                        == self.state.0@[yy].items@.len(),
                forall|yy: int, xx: int|
                    0 <= yy < chunks@.len() && 0 <= xx < self.state.0@[yy].items@.len() ==> (
                    #[trigger] chunks@[yy]@[xx]) == chunk_spec(self.state.0@, area, xx, yy),
                forall|j: int|
                    0 <= j < locations@.len() ==> ({
                        let loc = #[trigger] locations@[j];
                        loc.1 < self.state.0@.len() && loc.0 < self.state.0@[loc.1 as int].items@.len()
                    }),
                plan@.len() == i,
                forall|j: int|
                    0 <= j < i ==> ({
                        let loc = #[trigger] locations@[j];
                        plan@[j] == render_entry_spec(
                            chunk_spec(self.state.0@, area, loc.0 as int, loc.1 as int),
                            selected,
                            hover,
                            false,
                            loc.0 as int,
                            loc.1 as int,
                        )
                    }),
            decreases n - i,
        {
            let loc: (usize, usize) = locations[i];
            plan.push(self.render_only_raw(loc.0, loc.1, chunks[loc.1][loc.0], false, selected, hover));
            i = i + 1;
        }
        let mut i: usize = 0;
        while i < n
            invariant
                0 <= i <= n,
                n == locations@.len(),
                chunks@.len() == self.state.0@.len(),
                forall|yy: int|
                    0 <= yy < chunks@.len() ==> (#[trigger] chunks@[yy])@.len()
                        == self.state.0@[yy].items@.len(),
                forall|yy: int, xx: int|
                    0 <= yy < chunks@.len() && 0 <= xx < self.state.0@[yy].items@.len() ==> (
                    #[trigger] chunks@[yy]@[xx]) == chunk_spec(self.state.0@, area, xx, yy),
                forall|j: int|
                    0 <= j < locations@.len() ==> ({
                        let loc = #[trigger] locations@[j];
                        loc.1 < self.state.0@.len() && loc.0 < self.state.0@[loc.1 as int].items@.len()
                    }),
                plan@.len() == n + i,
                forall|j: int|
                    0 <= j < n ==> ({
                        let loc = #[trigger] locations@[j];
                        plan@[j] == render_entry_spec(
                            chunk_spec(self.state.0@, area, loc.0 as int, loc.1 as int),
                            selected,
                            hover,
                            false,
                            loc.0 as int,
                            loc.1 as int,
                        )
                    }),
                forall|j: int|
                    0 <= j < i ==> ({
                        let loc = #[trigger] locations@[j];
                        plan@[n + j] == render_entry_spec(
                            chunk_spec(self.state.0@, area, loc.0 as int, loc.1 as int),
                            selected,
                            hover,
                            true,
                            loc.0 as int,
                            loc.1 as int,
                        )
                    }),
            decreases n - i,
        {
            let loc: (usize, usize) = locations[i];
            plan.push(self.render_only_raw(loc.0, loc.1, chunks[loc.1][loc.0], true, selected, hover));
            i = i + 1;
        }
        Ok(plan)
    }
}

/// Whether the coordinates match the optionally resolved item.
fn opt_eq(opt: Option<(usize, usize)>, x: usize, y: usize) -> (r: bool)
    ensures
        r == (opt == Some((x, y))),
{
    match opt {
        Some((ox, oy)) => ox == x && oy == y,
        None => false,
    }
}


impl Framework {
    /// Route a key to the selected item, with its standing attached; with
    /// nothing selected the key is dropped on purpose: unselected items
    /// never receive key events. Everything but the selected item itself
    /// is left alone.
    pub fn key_input(&mut self, key: KeyInput) -> (r: Result<(), ItemError>)
        requires
            old(self).wf(),
        ensures
            final(self).wf(),
            final(self).clean == old(self).clean,
            final(self).history == old(self).history,
            old(self).clean.cursor.spec_selected(sel_view(old(self).clean.selectables@))
                is None ==> r is Ok && final(self).state == old(self).state,
            old(self).clean.cursor.spec_selected(
                sel_view(old(self).clean.selectables@),
            ) matches Some(loc) ==> ({
                let a1 = old(self).state.0@[loc.1 as int].items@[loc.0 as int].item;
                let a2 = final(self).state.0@[loc.1 as int].items@[loc.0 as int].item;
                &&& final(self).state.0@.len() == old(self).state.0@.len()
                &&& (forall|yy: int|
                    0 <= yy < old(self).state.0@.len() && yy != loc.1 ==> final(self).state.0@[yy]
                        == old(self).state.0@[yy])
                &&& final(self).state.0@[loc.1 as int].items@.len() == old(
                    self,
                ).state.0@[loc.1 as int].items@.len()
                &&& (forall|xx: int|
                    0 <= xx < old(self).state.0@[loc.1 as int].items@.len() && xx != loc.0
                        ==> final(self).state.0@[loc.1 as int].items@[xx] == old(
                        self,
                    ).state.0@[loc.1 as int].items@[xx])
                &&& a2.spec_selectable() == a1.spec_selectable()
                &&& (a1 is Label ==> a2 == a1 && r is Ok)
                &&& (a1 matches crate::framework::item::FrameworkItem::TextField(tf) ==> (
                tf.width matches Some(w) ==> (key matches KeyInput::Char(c) ==> (w > 0
                    && tf.cursor < usize::MAX ==> (
                a2 matches crate::framework::item::FrameworkItem::TextField(tf2) && tf2.content@
                    == content_after_insert(tf.content@, tf.cursor, c) && r is Ok)))))
                &&& (a1 matches crate::framework::item::FrameworkItem::TextField(tf) ==> (
                tf.width matches Some(w) ==> (w > 0 && key == KeyInput::Backspace ==> (
                a2 matches crate::framework::item::FrameworkItem::TextField(tf2) && tf2.content@
                    == (if tf.cursor == 0 {
                    tf.content@
                } else {
                    content_after_remove(tf.content@, tf.cursor)
                }) && r is Ok))))
                &&& (a1 matches crate::framework::item::FrameworkItem::TextList(tl) ==> (
                a2 matches crate::framework::item::FrameworkItem::TextList(tl2)
                    && tl2.same_but_position(tl)))
                &&& (a1 matches crate::framework::item::FrameworkItem::TextList(tl) ==> (key
                    == KeyInput::Up ==> (
                a2 matches crate::framework::item::FrameworkItem::TextList(tl2) && tl2.selected
                    == (if tl.selected > 0 {
                    tl.selected - 1
                } else {
                    0
                }))))
                &&& (a1 matches crate::framework::item::FrameworkItem::TextList(tl) ==> (key
                    == KeyInput::Down && tl.items@.len() > 0 && tl.selected < tl.items@.len() - 1
                    ==> (
                a2 matches crate::framework::item::FrameworkItem::TextList(tl2) && tl2.selected
                    == tl.selected + 1)))
            }),
    {
        proof {
            lemma_sel_valid_for(self.state);
        }
        let selected = self.clean.cursor.selected(&self.clean.selectables);
        match selected {
            Some((x, y)) => {
                let info = ItemInfo { selected: true, hover: false, x, y };
                let item = self.state.get_mut(x, y);
                let r = FrameworkItem::key_event(item, &mut self.clean, key, info);
                proof {
                    let r1 = self.state.0@;
                    let r2 = old(self).state.0@;
                    assert forall|yy: int| 0 <= yy < r1.len() implies (
                    #[trigger] r1[yy]).items@.len() == r2[yy].items@.len() by {}
                    assert forall|yy: int, xx: int|
                        0 <= yy < r1.len() && 0 <= xx < r1[yy].items@.len() implies (
                    #[trigger] r1[yy].items@[xx]).item.spec_selectable()
                        == r2[yy].items@[xx].item.spec_selectable() by {}
                    lemma_state_sel_congruent(r1, r2);
                }
                r
            },
            None => Ok(()),
        }
    }

    /// Call every item's load hook, each with its standing, stopping at
    /// the first error.
    pub fn load(&mut self) -> (r: Result<(), ItemError>)
        requires
            old(self).wf(),
        ensures
            final(self).wf(),
            r is Ok,
            final(self).clean == old(self).clean,
            final(self).history == old(self).history,
            final(self).state.same_items(old(self).state),
    {
        proof {
            lemma_sel_valid_for(self.state);
        }
        let selected = self.clean.cursor.selected(&self.clean.selectables);
        let hover = self.clean.cursor.hover(&self.clean.selectables);
        let ny: usize = self.state.0.len();
        let mut y: usize = 0;
        while y < ny
            invariant
                0 <= y <= ny,
                ny == self.state.0@.len(),
                self.clean == old(self).clean,
                self.history == old(self).history,
                self.state.same_items(old(self).state),
            decreases ny - y,
        {
            let nx: usize = self.state.0[y].items.len();
            let mut x: usize = 0;
            while x < nx
                invariant
                    0 <= x <= nx,
                    0 <= y < ny,
                    ny == self.state.0@.len(),
                    nx == self.state.0@[y as int].items@.len(),
                    self.clean == old(self).clean,
                    self.history == old(self).history,
                    self.state.same_items(old(self).state),
                decreases nx - x,
            {
                let info = ItemInfo {
                    selected: opt_eq(selected, x, y),
                    hover: opt_eq(hover, x, y),
                    x,
                    y,
                };
                let ghost pre = self.state;
                let item = self.state.get_mut(x, y);
                let r = FrameworkItem::load_item(item, &mut self.clean, info);
                proof {
                    assert(self.state.same_items(pre));
                }
                match r {
                    Ok(()) => {},
                    Err(e) => {
                        return Err(e);
                    },
                }
                x = x + 1;
            }
            y = y + 1;
        }
        proof {
            lemma_same_items_sel(self.state, old(self).state);
        }
        Ok(())
    }

    /// Call one item's load hook, with its standing.
    pub fn load_only(&mut self, x: usize, y: usize) -> (r: Result<(), ItemError>)
        requires
            old(self).wf(),
            y < old(self).state.0@.len(),
            x < old(self).state.0@[y as int].items@.len(),
        ensures
            final(self).wf(),
            r is Ok,
            final(self).clean == old(self).clean,
            final(self).history == old(self).history,
            final(self).state.same_items(old(self).state),
    {
        proof {
            lemma_sel_valid_for(self.state);
        }
        let selected = self.clean.cursor.selected(&self.clean.selectables);
        let hover = self.clean.cursor.hover(&self.clean.selectables);
        let info = ItemInfo { selected: opt_eq(selected, x, y), hover: opt_eq(hover, x, y), x, y };
        let item = self.state.get_mut(x, y);
        let r = FrameworkItem::load_item(item, &mut self.clean, info);
        proof {
            assert(self.state.same_items(old(self).state));
            lemma_same_items_sel(self.state, old(self).state);
        }
        r
    }

    /// Call the load hooks of the items at the given grid coordinates,
    /// discarding any per-item error: a best-effort fan-out.
    pub fn load_only_multiple(&mut self, locations: &Vec<(usize, usize)>)
        requires
            old(self).wf(),
            forall|i: int|
                0 <= i < locations@.len() ==> ({
                    let loc = #[trigger] locations@[i];
                    loc.1 < old(self).state.0@.len() && loc.0 < old(self).state.0@[loc.1 as int].items@.len()
                }),
        ensures
            final(self).wf(),
            final(self).clean == old(self).clean,
            final(self).history == old(self).history,
            final(self).state.same_items(old(self).state),
    {
        proof {
            lemma_sel_valid_for(self.state);
        }
        let selected = self.clean.cursor.selected(&self.clean.selectables);
        let hover = self.clean.cursor.hover(&self.clean.selectables);
        let mut i: usize = 0;
        while i < locations.len()
            invariant
                0 <= i <= locations@.len(),
                self.clean == old(self).clean,
                self.history == old(self).history,
                self.state.same_items(old(self).state),
                forall|j: int|
                    0 <= j < locations@.len() ==> ({
                        let loc = #[trigger] locations@[j];
                        loc.1 < old(self).state.0@.len() && loc.0 < old(self).state.0@[loc.1 as int].items@.len()
                    }),
            decreases locations@.len() - i,
        {
            let loc: (usize, usize) = locations[i];
            let info = ItemInfo {
                selected: opt_eq(selected, loc.0, loc.1),
                hover: opt_eq(hover, loc.0, loc.1),
                x: loc.0,
                y: loc.1,
            };
            let ghost pre = self.state;
            let item = self.state.get_mut(loc.0, loc.1);
            let _ = FrameworkItem::load_item(item, &mut self.clean, info);
            proof {
                assert(self.state.same_items(pre));
            }
            i = i + 1;
        }
        proof {
            lemma_same_items_sel(self.state, old(self).state);
        }
    }

    /// Split the framework into its context handle and its grid: the two
    /// disjoint halves that a dispatch needs. While both borrows live, the
    /// grid can only be reached through the second handle, so an item
    /// callback holding the first can never reshape the collection it was
    /// called from.
    pub fn split_clean(&mut self) -> (r: (&mut FrameworkClean, &mut State))
        ensures
            *r.0 == old(self).clean,
            *r.1 == old(self).state,
            *final(self) == (Framework {
                clean: *final(r.0),
                state: *final(r.1),
                history: old(self).history,
            }),
    {
        (&mut self.clean, &mut self.state)
    }
}

impl Framework {
    /// Rebuild a framework from a saved state: the snapshot's grid, index,
    /// cursor, and per-state store, with an empty global tier and an empty
    /// history.
    pub fn from_history(history: FrameworkHistory) -> (r: Framework)
        ensures
            r.clean.selectables == history.selectables,
            r.clean.data.state == history.data,
            r.clean.data.global@ == Map::<u64, crate::framework::frameworkdata::DataValue>::empty(),
            r.state == history.state,
            r.clean.cursor == history.cursor,
            r.clean.frame_area is None,
            r.history@.len() == 0,
            history.wf() ==> r.wf(),
    {
        Framework {
            clean: FrameworkClean {
                selectables: history.selectables,
                data: FrameworkData::from_parts(DataMap::new(), history.data),
                cursor: history.cursor,
                frame_area: None,
            },
            state: history.state,
            history: Vec::new(),
        }
    }
}


/// The first selectable item of one index row, from position `k` on, whose
/// rectangle under the layout of `area` contains the clicked cell.
pub open spec fn row_hit_from(
    sel_row: Seq<(usize, usize)>,
    rows: Seq<Row>,
    area: Rect,
    col: u16,
    mrow: u16,
    k: int,
) -> Option<int>
    decreases sel_row.len() - k,
{
    if k < 0 || k >= sel_row.len() {
        None
    } else {
        let c = sel_row[k];
        if chunk_spec(rows, area, c.0 as int, c.1 as int).spec_contains(col, mrow) {
            Some(k)
        } else {
            row_hit_from(sel_row, rows, area, col, mrow, k + 1)
        }
    }
}

/// The first selectable item, in index order from row `i` on, whose
/// rectangle contains the clicked cell; the answer is its column and row
/// in the selectables index.
pub open spec fn find_hit_from(
    sel: Seq<Seq<(usize, usize)>>,
    rows: Seq<Row>,
    area: Rect,
    col: u16,
    mrow: u16,
    i: int,
) -> Option<(int, int)>
    decreases sel.len() - i,
{
    if i < 0 || i >= sel.len() {
        None
    } else {
        match row_hit_from(sel[i], rows, area, col, mrow, 0) {
            Some(k) => Some((k, i)),
            None => find_hit_from(sel, rows, area, col, mrow, i + 1),
        }
    }
}

/// The first selectable item, in index order, whose rectangle contains the
/// clicked cell.
pub open spec fn find_hit(
    sel: Seq<Seq<(usize, usize)>>,
    rows: Seq<Row>,
    area: Rect,
    col: u16,
    mrow: u16,
) -> Option<(int, int)> {
    find_hit_from(sel, rows, area, col, mrow, 0)
}

impl Framework {
    /// Resolve a click at column `col`, row `mrow` of the frame, against
    /// the rectangles of the selectable items under the last rendered
    /// area.
    ///
    /// A click on the selected item goes to that item's mouse hook; one on
    /// the hovered item selects it; one on any other selectable item moves
    /// the hover there, dropping any selection; one outside every
    /// selectable rectangle resets the cursor. Without a render so far, or
    /// with a layout that no longer fits, nothing happens and the click is
    /// reported unhandled.
    pub fn mouse_event(&mut self, col: u16, mrow: u16) -> (r: bool)
        requires
            old(self).wf(),
        ensures
            final(self).wf(),
            final(self).clean.selectables == old(self).clean.selectables,
            final(self).clean.data == old(self).clean.data,
            final(self).clean.frame_area == old(self).clean.frame_area,
            final(self).history == old(self).history,
            final(self).state.same_items(old(self).state),
            old(self).clean.frame_area is None ==> r == false && final(self).clean.cursor == old(
                self,
            ).clean.cursor,
            old(self).clean.frame_area matches Some(area) ==> (!chunks_fit(
                old(self).state.0@,
                area,
            ) ==> r == false && final(self).clean.cursor == old(self).clean.cursor),
            old(self).clean.frame_area matches Some(area) ==> (chunks_fit(old(self).state.0@, area)
                ==> ({
                let hit = find_hit(
                    sel_view(old(self).clean.selectables@),
                    old(self).state.0@,
                    area,
                    col,
                    mrow,
                );
                match hit {
                    Option::None => r == true && final(self).clean.cursor == CursorState::Idle,
                    Option::Some(pos) => {
                        let at_hit = (pos.0 as usize, pos.1 as usize);
                        &&& (old(self).clean.cursor == CursorState::Selected(at_hit.0, at_hit.1)
                            ==> r == false && final(self).clean.cursor == old(self).clean.cursor)
                        &&& (old(self).clean.cursor != CursorState::Selected(at_hit.0, at_hit.1)
                            && old(self).clean.cursor == CursorState::Hover(at_hit.0, at_hit.1)
                            ==> r == true && final(self).clean.cursor == CursorState::Selected(
                            at_hit.0,
                            at_hit.1,
                        ))
                        &&& (old(self).clean.cursor != CursorState::Selected(at_hit.0, at_hit.1)
                            && old(self).clean.cursor != CursorState::Hover(at_hit.0, at_hit.1)
                            ==> r == true && final(self).clean.cursor == CursorState::Hover(
                            at_hit.0,
                            at_hit.1,
                        ))
                    },
                }
            })),
    {
        let area: Rect = match self.clean.frame_area {
            Some(area) => area,
            None => { return false },
        };
        let chunks = match self.state.get_chunks(area) {
            Ok(chunks) => chunks,
            Err(_) => { return false },
        };
        proof {
            lemma_sel_valid_for(self.state);
        }
        let ghost sel = sel_view(self.clean.selectables@);
        let ghost rows = self.state.0@;
        let nrows: usize = self.clean.selectables.len();
        let mut row_no: usize = 0;
        while row_no < nrows
            invariant
                0 <= row_no <= nrows,
                *self == *old(self),
                self.wf(),
                sel == sel_view(self.clean.selectables@),
                rows == self.state.0@,
                nrows == sel.len(),
                self.clean.frame_area == Some(area),
                area.wf(),
                chunks_fit(rows, area),
                chunks@.len() == rows.len(),
                forall|yy: int|
                    0 <= yy < chunks@.len() ==> (#[trigger] chunks@[yy])@.len()
                        == rows[yy].items@.len(),
                forall|yy: int, xx: int|
                    0 <= yy < chunks@.len() && 0 <= xx < rows[yy].items@.len() ==> (
                    #[trigger] chunks@[yy]@[xx]) == chunk_spec(rows, area, xx, yy),
                find_hit(sel, rows, area, col, mrow) == find_hit_from(
                    sel,
                    rows,
                    area,
                    col,
                    mrow,
                    row_no as int,
                ),
            decreases nrows - row_no,
        {
            let ncols: usize = self.clean.selectables[row_no].len();
            let mut col_no: usize = 0;
            while col_no < ncols
                invariant
                    0 <= col_no <= ncols,
                    0 <= row_no < nrows,
                    *self == *old(self),
                    self.wf(),
                    sel == sel_view(self.clean.selectables@),
                    rows == self.state.0@,
                    nrows == sel.len(),
                    ncols == sel[row_no as int].len(),
                    self.clean.frame_area == Some(area),
                    area.wf(),
                    chunks_fit(rows, area),
                    chunks@.len() == rows.len(),
                    forall|yy: int|
                        0 <= yy < chunks@.len() ==> (#[trigger] chunks@[yy])@.len()
                            == rows[yy].items@.len(),
                    forall|yy: int, xx: int|
                        0 <= yy < chunks@.len() && 0 <= xx < rows[yy].items@.len() ==> (
                        #[trigger] chunks@[yy]@[xx]) == chunk_spec(rows, area, xx, yy),
                    find_hit(sel, rows, area, col, mrow) == find_hit_from(
                        sel,
                        rows,
                        area,
                        col,
                        mrow,
                        row_no as int,
                    ),
                    row_hit_from(sel[row_no as int], rows, area, col, mrow, 0) == row_hit_from(
                        sel[row_no as int],
                        rows,
                        area,
                        col,
                        mrow,
                        col_no as int,
                    ),
                decreases ncols - col_no,
            {
                let loc: (usize, usize) = self.clean.selectables[row_no][col_no];
                let x: usize = loc.0;
                let y: usize = loc.1;
                proof {
                    lemma_sel_valid_for(self.state);
                    assert(sel[row_no as int][col_no as int] == loc);
                    assert(loc.1 < rows.len() && loc.0 < rows[loc.1 as int].items@.len());
                }
                let chunk: Rect = chunks[y][x];
                if chunk.contains(col, mrow) {
                    proof {
                        assert(row_hit_from(sel[row_no as int], rows, area, col, mrow, col_no as int)
                            == Some(col_no as int));
                        assert(find_hit(sel, rows, area, col, mrow) == Some(
                            (col_no as int, row_no as int),
                        ));
                    }
                    // a click on the selected item goes to its mouse hook
                    let on_selected: bool = match self.clean.cursor {
                        CursorState::Selected(cx, cy) => cx == col_no && cy == row_no,
                        _ => false,
                    };
                    if on_selected {
                        let item = self.state.get_mut(x, y);
                        let handled = FrameworkItem::mouse_event(
                            item,
                            &mut self.clean,
                            col - chunk.x,
                            mrow - chunk.y,
                            col,
                            mrow,
                        );
                        proof {
                            assert(self.state.same_items(old(self).state));
                            lemma_same_items_sel(self.state, old(self).state);
                        }
                        return handled;
                    }
                    // a click on the hovered item selects it
                    let on_hover: bool = match self.clean.cursor {
                        CursorState::Hover(cx, cy) => cx == col_no && cy == row_no,
                        _ => false,
                    };
                    if on_hover {
                        let selected = self.select();
                        proof {
                            assert(self.state.same_items(old(self).state));
                        }
                        return match selected {
                            Ok(()) => true,
                            Err(_) => false,
                        };
                    }
                    // any other selectable item: move the hover there
                    let _ = self.deselect();
                    self.clean.cursor = CursorState::to_hover((col_no, row_no));
                    proof {
                        assert(self.state.same_items(old(self).state));
                        lemma_same_items_sel(self.state, old(self).state);
                    }
                    return true;
                }
                col_no = col_no + 1;
            }
            row_no = row_no + 1;
        }
        // outside every selectable rectangle: clear everything
        let _ = self.deselect();
        self.clean.cursor = CursorState::Idle;
        proof {
            assert(self.state.same_items(old(self).state));
            lemma_same_items_sel(self.state, old(self).state);
        }
        true
    }
}


} // verus!
