//! Panning, object selection and search inside the open diagram viewer.
//! None of these lays the diagram out again unless a hidden search hit
//! must be revealed.
use vstd::prelude::*;
use crate::diagram_model::{CatalogObject, ObjectId, VisibleObject};
use crate::diagrams::{
    centered, clamped, first_index, lemma_first_index, matching_indices, query_of, same_outside_viewer,
    App, DiagramViewer,
};
use crate::preview_cache::sat_mul;
use crate::width::sat_add;

verus! {

/// `x.saturating_add_signed(d)`.
pub open spec fn sat_add_signed(x: usize, d: isize) -> usize {
    if x + d < 0 {
        0
    } else if x + d > usize::MAX {
        usize::MAX
    } else {
        (x + d) as usize
    }
}

pub fn add_signed_sat(x: usize, d: isize) -> (r: usize)
    ensures
        r == sat_add_signed(x, d),
{
    if d >= 0 {
        let u = d as usize;
        if x > usize::MAX - u {
            usize::MAX
        } else {
            x + u
        }
    } else {
        let m: usize = ((-(d + 1)) as usize) + 1;
        if x >= m {
            x - m
        } else {
            0
        }
    }
}

/// The viewer after moving the pan position by `(dx, dy)` and clamping.
pub open spec fn panned(v: DiagramViewer, dx: isize, dy: isize) -> DiagramViewer {
    clamped(DiagramViewer { x: sat_add_signed(v.x, dx), y: sat_add_signed(v.y, dy), ..v })
}

/// One page: the viewport height, at least one row.
pub open spec fn page_step(v: DiagramViewer) -> isize {
    if v.area.height > 1 {
        v.area.height as isize
    } else {
        1isize
    }
}

/// The object that Tab (or Shift-Tab) selects: the next (previous) visible
/// object after the current selection, wrapping, or the first one.
pub open spec fn next_object_index(objects: Seq<VisibleObject>, selected: Option<ObjectId>, backwards: bool) -> int {
    let len = objects.len() as int;
    let cur = match selected {
        Some(s) => first_index(objects, s@),
        None => -1,
    };
    if cur < 0 {
        0
    } else if backwards {
        if cur == 0 {
            len - 1
        } else {
            cur - 1
        }
    } else if cur + 1 == len {
        0
    } else {
        cur + 1
    }
}

/// The viewer after selecting the next (previous) object and centring it.
pub open spec fn selected_next(v: DiagramViewer, backwards: bool) -> DiagramViewer {
    match v.output {
        Some(o) => if o.objects@.len() == 0 {
            v
        } else {
            centered(
                DiagramViewer {
                    selected: Some(o.objects@[next_object_index(o.objects@, v.selected, backwards)].id),
                    ..v
                },
            )
        },
        None => v,
    }
}

/// Whether the canvas cell `(x, y)` lies in the object's bounds.
pub open spec fn hit(o: VisibleObject, x: int, y: int) -> bool {
    &&& x >= o.bounds.x
    &&& x < sat_add(o.bounds.x, o.bounds.width)
    &&& y >= o.bounds.y
    &&& y < sat_add(o.bounds.y, o.bounds.height)
}

/// Cells an object covers, saturating.
pub open spec fn hit_area(o: VisibleObject) -> usize {
    sat_mul(o.bounds.width, o.bounds.height)
}

/// Index of the first smallest object under `(x, y)`, or -1.
pub open spec fn smallest_hit(objects: Seq<VisibleObject>, x: int, y: int) -> int
    decreases objects.len(),
{
    if objects.len() == 0 {
        -1
    } else {
        let r = smallest_hit(objects.drop_last(), x, y);
        if hit(objects.last(), x, y) && (r < 0 || hit_area(objects.last()) < hit_area(
            objects.drop_last()[r],
        )) {
            objects.len() - 1
        } else {
            r
        }
    }
}

pub proof fn lemma_smallest_hit_range(objects: Seq<VisibleObject>, x: int, y: int)
    ensures
        -1 <= smallest_hit(objects, x, y) < objects.len(),
    decreases objects.len(),
{
    if objects.len() > 0 {
        lemma_smallest_hit_range(objects.drop_last(), x, y);
    }
}

/// The canvas cell under the screen cell `(column, row)`.
pub open spec fn canvas_cell(v: DiagramViewer, column: u16, row: u16) -> (int, int) {
    (v.x + (column - v.area.x), v.y + (row - v.area.y))
}

/// The viewer after a click at `(column, row)`: in diagram mode the
/// smallest object under the cell becomes selected.
pub open spec fn clicked(v: DiagramViewer, column: u16, row: u16) -> DiagramViewer {
    if v.source_mode || !v.area.spec_contains(column, row) {
        v
    } else {
        let (x, y) = canvas_cell(v, column, row);
        match v.output {
            Some(o) => {
                let k = smallest_hit(o.objects@, x, y);
                if k >= 0 {
                    DiagramViewer { selected: Some(o.objects@[k].id), ..v }
                } else {
                    v
                }
            },
            None => v,
        }
    }
}

/// Position of the first visible object with the identity `id`.
pub fn position_of(objects: &Vec<VisibleObject>, id: &ObjectId) -> (r: Option<usize>)
    ensures
        match r {
            Some(i) => first_index(objects@, id@) == i,
            None => first_index(objects@, id@) == -1,
        },
{
    proof {
        lemma_first_index(objects@, id@);
    }
    let mut i: usize = 0;
    while i < objects.len()
        invariant
            i <= objects@.len(),
            forall|j: int| 0 <= j < i ==> #[trigger] objects@[j].id@ != id@,
            -1 <= first_index(objects@, id@) < objects@.len(),
            first_index(objects@, id@) >= 0 ==> objects@[first_index(objects@, id@)].id@ == id@,
            first_index(objects@, id@) == -1 ==> forall|j: int|
                0 <= j < objects@.len() ==> #[trigger] objects@[j].id@ != id@,
            forall|j: int| 0 <= j < first_index(objects@, id@) ==> #[trigger] objects@[j].id@ != id@,
        decreases objects@.len() - i,
    {
        if objects[i].id.same(id) {
            proof {
                let f = first_index(objects@, id@);
                if f != i as int {
                    assert(f < i || f == -1);
                }
            }
            return Some(i);
        }
        i = i + 1;
    }
    None
}

/// `(i + n - 1) % n` and `(i + 1) % n`, computed without overflow.
pub fn cycle_index(i: usize, n: usize, backwards: bool) -> (r: usize)
    requires
        n > 0,
    ensures
        r == if backwards {
            (i + n - 1) % (n as int)
        } else {
            (i + 1) % (n as int)
        },
{
    let r = i % n;
    proof {
        let q = i as int / n as int;
        vstd::arithmetic::div_mod::lemma_fundamental_div_mod(i as int, n as int);
        assert(i as int == q * n + r) by (nonlinear_arith)
            requires
                i as int == n * q + r,
        ;
        if backwards {
            if r == 0 {
                vstd::arithmetic::div_mod::lemma_fundamental_div_mod_converse_mod(
                    i + n - 1,
                    n as int,
                    q,
                    n - 1,
                );
            } else {
                assert(i + n - 1 == (q + 1) * n + (r - 1)) by (nonlinear_arith)
                    requires
                        i as int == q * n + r,
                ;
                vstd::arithmetic::div_mod::lemma_fundamental_div_mod_converse_mod(
                    i + n - 1,
                    n as int,
                    q + 1,
                    r - 1,
                );
            }
        } else {
            if r + 1 < n {
                vstd::arithmetic::div_mod::lemma_fundamental_div_mod_converse_mod(
                    i + 1,
                    n as int,
                    q,
                    r + 1,
                );
            } else {
                assert(i + 1 == (q + 1) * n + 0) by (nonlinear_arith)
                    requires
                        i as int == q * n + r,
                        r + 1 == n,
                ;
                vstd::arithmetic::div_mod::lemma_fundamental_div_mod_converse_mod(
                    i + 1,
                    n as int,
                    q + 1,
                    0,
                );
            }
        }
    }
    if backwards {
        if r == 0 {
            n - 1
        } else {
            r - 1
        }
    } else if r + 1 == n {
        0
    } else {
        r + 1
    }
}

impl App {
    /// Pans by `(dx, dy)`, saturating, then clamps; no relayout.
    pub fn pan_diagram(&mut self, dx: isize, dy: isize)
        ensures
            match old(self).diagrams.viewer {
                Some(v) => final(self).diagrams.viewer == Some(panned(v, dx, dy)),
                None => final(self).diagrams.viewer is None,
            },
            same_outside_viewer(*final(self), *old(self)),
    {
        if let Some(mut viewer) = self.diagrams.viewer.take() {
            viewer.x = add_signed_sat(viewer.x, dx);
            viewer.y = add_signed_sat(viewer.y, dy);
            viewer.clamp();
            self.diagrams.viewer = Some(viewer);
        }
    }

    /// Returns the pan position to the canvas origin.
    pub fn reset_diagram_pan(&mut self)
        ensures
            match old(self).diagrams.viewer {
                Some(v) => final(self).diagrams.viewer == Some(DiagramViewer { x: 0, y: 0, ..v }),
                None => final(self).diagrams.viewer is None,
            },
            same_outside_viewer(*final(self), *old(self)),
    {
        if let Some(mut viewer) = self.diagrams.viewer.take() {
            viewer.x = 0;
            viewer.y = 0;
            self.diagrams.viewer = Some(viewer);
        }
    }

    /// Pans one viewport height down or up.
    pub fn diagram_page(&mut self, down: bool)
        ensures
            match old(self).diagrams.viewer {
                Some(v) => final(self).diagrams.viewer == Some(
                    panned(v, 0, if down { page_step(v) } else { (-page_step(v)) as isize }),
                ),
                None => final(self).diagrams.viewer is None,
            },
            same_outside_viewer(*final(self), *old(self)),
    {
        let step: isize = match &self.diagrams.viewer {
            Some(v) => if v.area.height > 1 {
                v.area.height as isize
            } else {
                1
            },
            None => 1,
        };
        self.pan_diagram(0, if down { step } else { -step });
    }

    /// Selects the next (or previous) visible object and centres it.
    pub fn select_next_diagram_object(&mut self, backwards: bool)
        ensures
            match old(self).diagrams.viewer {
                Some(v) => final(self).diagrams.viewer == Some(selected_next(v, backwards)),
                None => final(self).diagrams.viewer is None,
            },
            same_outside_viewer(*final(self), *old(self)),
    {
        let mut viewer = match self.diagrams.viewer.take() {
            Some(v) => v,
            None => {
                return;
            },
        };
        let ghost v0 = viewer;
        let id = match &viewer.output {
            Some(output) => {
                let length = output.objects.len();
                if length == 0 {
                    None
                } else {
                    let current = match &viewer.selected {
                        Some(s) => {
                            proof {
                                lemma_first_index(output.objects@, s@);
                            }
                            position_of(&output.objects, s)
                        },
                        None => None,
                    };
                    let next = match current {
                        Some(i) => if backwards {
                            if i == 0 {
                                length - 1
                            } else {
                                i - 1
                            }
                        } else if i + 1 == length {
                            0
                        } else {
                            i + 1
                        },
                        None => 0,
                    };
                    assert(next == next_object_index(output.objects@, viewer.selected, backwards));
                    Some(output.objects[next].id.clone())
                }
            },
            None => None,
        };
        if let Some(id) = id {
            viewer.selected = Some(id);
            viewer.center_selection();
        }
        self.diagrams.viewer = Some(viewer);
    }

    /// Selects the smallest visible object under a mouse click.
    pub fn select_diagram_at(&mut self, column: u16, row: u16)
        requires
            match old(self).diagrams.viewer {
                Some(v) => !v.source_mode && v.area.spec_contains(column, row) ==> canvas_cell(
                    v,
                    column,
                    row,
                ).0 <= usize::MAX && canvas_cell(v, column, row).1 <= usize::MAX,
                None => true,
            },
        ensures
            match old(self).diagrams.viewer {
                Some(v) => final(self).diagrams.viewer == Some(clicked(v, column, row)),
                None => final(self).diagrams.viewer is None,
            },
            same_outside_viewer(*final(self), *old(self)),
    {
        let mut viewer = match self.diagrams.viewer.take() {
            Some(v) => v,
            None => {
                return;
            },
        };
        if viewer.source_mode || !viewer.area.contains(column, row) {
            self.diagrams.viewer = Some(viewer);
            return;
        }
        let x = viewer.x + (column - viewer.area.x) as usize;
        let y = viewer.y + (row - viewer.area.y) as usize;
        let found = match &viewer.output {
            Some(output) => {
                let ghost objs = output.objects@;
                let mut best: Option<usize> = None;
                let mut best_area: usize = 0;
                let mut i: usize = 0;
                while i < output.objects.len()
                    invariant
                        objs == output.objects@,
                        i <= objs.len(),
                        match best {
                            Some(b) => smallest_hit(objs.take(i as int), x as int, y as int) == b
                                && b < i && best_area == hit_area(objs[b as int]),
                            None => smallest_hit(objs.take(i as int), x as int, y as int) == -1,
                        },
                    decreases objs.len() - i,
                {
                    proof {
                        let t = objs.take(i + 1);
                        assert(t.drop_last() =~= objs.take(i as int));
                        assert(t.last() == objs[i as int]);
                        if let Some(b) = best {
                            assert(t.drop_last()[b as int] == objs[b as int]);
                        }
                    }
                    let b = &output.objects[i].bounds;
                    let inside = x >= b.x && x < crate::preview::add_sat(b.x, b.width) && y >= b.y
                        && y < crate::preview::add_sat(b.y, b.height);
                    if inside {
                        let area = if b.height != 0 && b.width > usize::MAX / b.height {
                            usize::MAX
                        } else {
                            proof {
                                if b.height != 0 {
                                    assert(b.width * b.height <= usize::MAX) by (nonlinear_arith)
                                        requires
                                            b.width <= usize::MAX / b.height,
                                            b.height > 0,
                                    ;
                                }
                            }
                            b.width * b.height
                        };
                        proof {
                            if b.height != 0 && b.width > usize::MAX / b.height {
                                assert(b.width * b.height > usize::MAX) by (nonlinear_arith)
                                    requires
                                        b.width > usize::MAX / b.height,
                                        b.height > 0,
                                ;
                            }
                        }
                        let better = match best {
                            Some(_) => area < best_area,
                            None => true,
                        };
                        if better {
                            best = Some(i);
                            best_area = area;
                        }
                    }
                    i = i + 1;
                }
                assert(objs.take(objs.len() as int) =~= objs);
                match best {
                    Some(k) => Some(output.objects[k].id.clone()),
                    None => None,
                }
            },
            None => None,
        };
        if let Some(id) = found {
            viewer.selected = Some(id);
        }
        self.diagrams.viewer = Some(viewer);
    }
}

} // verus!
