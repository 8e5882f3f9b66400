//! What the event loop does with finished layouts and elapsed time. Each
//! step is a decision on the application state; the event loop drains the
//! worker, reparses the document when previews change, and performs the
//! queued actions.
use vstd::prelude::*;
use crate::diagram_model::{
    CatalogObject, DiagramCompletion, DiagramJob, DiagramOutput, ObjectId, ObjectKind, ViewOptions,
    VisibleObject,
};
use crate::diagram_nav::position_of;
use crate::diagram_search::with_viewer;
use crate::diagrams::{
    centered, clamped, first_index, first_where, lemma_first_index, lemma_first_where,
    lemma_first_where_extend, requested, same_document_view, same_outside_viewer, too_large,
    wrapping_inc, wrapping_inc_u64, App, DiagramAction, DiagramState, DiagramViewer,
};
use crate::preview_cache::{store_view, ResultView};
use crate::text::string_byte_len;
use crate::width::sat_add;

verus! {

/// Objects drawn for the group `name`.
pub open spec fn is_group_named(objects: Seq<VisibleObject>, name: Seq<char>) -> spec_fn(int) -> bool {
    |k: int| objects[k].id.kind == ObjectKind::Subgraph && objects[k].id.id@ == name
}

/// Index of the first drawn object of group `name`, or -1.
pub open spec fn group_object(objects: Seq<VisibleObject>, name: Seq<char>) -> int {
    first_where(objects.len() as int, is_group_named(objects, name))
}

/// Ancestors whose group is drawn.
pub open spec fn drawn_ancestor(objects: Seq<VisibleObject>, ancestors: Seq<String>) -> spec_fn(int) -> bool {
    |j: int| group_object(objects, ancestors[j]@) >= 0
}

pub open spec fn catalog_entry_is(catalog: Seq<CatalogObject>, id: (ObjectKind, Seq<char>)) -> spec_fn(int) -> bool {
    |i: int| catalog[i].id@ == id
}

pub open spec fn is_node_object(objects: Seq<VisibleObject>) -> spec_fn(int) -> bool {
    |k: int| objects[k].id.kind == ObjectKind::Node
}

/// The object that stands for a selection the new layout no longer draws:
/// its nearest drawn enclosing group, else the first node, else the first
/// object; -1 for an empty canvas.
pub open spec fn representative_index(o: DiagramOutput, selected: Option<ObjectId>) -> int {
    let objects = o.objects@;
    let catalog = o.catalog@;
    let through = match selected {
        Some(s) => {
            let ci = first_where(catalog.len() as int, catalog_entry_is(catalog, s@));
            if ci >= 0 {
                let anc = catalog[ci].ancestors@;
                let a = first_where(anc.len() as int, drawn_ancestor(objects, anc));
                if a >= 0 {
                    group_object(objects, anc[a]@)
                } else {
                    -1
                }
            } else {
                -1
            }
        },
        None => -1,
    };
    if through >= 0 {
        through
    } else {
        let n = first_where(objects.len() as int, is_node_object(objects));
        if n >= 0 {
            n
        } else if objects.len() > 0 {
            0
        } else {
            -1
        }
    }
}

/// The selection after a new layout: kept while drawn, otherwise its
/// representative.
pub open spec fn kept_selection(o: DiagramOutput, selected: Option<ObjectId>) -> Option<ObjectId> {
    let still = match selected {
        Some(s) => first_index(o.objects@, s@) >= 0,
        None => false,
    };
    if still {
        selected
    } else {
        let k = representative_index(o, selected);
        if k >= 0 {
            Some(o.objects@[k].id)
        } else {
            None
        }
    }
}

/// The viewer once its current layout request produced `o`: the authored
/// direction is learnt unless the alternate one is shown, the first layout
/// asks for centring, the selection is kept or replaced, and a pending
/// centring happens at once when the area is known.
pub open spec fn completed_viewer(v: DiagramViewer, o: DiagramOutput) -> DiagramViewer {
    let view = if !v.view.alternate {
        ViewOptions { authored_direction: o.direction, ..v.view }
    } else {
        v.view
    };
    let center = if v.output is None {
        true
    } else {
        v.center_after_render
    };
    let v1 = DiagramViewer {
        loading: false,
        view,
        center_after_render: center,
        selected: kept_selection(o, v.selected),
        output: Some(o),
        error: None,
        ..v
    };
    let v2 = if center && v.area.width > 0 && v.area.height > 0 {
        DiagramViewer { center_after_render: false, ..centered(v1) }
    } else {
        v1
    };
    clamped(v2)
}

/// A document preview for a block of the current document.
pub open spec fn is_document_preview(a: App, c: DiagramCompletion) -> bool {
    &&& c.job.document == a.diagrams.document
    &&& c.job.view is None
    &&& exists|i: int|
        0 <= i < a.diagrams.blocks@.len() && #[trigger] a.diagrams.blocks@[i].source@
            == c.job.source@
}

/// The answer to the open viewer's current request.
pub open spec fn is_current_viewer_job(a: App, c: DiagramCompletion) -> bool {
    &&& c.job.document == a.diagrams.document
    &&& c.job.view is Some
    &&& a.diagrams.viewer matches Some(v)
    &&& c.job.request == v.request
    &&& c.job.ordinal == v.ordinal
    &&& c.job.source@ == v.source@
}

/// A preview result as the cache stores it.
pub open spec fn preview_result(c: DiagramCompletion) -> ResultView {
    match c.result {
        Ok(o) => Ok(o.preview_view()),
        Err(e) => Err(e@),
    }
}

/// The state after one completion: a document preview is cached, the
/// viewer's current answer is shown, anything stale is ignored.
pub open spec fn absorbed(a: App, b: App, c: DiagramCompletion, changed: bool, previews: bool) -> bool {
    if is_document_preview(a, c) {
        &&& !changed && previews
        &&& b.diagrams.previews.wf()
        &&& b.diagrams.previews@ == store_view(a.diagrams.previews@, c.job.source@, preview_result(c))
        &&& b == App { diagrams: DiagramState { previews: b.diagrams.previews, ..a.diagrams }, ..a }
    } else if is_current_viewer_job(a, c) {
        &&& changed && !previews
        &&& match a.diagrams.viewer {
            Some(v) => b.diagrams.viewer == Some(
                match c.result {
                    Ok(o) => completed_viewer(v, o),
                    Err(e) => DiagramViewer { loading: false, error: Some(e), ..v },
                },
            ),
            None => false,
        }
        &&& same_outside_viewer(b, a)
    } else {
        &&& !changed && !previews
        &&& b == a
    }
}

/// `states` walks through the completions one by one: each step absorbs
/// the next completion and records whether the viewer and the previews
/// changed.
pub open spec fn absorbed_trace(states: Seq<App>, cs: Seq<DiagramCompletion>, flags: Seq<(bool, bool)>) -> bool {
    &&& states.len() == cs.len() + 1
    &&& flags.len() == cs.len()
    &&& forall|i: int|
        0 <= i < cs.len() ==> absorbed(#[trigger] states[i], states[i + 1], cs[i], flags[i].0, flags[i].1)
}

/// The state after the completions in order, and whether the viewer or
/// the previews changed on the way.
pub open spec fn absorbed_all(a: App, b: App, cs: Seq<DiagramCompletion>, changed: bool, previews: bool) -> bool {
    exists|states: Seq<App>, flags: Seq<(bool, bool)>|
        #[trigger] absorbed_trace(states, cs, flags) && states[0] == a && states.last() == b && (changed
            <==> exists|i: int| 0 <= i < flags.len() && #[trigger] flags[i].0) && (previews <==> exists|i: int|
            0 <= i < flags.len() && #[trigger] flags[i].1)
}

/// First drawn object of group `name`.
fn find_group_object(objects: &Vec<VisibleObject>, name: &String) -> (r: Option<usize>)
    ensures
        match r {
            Some(k) => group_object(objects@, name@) == k,
            None => group_object(objects@, name@) == -1,
        },
{
    let ghost p = is_group_named(objects@, name@);
    let mut k: usize = 0;
    while k < objects.len()
        invariant
            p == is_group_named(objects@, name@),
            k <= objects@.len(),
            first_where(k as int, p) == -1,
        decreases objects@.len() - k,
    {
        if objects[k].id.kind == ObjectKind::Subgraph && objects[k].id.id == *name {
            proof {
                assert(p(k as int));
                lemma_first_where_extend(objects@.len() as int, k as int, p);
            }
            return Some(k);
        }
        k = k + 1;
    }
    None
}

/// The representative of a selection the canvas does not draw.
fn find_representative(o: &DiagramOutput, selected: &Option<ObjectId>) -> (r: Option<usize>)
    ensures
        match r {
            Some(k) => representative_index(*o, *selected) == k && k < o.objects@.len(),
            None => representative_index(*o, *selected) == -1,
        },
{
    let ghost objects = o.objects@;
    let ghost catalog = o.catalog@;
    let mut through: Option<usize> = None;
    if let Some(s) = selected {
        let ghost pc = catalog_entry_is(catalog, s@);
        let mut i: usize = 0;
        let mut ci: Option<usize> = None;
        while i < o.catalog.len()
            invariant_except_break
                ci is None,
            invariant
                pc == catalog_entry_is(catalog, s@),
                catalog == o.catalog@,
                i <= catalog.len(),
                first_where(i as int, pc) == -1,
            ensures
                match ci {
                    Some(c) => first_where(catalog.len() as int, pc) == c,
                    None => first_where(catalog.len() as int, pc) == -1,
                },
            decreases catalog.len() - i,
        {
            if o.catalog[i].id.same(s) {
                proof {
                    assert(pc(i as int));
                    lemma_first_where_extend(catalog.len() as int, i as int, pc);
                }
                ci = Some(i);
                break;
            }
            i = i + 1;
        }
        if let Some(c) = ci {
            proof {
                lemma_first_where(catalog.len() as int, pc);
            }
            let anc = &o.catalog[c].ancestors;
            let ghost pa = drawn_ancestor(objects, anc@);
            let mut j: usize = 0;
            while j < anc.len()
                invariant_except_break
                    through is None,
                invariant
                    pa == drawn_ancestor(objects, anc@),
                    objects == o.objects@,
                    j <= anc@.len(),
                    first_where(j as int, pa) == -1,
                ensures
                    match through {
                        Some(k) => {
                            let a = first_where(anc@.len() as int, pa);
                            a >= 0 && group_object(objects, anc@[a]@) == k
                        },
                        None => first_where(anc@.len() as int, pa) == -1,
                    },
                decreases anc@.len() - j,
            {
                let found = find_group_object(&o.objects, &anc[j]);
                if let Some(k) = found {
                    proof {
                        assert(pa(j as int));
                        lemma_first_where_extend(anc@.len() as int, j as int, pa);
                    }
                    through = Some(k);
                    break;
                }
                j = j + 1;
            }
        }
    }
    if let Some(k) = through {
        proof {
            lemma_first_where(objects.len() as int, is_group_named(objects, o.objects@[k as int].id.id@));
            let c = first_where(catalog.len() as int, catalog_entry_is(catalog, selected->0@));
            let anc = catalog[c].ancestors@;
            let a = first_where(anc.len() as int, drawn_ancestor(objects, anc));
            lemma_first_where(objects.len() as int, is_group_named(objects, anc[a]@));
        }
        return Some(k);
    }
    let ghost pn = is_node_object(objects);
    let mut n: usize = 0;
    while n < o.objects.len()
        invariant
            pn == is_node_object(objects),
            objects == o.objects@,
            n <= objects.len(),
            first_where(n as int, pn) == -1,
            representative_index(*o, *selected) == {
                let f = first_where(objects.len() as int, pn);
                if f >= 0 {
                    f
                } else if objects.len() > 0 {
                    0
                } else {
                    -1
                }
            },
        decreases objects.len() - n,
    {
        if o.objects[n].id.kind == ObjectKind::Node {
            proof {
                assert(pn(n as int));
                lemma_first_where_extend(objects.len() as int, n as int, pn);
            }
            return Some(n);
        }
        n = n + 1;
    }
    if o.objects.len() > 0 {
        Some(0)
    } else {
        None
    }
}

/// The selection to keep after a new layout.
fn keep_selection(o: &DiagramOutput, selected: Option<ObjectId>) -> (r: Option<ObjectId>)
    ensures
        r == kept_selection(*o, selected),
{
    let still = match &selected {
        Some(s) => {
            proof {
                lemma_first_index(o.objects@, s@);
            }
            position_of(&o.objects, s).is_some()
        },
        None => false,
    };
    if still {
        return selected;
    }
    match find_representative(o, &selected) {
        Some(k) => Some(o.objects[k].id.clone()),
        None => None,
    }
}

impl DiagramViewer {
    /// Shows the layout that answered the current request.
    pub fn absorb_output(&mut self, o: DiagramOutput)
        ensures
            *final(self) == completed_viewer(*old(self), o),
    {
        self.loading = false;
        if !self.view.alternate {
            self.view.authored_direction = o.direction;
        }
        if self.output.is_none() {
            self.center_after_render = true;
        }
        let selected = self.selected.take();
        self.selected = keep_selection(&o, selected);
        self.output = Some(o);
        self.error = None;
        if self.center_after_render && self.area.width > 0 && self.area.height > 0 {
            self.center_selection();
            self.center_after_render = false;
        }
        self.clamp();
    }
}

impl App {
    /// Takes in one finished layout: caches a document preview, shows the
    /// viewer's current answer, ignores stale work. Returns whether the
    /// viewer changed and whether the previews changed.
    pub fn absorb_completion(&mut self, c: DiagramCompletion) -> (r: (bool, bool))
        requires
            old(self).diagrams.previews.wf(),
        ensures
            absorbed(*old(self), *final(self), c, r.0, r.1),
    {
        let ghost c0 = c;
        if c.job.document != self.diagrams.document {
            return (false, false);
        }
        let DiagramCompletion { job, result } = c;
        if job.view.is_none() {
            let mut found = false;
            let mut i: usize = 0;
            while i < self.diagrams.blocks.len()
                invariant_except_break
                    !found,
                invariant
                    i <= self.diagrams.blocks@.len(),
                    forall|k: int| 0 <= k < i ==> #[trigger] self.diagrams.blocks@[k].source@ != job.source@,
                ensures
                    found <==> exists|k: int|
                        0 <= k < self.diagrams.blocks@.len() && #[trigger] self.diagrams.blocks@[k].source@
                            == job.source@,
                decreases self.diagrams.blocks@.len() - i,
            {
                if self.diagrams.blocks[i].source == job.source {
                    found = true;
                    break;
                }
                i = i + 1;
            }
            if !found {
                return (false, false);
            }
            let preview = match result {
                Ok(o) => Ok(o.preview()),
                Err(e) => Err(e),
            };
            self.cache_diagram_preview(job.source, preview);
            return (false, true);
        }
        let mut viewer = match self.diagrams.viewer.take() {
            Some(v) => v,
            None => {
                return (false, false);
            },
        };
        if job.request != viewer.request || job.ordinal != viewer.ordinal || job.source != viewer.source {
            self.diagrams.viewer = Some(viewer);
            return (false, false);
        }
        match result {
            Ok(o) => viewer.absorb_output(o),
            Err(e) => {
                viewer.loading = false;
                viewer.error = Some(e);
            },
        }
        self.diagrams.viewer = Some(viewer);
        (true, false)
    }

    /// Takes in the finished layouts in order. Returns whether the viewer
    /// changed and whether the previews changed (the document then reflows).
    pub fn absorb_diagram_completions(&mut self, completions: Vec<DiagramCompletion>) -> (r: (bool, bool))
        requires
            old(self).diagrams.previews.wf(),
        ensures
            final(self).diagrams.previews.wf(),
            absorbed_all(*old(self), *final(self), completions@, r.0, r.1),
    {
        let ghost all = completions@;
        let mut rest = completions;
        let mut changed = false;
        let mut previews = false;
        let ghost mut done: int = 0;
        let ghost mut states: Seq<App> = seq![*self];
        let ghost mut flags: Seq<(bool, bool)> = seq![];
        while rest.len() > 0
            invariant
                0 <= done <= all.len(),
                rest@ == all.subrange(done, all.len() as int),
                self.diagrams.previews.wf(),
                absorbed_trace(states, all.take(done), flags),
                states[0] == *old(self),
                states.last() == *self,
                changed <==> exists|i: int| 0 <= i < flags.len() && #[trigger] flags[i].0,
                previews <==> exists|i: int| 0 <= i < flags.len() && #[trigger] flags[i].1,
            decreases rest@.len(),
        {
            let c = rest.remove(0);
            assert(c == all[done]);
            let (vc, pc) = self.absorb_completion(c);
            proof {
                let old_flags = flags;
                let old_states = states;
                states = states.push(*self);
                flags = flags.push((vc, pc));
                assert(all.take(done + 1) =~= all.take(done).push(c));
                assert forall|i: int| 0 <= i < done + 1 implies absorbed(
                    #[trigger] states[i],
                    states[i + 1],
                    all.take(done + 1)[i],
                    flags[i].0,
                    flags[i].1,
                ) by {
                    if i < done {
                        assert(old_states[i] == states[i]);
                        assert(old_states[i + 1] == states[i + 1]);
                        assert(old_flags[i] == flags[i]);
                        assert(all.take(done)[i] == all.take(done + 1)[i]);
                        assert(absorbed(old_states[i], old_states[i + 1], all.take(done)[i], old_flags[i].0, old_flags[i].1));
                    }
                }
                if vc {
                    assert(flags[done].0);
                }
                if pc {
                    assert(flags[done].1);
                }
                if changed {
                    let k = choose|k: int| 0 <= k < old_flags.len() && #[trigger] old_flags[k].0;
                    assert(flags[k].0);
                }
                if previews {
                    let k = choose|k: int| 0 <= k < old_flags.len() && #[trigger] old_flags[k].1;
                    assert(flags[k].1);
                }
                done = done + 1;
            }
            changed = changed || vc;
            previews = previews || pc;
        }
        assert(all.take(done) =~= all);
        assert(absorbed_trace(states, all, flags));
        (changed, previews)
    }
}

/// Whether the automatic overview choice is due: the first finished layout
/// with a known area.
pub open spec fn overview_due(v: DiagramViewer) -> bool {
    &&& v.auto_overview
    &&& !v.loading
    &&& v.area.width > 0
    &&& v.area.height > 0
    &&& v.output is Some
}

/// The state after the automatic overview choice: a canvas wider than the
/// area whose family can collapse groups is laid out again as an overview
/// and centred; one that fits starts at the origin. Either way the choice
/// is made only once.
pub open spec fn overview_decided(old: App, new: App, changed: bool) -> bool {
    match old.diagrams.viewer {
        Some(v) => if overview_due(v) {
            match v.output {
                Some(o) => {
                    &&& changed
                    &&& if o.width > v.area.width && o.capabilities.collapse {
                        requested(
                            with_viewer(
                                old,
                                DiagramViewer {
                                    auto_overview: false,
                                    view: ViewOptions { overview: true, ..v.view },
                                    initial_frame: true,
                                    center_after_render: true,
                                    ..v
                                },
                            ),
                            new,
                        )
                    } else if o.width <= v.area.width {
                        &&& new.diagrams.viewer == Some(
                            DiagramViewer {
                                auto_overview: false,
                                x: 0,
                                y: 0,
                                initial_frame: false,
                                center_after_render: false,
                                ..v
                            },
                        )
                        &&& same_outside_viewer(new, old)
                    } else {
                        &&& new.diagrams.viewer == Some(DiagramViewer { auto_overview: false, ..v })
                        &&& same_outside_viewer(new, old)
                    }
                },
                None => false,
            }
        } else {
            !changed && new == old
        },
        None => !changed && new == old,
    }
}

/// Whether the debounce after a width change has run out at `now` (ms).
pub open spec fn resize_due(v: DiagramViewer, now: u64) -> bool {
    v.resize_started matches Some(t) && now >= t + 120
}

/// Whether the cache holds a preview for `source`.
pub open spec fn cached(a: App, source: Seq<char>) -> bool {
    exists|i: int| 0 <= i < a.diagrams.previews@.len() && #[trigger] a.diagrams.previews@[i].0 == source
}

/// Blocks near the viewport still waiting for a document preview.
pub open spec fn wants_preview(a: App) -> spec_fn(int) -> bool {
    |i: int|
        {
            let b = a.diagrams.blocks@[i];
            &&& b.rendered_end >= a.scroll
            &&& b.rendered_start < sat_add(a.visible_end, 20)
            &&& !too_large(b.source@, a.diagrams.max_source_bytes)
            &&& !cached(a, b.source@)
        }
}

/// The state after scheduling background previews: while the viewer is
/// closed and no layout work is outstanding, the first block near the
/// viewport without a preview gets a preview job.
pub open spec fn preview_scheduled(old: App, new: App, service_busy: bool, scheduled: bool) -> bool {
    let k = first_where(old.diagrams.blocks@.len() as int, wants_preview(old));
    if old.diagrams.viewer is None && !service_busy && k >= 0 {
        let b = old.diagrams.blocks@[k];
        let req = wrapping_inc(old.diagrams.next_request);
        &&& scheduled
        &&& new == App {
            diagrams: DiagramState {
                next_request: req,
                service: true,
                actions: new.diagrams.actions,
                ..old.diagrams
            },
            ..old
        }
        &&& new.diagrams.actions@.len() == old.diagrams.actions@.len() + 1
        &&& new.diagrams.actions@.drop_last() == old.diagrams.actions@
        &&& new.diagrams.actions@.last() matches DiagramAction::Submit(j)
        &&& j == DiagramJob {
            document: old.diagrams.document,
            request: req,
            ordinal: b.ordinal,
            source: b.source,
            options: old.diagrams.options,
            view: None,
        }
    } else {
        !scheduled && new == old
    }
}

impl App {
    /// Makes the one automatic overview choice once a layout and an area
    /// are known. Returns whether anything changed.
    pub fn apply_auto_overview(&mut self) -> (changed: bool)
        ensures
            overview_decided(*old(self), *final(self), changed),
    {
        let mut viewer = match self.diagrams.viewer.take() {
            Some(v) => v,
            None => {
                return false;
            },
        };
        if !(viewer.auto_overview && !viewer.loading && viewer.area.width > 0 && viewer.area.height > 0) {
            self.diagrams.viewer = Some(viewer);
            return false;
        }
        let (wide, collapse) = match &viewer.output {
            Some(o) => (o.width > viewer.area.width as usize, o.capabilities.collapse),
            None => {
                self.diagrams.viewer = Some(viewer);
                return false;
            },
        };
        viewer.auto_overview = false;
        if wide && collapse {
            viewer.view.overview = true;
            viewer.initial_frame = true;
            viewer.center_after_render = true;
            self.diagrams.viewer = Some(viewer);
            self.request_diagram_render();
        } else {
            if !wide {
                viewer.x = 0;
                viewer.y = 0;
                viewer.initial_frame = false;
                viewer.center_after_render = false;
            }
            self.diagrams.viewer = Some(viewer);
        }
        true
    }

    /// After the document was reparsed for new previews: puts the anchor
    /// line back in view and keeps the code selection if it still exists.
    pub fn finish_diagram_reflow(&mut self, anchor: usize, selected: Option<usize>)
        ensures
            final(self).scroll == old(self).spec_restored_scroll(anchor),
            final(self).code_select == match selected {
                Some(i) => if i < old(self).code_blocks_len {
                    Some(i)
                } else {
                    None
                },
                None => None,
            },
            *final(self) == (App {
                scroll: final(self).scroll,
                code_select: final(self).code_select,
                ..*old(self)
            }),
    {
        self.restore_diagram_source_anchor(anchor);
        self.code_select = match selected {
            Some(i) => if i < self.code_blocks_len {
                Some(i)
            } else {
                None
            },
            None => None,
        };
    }

    /// Lays the viewer out again at its new width once a resize has been
    /// quiet for 120 ms. Returns whether a layout was requested.
    pub fn finish_diagram_resize(&mut self, now: u64) -> (changed: bool)
        ensures
            match old(self).diagrams.viewer {
                Some(v) => if resize_due(v, now) {
                    &&& changed
                    &&& requested(
                        with_viewer(
                            *old(self),
                            DiagramViewer {
                                view: ViewOptions {
                                    width: if v.area.width > 1 {
                                        v.area.width as usize
                                    } else {
                                        1usize
                                    },
                                    ..v.view
                                },
                                ..v
                            },
                        ),
                        *final(self),
                    )
                } else {
                    !changed && *final(self) == *old(self)
                },
                None => !changed && *final(self) == *old(self),
            },
    {
        let mut viewer = match self.diagrams.viewer.take() {
            Some(v) => v,
            None => {
                return false;
            },
        };
        let due = match viewer.resize_started {
            Some(t) => now >= t && now - t >= 120,
            None => false,
        };
        if !due {
            self.diagrams.viewer = Some(viewer);
            return false;
        }
        viewer.view.width = if viewer.area.width > 1 {
            viewer.area.width as usize
        } else {
            1
        };
        self.diagrams.viewer = Some(viewer);
        self.request_diagram_render();
        true
    }

    /// Queues a document preview for the first diagram near the viewport
    /// that has none, while the viewer is closed and the worker is idle.
    pub fn schedule_diagram_preview(&mut self, service_busy: bool) -> (scheduled: bool)
        ensures
            preview_scheduled(*old(self), *final(self), service_busy, scheduled),
    {
        let ghost p = wants_preview(*self);
        let ghost bs = self.diagrams.blocks@;
        if self.diagrams.viewer.is_some() || self.has_diagram_work(service_busy) {
            return false;
        }
        let horizon = crate::preview::add_sat(self.visible_end, 20);
        let mut i: usize = 0;
        while i < self.diagrams.blocks.len()
            invariant
                p == wants_preview(*self),
                bs == self.diagrams.blocks@,
                *self == *old(self),
                horizon == sat_add(self.visible_end, 20),
                self.diagrams.viewer is None,
                !service_busy,
                i <= bs.len(),
                first_where(i as int, p) == -1,
            decreases bs.len() - i,
        {
            let b = &self.diagrams.blocks[i];
            if b.rendered_end >= self.scroll && b.rendered_start < horizon && string_byte_len(&b.source)
                <= self.diagrams.max_source_bytes && !self.diagrams.previews.contains_key(&b.source) {
                proof {
                    assert(p(i as int));
                    lemma_first_where_extend(bs.len() as int, i as int, p);
                }
                let req = wrapping_inc_u64(self.diagrams.next_request);
                let job = DiagramJob {
                    document: self.diagrams.document,
                    request: req,
                    ordinal: b.ordinal,
                    source: b.source.clone(),
                    options: self.diagrams.options,
                    view: None,
                };
                self.diagrams.next_request = req;
                self.diagrams.service = true;
                let ghost before = self.diagrams.actions@;
                self.diagrams.actions.push(DiagramAction::Submit(job));
                assert(self.diagrams.actions@.drop_last() =~= before);
                return true;
            }
            i = i + 1;
        }
        proof {
            lemma_first_where(bs.len() as int, p);
        }
        false
    }
}

} // verus!
