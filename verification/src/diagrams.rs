//! The fullscreen diagram viewer and the document's diagram bookkeeping.
//! Decisions live here; the event loop performs the queued actions (layout
//! jobs, cancellations, clipboard writes) and reports results back.
use vstd::prelude::*;
use crate::diagram_model::{
    selection_is, spec_initial_view, CatalogObject, DiagramJob, DiagramOutput, MermaidOptions,
    ObjectId, ObjectKind, ViewOptions,
};
use crate::preview::{add_sat, sat_sub, CellRect};
use crate::preview_cache::{store_view, result_view, MermaidCache};
use crate::text::{
    chars_of, contains_chars, contains_spec, display_width_chars, lines_of, lines_spec,
    to_lowercase, unicode_lowercase, unicode_width_of,
};
use crate::width::sat_add;
use vstd::string::StringExecFns;

verus! {

/// A rectangle of terminal cells on screen.
#[derive(Clone, Copy, Debug, Default, PartialEq, Eq, Structural)]
pub struct Rect {
    pub x: u16,
    pub y: u16,
    pub width: u16,
    pub height: u16,
}

impl Rect {
    /// Whether the cell `(column, row)` lies inside.
    pub open spec fn spec_contains(&self, column: u16, row: u16) -> bool {
        column >= self.x && (column as int) < self.x + self.width && row >= self.y && (row as int)
            < self.y + self.height
    }

    pub fn contains(&self, column: u16, row: u16) -> (r: bool)
        ensures
            r == self.spec_contains(column, row),
    {
        column >= self.x && (column as u32) < (self.x as u32) + (self.width as u32) && row
            >= self.y && (row as u32) < (self.y as u32) + (self.height as u32)
    }
}

/// Where a Mermaid block sits in the rendered document.
#[derive(Debug)]
pub struct DiagramBlockInfo {
    pub ordinal: usize,
    pub code_block_index: usize,
    pub source: String,
    pub rendered_start: usize,
    pub rendered_end: usize,
    pub source_line: usize,
}

/// Work the event loop performs for the diagram state machine.
#[derive(Debug)]
pub enum DiagramAction {
    /// Hand a layout job to the worker (starting it on first use).
    Submit(DiagramJob),
    /// Drop queued viewer work and cancel a running viewer solve.
    CancelForeground,
    /// Drop all queued work and cancel whatever is running.
    CancelAll,
    /// Copy the original Mermaid source, then report the outcome.
    CopySource(String),
}

/// The open viewer: one diagram, its requested view, pan and selection.
#[derive(Debug)]
pub struct DiagramViewer {
    pub source: String,
    pub ordinal: usize,
    pub view: ViewOptions,
    pub output: Option<DiagramOutput>,
    pub error: Option<String>,
    pub loading: bool,
    pub request: u64,
    pub x: usize,
    pub y: usize,
    pub area: Rect,
    pub source_mode: bool,
    pub help: bool,
    pub source_offsets: (usize, usize),
    pub diagram_offsets: (usize, usize),
    pub selected: Option<ObjectId>,
    pub search: Option<String>,
    pub search_index: usize,
    pub feedback: Option<String>,
    /// Milliseconds timestamp of an area width change still to be laid out.
    pub resize_started: Option<u64>,
    pub center_after_render: bool,
    pub initial_frame: bool,
    pub auto_overview: bool,
}

/// The widest line, in display cells.
pub open spec fn max_line_width(lines: Seq<Seq<char>>) -> usize
    decreases lines.len(),
{
    if lines.len() == 0 {
        0
    } else {
        let rest = max_line_width(lines.drop_last());
        let w = unicode_width_of(lines.last());
        if w > rest {
            w
        } else {
            rest
        }
    }
}

/// Pan limits for a canvas: half a viewport of trailing space lets edge
/// nodes be centred. Source mode keeps ordinary document scroll limits.
pub open spec fn pan_limits(width: usize, height: usize, area: Rect) -> (usize, usize) {
    let hw = if area.width / 2 > 1 {
        (area.width / 2) as usize
    } else {
        1usize
    };
    let hh = if area.height / 2 > 1 {
        (area.height / 2) as usize
    } else {
        1usize
    };
    (sat_sub(width, hw), sat_sub(height, hh))
}

pub open spec fn min_usize(a: usize, b: usize) -> usize {
    if a < b {
        a
    } else {
        b
    }
}

/// The identity view of an optional selection.
pub open spec fn selection_view(s: Option<ObjectId>) -> Option<(ObjectKind, Seq<char>)> {
    match s {
        Some(id) => Some(id@),
        None => None,
    }
}

/// The lowercase query a search compares against.
pub open spec fn query_of(search: Option<String>) -> Seq<char> {
    unicode_lowercase(
        match search {
            Some(q) => q@,
            None => seq![],
        },
    )
}

/// A catalog entry matches when its identifier or label contains the query,
/// both compared in lowercase.
pub open spec fn entry_matches(entry: CatalogObject, query: Seq<char>) -> bool {
    contains_spec(unicode_lowercase(entry.id.id@), query) || contains_spec(
        unicode_lowercase(entry.label@),
        query,
    )
}

/// Indices of the catalog entries that match, in catalog order.
pub open spec fn matching_indices(catalog: Seq<CatalogObject>, query: Seq<char>) -> Seq<usize>
    decreases catalog.len(),
{
    if catalog.len() == 0 {
        seq![]
    } else {
        let rest = matching_indices(catalog.drop_last(), query);
        if entry_matches(catalog.last(), query) {
            rest.push((catalog.len() - 1) as usize)
        } else {
            rest
        }
    }
}

/// The pan origin that centres `b` in `area`.
pub open spec fn centering_origin(b: CellRect, area: Rect) -> (usize, usize) {
    (
        sat_sub(sat_add(b.x, b.width / 2), (area.width / 2) as usize),
        sat_sub(sat_add(b.y, b.height / 2), (area.height / 2) as usize),
    )
}

/// Index of the first visible object with identity `id`.
pub open spec fn first_object(objects: Seq<crate::diagram_model::VisibleObject>, id: (ObjectKind, Seq<char>), k: int) -> bool {
    0 <= k < objects.len() && objects[k].id@ == id && forall|j: int|
        0 <= j < k ==> #[trigger] objects[j].id@ != id
}

/// Index of the first visible object with identity `id`, or -1.
pub open spec fn first_index(objects: Seq<crate::diagram_model::VisibleObject>, id: (ObjectKind, Seq<char>)) -> int
    decreases objects.len(),
{
    if objects.len() == 0 {
        -1
    } else {
        let r = first_index(objects.drop_last(), id);
        if r >= 0 {
            r
        } else if objects.last().id@ == id {
            objects.len() - 1
        } else {
            -1
        }
    }
}

pub proof fn lemma_first_index(objects: Seq<crate::diagram_model::VisibleObject>, id: (ObjectKind, Seq<char>))
    ensures
        -1 <= first_index(objects, id) < objects.len(),
        first_index(objects, id) >= 0 ==> objects[first_index(objects, id)].id@ == id,
        first_index(objects, id) == -1 ==> forall|j: int| 0 <= j < objects.len() ==> #[trigger] objects[j].id@ != id,
        forall|j: int| 0 <= j < first_index(objects, id) ==> #[trigger] objects[j].id@ != id,
    decreases objects.len(),
{
    if objects.len() > 0 {
        lemma_first_index(objects.drop_last(), id);
        assert forall|j: int| 0 <= j < objects.len() - 1 implies #[trigger] objects[j] == objects.drop_last()[j] by {}
    }
}

/// Where centring on `(cx, cy)` leaves the pan: `((x, y), diagram_offsets)`.
/// Source mode only records the diagram position for when it returns.
pub open spec fn apply_center(v: DiagramViewer, cx: usize, cy: usize) -> ((usize, usize), (usize, usize)) {
    if v.source_mode {
        match v.output {
            Some(o) => {
                let pl = pan_limits(o.width, o.height, v.area);
                ((v.x, v.y), (min_usize(cx, pl.0), min_usize(cy, pl.1)))
            },
            None => ((v.x, v.y), v.diagram_offsets),
        }
    } else {
        let lim = v.spec_limits();
        ((min_usize(cx, lim.0), min_usize(cy, lim.1)), v.diagram_offsets)
    }
}

/// The viewer after panning to `(cx, cy)` as `apply_center` describes.
pub open spec fn with_pan(v: DiagramViewer, cx: usize, cy: usize) -> DiagramViewer {
    let (p, d) = apply_center(v, cx, cy);
    DiagramViewer { x: p.0, y: p.1, diagram_offsets: d, ..v }
}

/// The viewer with its pan position clamped to the limits.
pub open spec fn clamped(v: DiagramViewer) -> DiagramViewer {
    let lim = v.spec_limits();
    DiagramViewer { x: min_usize(v.x, lim.0), y: min_usize(v.y, lim.1), ..v }
}

/// The starting frame the viewer opens on, when it still owes one.
pub open spec fn pending_initial_view(v: DiagramViewer) -> Option<(ObjectId, usize, usize)> {
    if v.initial_frame && v.area.width > 0 && v.area.height > 0 {
        match v.output {
            Some(o) => spec_initial_view(o, v.area.width as usize, v.area.height as usize),
            None => None,
        }
    } else {
        None
    }
}

/// The viewer after `center_selection`: the first time it has an area, an
/// oversized canvas opens on its populated starting frame; otherwise the
/// selected object is centred.
pub open spec fn centered(v: DiagramViewer) -> DiagramViewer {
    let v1 = if v.initial_frame && v.area.width > 0 && v.area.height > 0 {
        DiagramViewer { initial_frame: false, ..v }
    } else {
        v
    };
    match pending_initial_view(v) {
        Some((sel, x, y)) => with_pan(DiagramViewer { selected: Some(sel), ..v1 }, x, y),
        None => match (v.selected, v.output) {
            (Some(sel), Some(o)) => if first_index(o.objects@, sel@) >= 0 {
                let c = centering_origin(o.objects@[first_index(o.objects@, sel@)].bounds, v.area);
                with_pan(v1, c.0, c.1)
            } else {
                v1
            },
            _ => v1,
        },
    }
}

/// Fields untouched by navigation: the diagram, its request and the view.
pub open spec fn same_content(a: DiagramViewer, b: DiagramViewer) -> bool {
    &&& a.source == b.source
    &&& a.ordinal == b.ordinal
    &&& a.view == b.view
    &&& a.output == b.output
    &&& a.error == b.error
    &&& a.loading == b.loading
    &&& a.request == b.request
}

/// Screen and interaction fields.
pub open spec fn same_ui(a: DiagramViewer, b: DiagramViewer) -> bool {
    &&& a.area == b.area
    &&& a.source_mode == b.source_mode
    &&& a.help == b.help
    &&& a.search == b.search
    &&& a.search_index == b.search_index
    &&& a.feedback == b.feedback
}

/// Deferred-work flags.
pub open spec fn same_flags(a: DiagramViewer, b: DiagramViewer) -> bool {
    &&& a.resize_started == b.resize_started
    &&& a.center_after_render == b.center_after_render
    &&& a.initial_frame == b.initial_frame
    &&& a.auto_overview == b.auto_overview
}

/// Pan positions and selection.
pub open spec fn same_nav(a: DiagramViewer, b: DiagramViewer) -> bool {
    &&& a.x == b.x
    &&& a.y == b.y
    &&& a.source_offsets == b.source_offsets
    &&& a.diagram_offsets == b.diagram_offsets
    &&& a.selected == b.selected
}

impl DiagramViewer {
    /// Canvas extent: the original source in source mode, otherwise the
    /// rendered canvas (nothing before the first layout).
    pub open spec fn spec_extent(&self) -> (usize, usize) {
        if self.source_mode {
            (max_line_width(lines_spec(self.source@)), lines_spec(self.source@).len() as usize)
        } else {
            match self.output {
                Some(o) => (o.width, o.height),
                None => (0usize, 0usize),
            }
        }
    }

    /// The largest pan position in each direction.
    pub open spec fn spec_limits(&self) -> (usize, usize) {
        let (w, h) = self.spec_extent();
        if self.source_mode {
            (sat_sub(w, self.area.width as usize), sat_sub(h, self.area.height as usize))
        } else {
            pan_limits(w, h, self.area)
        }
    }

    pub fn extent(&self) -> (r: (usize, usize))
        ensures
            r == self.spec_extent(),
    {
        if self.source_mode {
            let chars = chars_of(self.source.as_str());
            let lines = lines_of(chars.as_slice());
            let mut widest: usize = 0;
            let mut i: usize = 0;
            while i < lines.len()
                invariant
                    lines@.len() == lines_spec(self.source@).len(),
                    forall|k: int| 0 <= k < lines@.len() ==> #[trigger] lines@[k]@ == lines_spec(self.source@)[k],
                    i <= lines@.len(),
                    widest == max_line_width(lines_spec(self.source@).take(i as int)),
                decreases lines@.len() - i,
            {
                proof {
                    let t = lines_spec(self.source@).take(i + 1);
                    assert(t.drop_last() =~= lines_spec(self.source@).take(i as int));
                }
                let w = display_width_chars(lines[i].as_slice());
                if w > widest {
                    widest = w;
                }
                i = i + 1;
            }
            assert(lines_spec(self.source@).take(lines@.len() as int) =~= lines_spec(self.source@));
            (widest, lines.len())
        } else {
            match &self.output {
                Some(o) => (o.width, o.height),
                None => (0, 0),
            }
        }
    }

    pub fn diagram_pan_limits(width: usize, height: usize, area: Rect) -> (r: (usize, usize))
        ensures
            r == pan_limits(width, height, area),
    {
        let hw: usize = if area.width / 2 > 1 {
            (area.width / 2) as usize
        } else {
            1
        };
        let hh: usize = if area.height / 2 > 1 {
            (area.height / 2) as usize
        } else {
            1
        };
        (if width >= hw {
            width - hw
        } else {
            0
        }, if height >= hh {
            height - hh
        } else {
            0
        })
    }

    /// Keeps the pan position inside the limits.
    pub fn clamp(&mut self)
        ensures
            *final(self) == clamped(*old(self)),
    {
        let (width, height) = self.extent();
        let (x_limit, y_limit) = if self.source_mode {
            (if width >= self.area.width as usize {
                width - self.area.width as usize
            } else {
                0
            }, if height >= self.area.height as usize {
                height - self.area.height as usize
            } else {
                0
            })
        } else {
            Self::diagram_pan_limits(width, height, self.area)
        };
        if self.x > x_limit {
            self.x = x_limit;
        }
        if self.y > y_limit {
            self.y = y_limit;
        }
    }

    /// Moves the selection into view: the first time with an area, an
    /// oversized canvas opens on its populated starting frame; otherwise the
    /// selected object is centred (in source mode only the diagram position
    /// to return to is updated).
    pub fn center_selection(&mut self)
        ensures
            *final(self) == centered(*old(self)),
    {
        if self.initial_frame && self.area.width > 0 && self.area.height > 0 {
            self.initial_frame = false;
            let initial = match &self.output {
                Some(output) => output.initial_view(self.area.width as usize, self.area.height as usize),
                None => None,
            };
            if let Some((selected, x, y)) = initial {
                self.selected = Some(selected);
                self.move_to(x, y);
                return;
            }
        }
        let target = match (&self.selected, &self.output) {
            (Some(selected), Some(output)) => {
                let mut i: usize = 0;
                let mut found: Option<CellRect> = None;
                proof {
                    lemma_first_index(output.objects@, selected@);
                }
                while i < output.objects.len()
                    invariant_except_break
                        found is None,
                    invariant
                        i <= output.objects@.len(),
                        forall|j: int| 0 <= j < i ==> #[trigger] output.objects@[j].id@ != selected@,
                        -1 <= first_index(output.objects@, selected@) < output.objects@.len(),
                        first_index(output.objects@, selected@) >= 0 ==> output.objects@[first_index(output.objects@, selected@)].id@ == selected@,
                        first_index(output.objects@, selected@) == -1 ==> forall|j: int| 0 <= j < output.objects@.len() ==> #[trigger] output.objects@[j].id@ != selected@,
                        forall|j: int| 0 <= j < first_index(output.objects@, selected@) ==> #[trigger] output.objects@[j].id@ != selected@,
                    ensures
                        found matches Some(b) ==> first_index(output.objects@, selected@) >= 0
                            && b == output.objects@[first_index(output.objects@, selected@)].bounds,
                        found is None ==> first_index(output.objects@, selected@) == -1,
                    decreases output.objects@.len() - i,
                {
                    if output.objects[i].id.same(selected) {
                        proof {
                            lemma_first_index(output.objects@, selected@);
                            let f = first_index(output.objects@, selected@);
                            if f != i as int {
                                assert(f < i || f == -1);
                            }
                        }
                        found = Some(output.objects[i].bounds);
                        break;
                    }
                    i = i + 1;
                }
                found
            },
            _ => None,
        };
        if let Some(bounds) = target {
            let x = add_sat(bounds.x, bounds.width / 2);
            let y = add_sat(bounds.y, bounds.height / 2);
            let half_w = (self.area.width / 2) as usize;
            let half_h = (self.area.height / 2) as usize;
            self.move_to(if x >= half_w {
                x - half_w
            } else {
                0
            }, if y >= half_h {
                y - half_h
            } else {
                0
            });
        }
    }

    /// Pans to `(x, y)` (clamped), or in source mode records it as the
    /// diagram position to return to.
    fn move_to(&mut self, x: usize, y: usize)
        ensures
            *final(self) == with_pan(*old(self), x, y),
    {
        if self.source_mode {
            if let Some(output) = &self.output {
                let (x_limit, y_limit) = Self::diagram_pan_limits(output.width, output.height, self.area);
                self.diagram_offsets = (if x < x_limit {
                    x
                } else {
                    x_limit
                }, if y < y_limit {
                    y
                } else {
                    y_limit
                });
            }
        } else {
            self.x = x;
            self.y = y;
            self.clamp();
        }
    }

    /// Catalog indices matching the current search, in catalog order.
    pub fn search_matches(&self) -> (r: Vec<usize>)
        ensures
            self.output is None ==> r@.len() == 0,
            self.output matches Some(o) ==> r@ == matching_indices(o.catalog@, query_of(self.search)),
    {
        let output = match &self.output {
            Some(o) => o,
            None => {
                return Vec::new();
            },
        };
        let query = match &self.search {
            Some(q) => to_lowercase(q.as_str()),
            None => to_lowercase(""),
        };
        proof {
            reveal_strlit("");
            assert(""@ =~= Seq::<char>::empty());
        }
        let mut out: Vec<usize> = Vec::new();
        let mut i: usize = 0;
        while i < output.catalog.len()
            invariant
                i <= output.catalog@.len(),
                query@ == query_of(self.search),
                out@ == matching_indices(output.catalog@.take(i as int), query@),
            decreases output.catalog@.len() - i,
        {
            proof {
                let t = output.catalog@.take(i + 1);
                assert(t.drop_last() =~= output.catalog@.take(i as int));
            }
            let entry = &output.catalog[i];
            let id = to_lowercase(entry.id.id.as_str());
            let label = to_lowercase(entry.label.as_str());
            if contains_chars(id.as_slice(), query.as_slice()) || contains_chars(
                label.as_slice(),
                query.as_slice(),
            ) {
                out.push(i);
            }
            i = i + 1;
        }
        assert(output.catalog@.take(output.catalog@.len() as int) =~= output.catalog@);
        out
    }
}


/// Shown when `v` finds no diagram to open.
pub const NO_DIAGRAM_IN_VIEW: &'static str = "No Mermaid diagram in view";

/// Shown instead of laying out a source beyond the engine's input limit.
pub const SOURCE_TOO_LARGE: &'static str =
    "Mermaid source exceeds the input limit; s shows original source";

/// The diagram part of the application state.
#[derive(Debug)]
pub struct DiagramState {
    pub blocks: Vec<DiagramBlockInfo>,
    pub options: MermaidOptions,
    pub previews: MermaidCache,
    /// Whether the layout worker has been started.
    pub service: bool,
    /// Generation of the document; a reload or option change starts a new one.
    pub document: u64,
    pub next_request: u64,
    pub viewer: Option<DiagramViewer>,
    /// Work for the event loop, oldest first.
    pub actions: Vec<DiagramAction>,
    /// The layout engine's input limit, in bytes of Mermaid source.
    pub max_source_bytes: usize,
}

impl DiagramState {
    pub fn new(max_source_bytes: usize) -> (r: DiagramState)
        ensures
            r.blocks@.len() == 0,
            r.options == MermaidOptions::spec_configured_default(),
            r.previews@.len() == 0,
            r.previews.wf(),
            !r.service,
            r.document == 1,
            r.next_request == 0,
            r.viewer is None,
            r.actions@.len() == 0,
            r.max_source_bytes == max_source_bytes,
    {
        DiagramState {
            blocks: Vec::new(),
            options: MermaidOptions::configured_default(),
            previews: MermaidCache::new(),
            service: false,
            document: 1,
            next_request: 0,
            viewer: None,
            actions: Vec::new(),
            max_source_bytes,
        }
    }
}

/// The document view state the diagram features read and write.
#[derive(Debug)]
pub struct App {
    pub diagrams: DiagramState,
    /// First rendered line shown.
    pub scroll: usize,
    /// The selected code block, if any.
    pub code_select: Option<usize>,
    pub content_area: Rect,
    pub render_width: usize,
    /// First rendered line below the viewport, kept current by the event loop.
    pub visible_end: usize,
    /// Largest scroll position, kept current by the event loop.
    pub max_scroll: usize,
    /// Source line of each rendered line.
    pub source_line_map: Vec<usize>,
    /// Number of code blocks in the rendered document.
    pub code_blocks_len: usize,
    pub scrollbar_dragging: bool,
    pub hovered_link: Option<usize>,
    pub last_click: Option<(u16, u16, u64)>,
    pub config_warning: Option<String>,
    /// Where the pointer was at the last mouse event.
    pub mouse_position: (u16, u16),
}

/// First index below `n` satisfying `p`, or -1.
pub open spec fn first_where(n: int, p: spec_fn(int) -> bool) -> int
    decreases n,
{
    if n <= 0 {
        -1
    } else {
        let r = first_where(n - 1, p);
        if r >= 0 {
            r
        } else if p(n - 1) {
            n - 1
        } else {
            -1
        }
    }
}

pub proof fn lemma_first_where(n: int, p: spec_fn(int) -> bool)
    requires
        n >= 0,
    ensures
        -1 <= first_where(n, p) < n,
        first_where(n, p) >= 0 ==> p(first_where(n, p)),
        first_where(n, p) == -1 ==> forall|j: int| 0 <= j < n ==> !#[trigger] p(j),
        forall|j: int| 0 <= j < first_where(n, p) ==> !#[trigger] p(j),
    decreases n,
{
    if n > 0 {
        lemma_first_where(n - 1, p);
    }
}

/// Everything outside the viewer is unchanged.
pub open spec fn same_outside_viewer(a: App, b: App) -> bool {
    &&& a.diagrams.blocks == b.diagrams.blocks
    &&& a.diagrams.options == b.diagrams.options
    &&& a.diagrams.previews == b.diagrams.previews
    &&& a.diagrams.service == b.diagrams.service
    &&& a.diagrams.document == b.diagrams.document
    &&& a.diagrams.next_request == b.diagrams.next_request
    &&& a.diagrams.actions == b.diagrams.actions
    &&& a.diagrams.max_source_bytes == b.diagrams.max_source_bytes
    &&& same_document_view(a, b)
}

/// The state after `close_diagram`: no viewer, its pending and running
/// work cancelled, and a request number no late completion can match.
pub open spec fn diagram_closed(old_app: App, new_app: App) -> bool {
    &&& new_app.diagrams.viewer is None
    &&& new_app.diagrams.next_request == wrapping_inc(old_app.diagrams.next_request)
    &&& new_app.diagrams.actions@ == if old_app.diagrams.service {
        old_app.diagrams.actions@.push(DiagramAction::CancelForeground)
    } else {
        old_app.diagrams.actions@
    }
    &&& new_app.diagrams.blocks == old_app.diagrams.blocks
    &&& new_app.diagrams.options == old_app.diagrams.options
    &&& new_app.diagrams.previews == old_app.diagrams.previews
    &&& new_app.diagrams.service == old_app.diagrams.service
    &&& new_app.diagrams.document == old_app.diagrams.document
    &&& new_app.diagrams.max_source_bytes == old_app.diagrams.max_source_bytes
    &&& same_document_view(new_app, old_app)
}

/// The document view fields are unchanged.
pub open spec fn same_document_view(a: App, b: App) -> bool {
    &&& a.scroll == b.scroll
    &&& a.code_select == b.code_select
    &&& a.content_area == b.content_area
    &&& a.render_width == b.render_width
    &&& a.visible_end == b.visible_end
    &&& a.max_scroll == b.max_scroll
    &&& a.source_line_map == b.source_line_map
    &&& a.code_blocks_len == b.code_blocks_len
    &&& a.scrollbar_dragging == b.scrollbar_dragging
    &&& a.hovered_link == b.hovered_link
    &&& a.last_click == b.last_click
    &&& a.config_warning == b.config_warning
    &&& a.mouse_position == b.mouse_position
}

/// A viewer layout job for the viewer's current request and view.
pub open spec fn is_view_job(a: DiagramAction, document: u64, v: DiagramViewer, options: MermaidOptions) -> bool {
    a matches DiagramAction::Submit(j) && j.document == document && j.request == v.request
        && j.ordinal == v.ordinal && j.source == v.source && j.options == options && (j.view matches Some(vo) && vo.same_view(&v.view))
}

/// Whether a source is beyond the engine's input limit.
pub open spec fn too_large(source: Seq<char>, limit: usize) -> bool {
    crate::text::byte_len(source) > limit
}

/// The state after `request_diagram_render`: a source over the limit shows
/// an error at once; otherwise a new request generation is issued, the
/// viewer waits for it and a layout job is queued.
pub open spec fn requested(old_app: App, new_app: App) -> bool {
    match old_app.diagrams.viewer {
        None => new_app == old_app,
        Some(v) => {
            &&& same_document_view(new_app, old_app)
            &&& new_app.diagrams.blocks == old_app.diagrams.blocks
            &&& new_app.diagrams.options == old_app.diagrams.options
            &&& new_app.diagrams.previews == old_app.diagrams.previews
            &&& new_app.diagrams.document == old_app.diagrams.document
            &&& new_app.diagrams.max_source_bytes == old_app.diagrams.max_source_bytes
            &&& new_app.diagrams.viewer matches Some(f)
            &&& if too_large(v.source@, old_app.diagrams.max_source_bytes) {
                &&& f == DiagramViewer { loading: false, resize_started: None, error: f.error, ..v }
                &&& (f.error matches Some(e) && e@ == SOURCE_TOO_LARGE@)
                &&& new_app.diagrams.service == old_app.diagrams.service
                &&& new_app.diagrams.next_request == old_app.diagrams.next_request
                &&& new_app.diagrams.actions == old_app.diagrams.actions
            } else {
                let req = (old_app.diagrams.next_request + 1) as u64;
                let req = if old_app.diagrams.next_request == u64::MAX { 0u64 } else { req };
                &&& f == DiagramViewer { request: req, loading: true, error: None, resize_started: None, ..v }
                &&& new_app.diagrams.next_request == req
                &&& new_app.diagrams.service
                &&& new_app.diagrams.actions@.len() == old_app.diagrams.actions@.len() + 1
                &&& new_app.diagrams.actions@.drop_last() == old_app.diagrams.actions@
                &&& is_view_job(new_app.diagrams.actions@.last(), old_app.diagrams.document, f, old_app.diagrams.options)
            }
        },
    }
}

pub open spec fn wrapping_inc(n: u64) -> u64 {
    if n == u64::MAX {
        0
    } else {
        (n + 1) as u64
    }
}

pub fn wrapping_inc_u64(n: u64) -> (r: u64)
    ensures
        r == wrapping_inc(n),
{
    if n == u64::MAX {
        0
    } else {
        n + 1
    }
}

impl App {
    pub fn new(max_source_bytes: usize) -> (r: App)
        ensures
            r.diagrams.blocks@.len() == 0,
            r.diagrams.options == MermaidOptions::spec_configured_default(),
            r.diagrams.previews@.len() == 0,
            r.diagrams.previews.wf(),
            !r.diagrams.service,
            r.diagrams.document == 1,
            r.diagrams.next_request == 0,
            r.diagrams.viewer is None,
            r.diagrams.actions@.len() == 0,
            r.diagrams.max_source_bytes == max_source_bytes,
            r.scroll == 0,
            r.code_select is None,
            r.content_area == (Rect { x: 0, y: 0, width: 0, height: 0 }),
            r.render_width == 80,
            r.visible_end == 0,
            r.max_scroll == 0,
            r.source_line_map@.len() == 0,
            r.code_blocks_len == 0,
            !r.scrollbar_dragging,
            r.hovered_link is None,
            r.last_click is None,
            r.config_warning is None,
            r.mouse_position == (0u16, 0u16),
    {
        App {
            diagrams: DiagramState::new(max_source_bytes),
            scroll: 0,
            code_select: None,
            content_area: Rect { x: 0, y: 0, width: 0, height: 0 },
            render_width: 80,
            visible_end: 0,
            max_scroll: 0,
            source_line_map: Vec::new(),
            code_blocks_len: 0,
            scrollbar_dragging: false,
            hovered_link: None,
            last_click: None,
            config_warning: None,
            mouse_position: (0, 0),
        }
    }

    /// Queues a layout job, starting the worker on first use.
    fn submit_diagram_job(&mut self, job: DiagramJob)
        ensures
            final(self).diagrams.service,
            final(self).diagrams.actions@ == old(self).diagrams.actions@.push(DiagramAction::Submit(job)),
            final(self).diagrams.viewer == old(self).diagrams.viewer,
            final(self).diagrams.blocks == old(self).diagrams.blocks,
            final(self).diagrams.options == old(self).diagrams.options,
            final(self).diagrams.previews == old(self).diagrams.previews,
            final(self).diagrams.document == old(self).diagrams.document,
            final(self).diagrams.next_request == old(self).diagrams.next_request,
            final(self).diagrams.max_source_bytes == old(self).diagrams.max_source_bytes,
            same_document_view(*final(self), *old(self)),
    {
        self.diagrams.service = true;
        self.diagrams.actions.push(DiagramAction::Submit(job));
    }

    /// Issues a new layout request for the open viewer.
    pub fn request_diagram_render(&mut self)
        ensures
            requested(*old(self), *final(self)),
    {
        let limit = self.diagrams.max_source_bytes;
        let document = self.diagrams.document;
        let options = self.diagrams.options;
        let next = wrapping_inc_u64(self.diagrams.next_request);
        let mut viewer = match self.diagrams.viewer.take() {
            None => {
                return;
            },
            Some(v) => v,
        };
        if crate::text::string_byte_len(&viewer.source) > limit {
            viewer.loading = false;
            viewer.resize_started = None;
            viewer.error = Some(String::from_str(SOURCE_TOO_LARGE));
            self.diagrams.viewer = Some(viewer);
            return;
        }
        viewer.request = next;
        viewer.loading = true;
        viewer.error = None;
        viewer.resize_started = None;
        let job = DiagramJob {
            document,
            request: viewer.request,
            ordinal: viewer.ordinal,
            source: viewer.source.clone(),
            options,
            view: Some(viewer.view.duplicate()),
        };
        self.diagrams.viewer = Some(viewer);
        self.diagrams.next_request = next;
        let ghost before = self.diagrams.actions@;
        self.submit_diagram_job(job);
        assert(self.diagrams.actions@.drop_last() =~= before);
    }

    /// Starts a new document generation: the viewer closes and queued or
    /// running layout work is cancelled.
    pub fn reset_diagram_document(&mut self)
        ensures
            final(self).diagrams.document == wrapping_inc(old(self).diagrams.document),
            final(self).diagrams.viewer is None,
            final(self).diagrams.actions@ == if old(self).diagrams.service {
                old(self).diagrams.actions@.push(DiagramAction::CancelAll)
            } else {
                old(self).diagrams.actions@
            },
            final(self).diagrams.blocks == old(self).diagrams.blocks,
            final(self).diagrams.options == old(self).diagrams.options,
            final(self).diagrams.previews == old(self).diagrams.previews,
            final(self).diagrams.service == old(self).diagrams.service,
            final(self).diagrams.next_request == old(self).diagrams.next_request,
            final(self).diagrams.max_source_bytes == old(self).diagrams.max_source_bytes,
            same_document_view(*final(self), *old(self)),
    {
        self.diagrams.document = wrapping_inc_u64(self.diagrams.document);
        self.diagrams.viewer = None;
        if self.diagrams.service {
            self.diagrams.actions.push(DiagramAction::CancelAll);
        }
    }

    /// New spacing invalidates every preview and starts a new document
    /// generation; the same spacing changes nothing.
    pub fn set_mermaid_options(&mut self, options: MermaidOptions)
        ensures
            options == old(self).diagrams.options ==> *final(self) == *old(self),
            options != old(self).diagrams.options ==> {
                &&& final(self).diagrams.options == options
                &&& final(self).diagrams.previews@.len() == 0
                &&& final(self).diagrams.previews.wf()
                &&& final(self).diagrams.document == wrapping_inc(old(self).diagrams.document)
                &&& final(self).diagrams.viewer is None
                &&& final(self).diagrams.actions@ == if old(self).diagrams.service {
                    old(self).diagrams.actions@.push(DiagramAction::CancelAll)
                } else {
                    old(self).diagrams.actions@
                }
                &&& final(self).diagrams.blocks == old(self).diagrams.blocks
                &&& final(self).diagrams.service == old(self).diagrams.service
                &&& final(self).diagrams.next_request == old(self).diagrams.next_request
                &&& final(self).diagrams.max_source_bytes == old(self).diagrams.max_source_bytes
                &&& same_document_view(*final(self), *old(self))
            },
    {
        if self.diagrams.options != options {
            self.diagrams.options = options;
            self.diagrams.previews.clear();
            self.reset_diagram_document();
        }
    }

    pub fn set_diagrams(&mut self, blocks: Vec<DiagramBlockInfo>)
        ensures
            final(self).diagrams.blocks == blocks,
            final(self).diagrams.viewer == old(self).diagrams.viewer,
            final(self).diagrams.options == old(self).diagrams.options,
            final(self).diagrams.previews == old(self).diagrams.previews,
            final(self).diagrams.service == old(self).diagrams.service,
            final(self).diagrams.document == old(self).diagrams.document,
            final(self).diagrams.next_request == old(self).diagrams.next_request,
            final(self).diagrams.actions == old(self).diagrams.actions,
            final(self).diagrams.max_source_bytes == old(self).diagrams.max_source_bytes,
            same_document_view(*final(self), *old(self)),
    {
        self.diagrams.blocks = blocks;
    }

    pub fn is_diagram_open(&self) -> (r: bool)
        ensures
            r == self.diagrams.viewer is Some,
    {
        self.diagrams.viewer.is_some()
    }

    pub fn is_diagram_search(&self) -> (r: bool)
        ensures
            r == (self.diagrams.viewer matches Some(v) && v.search is Some),
    {
        match &self.diagrams.viewer {
            Some(v) => v.search.is_some(),
            None => false,
        }
    }

    pub fn diagram_viewer(&self) -> (r: Option<&DiagramViewer>)
        ensures
            match self.diagrams.viewer {
                Some(v) => r == Some(&v),
                None => r is None,
            },
    {
        match &self.diagrams.viewer {
            Some(v) => Some(v),
            None => None,
        }
    }

    /// The spacing the viewer lays out with: compact `8 / 15 / 8` while the
    /// viewer asks for it, otherwise the configured spacing.
    pub fn diagram_spacing(&self) -> (r: MermaidOptions)
        ensures
            r == if (self.diagrams.viewer matches Some(v) && v.view.compact) {
                MermaidOptions::spec_compact()
            } else {
                self.diagrams.options
            },
    {
        let compact = match &self.diagrams.viewer {
            Some(v) => v.view.compact,
            None => false,
        };
        if compact {
            MermaidOptions::compact()
        } else {
            self.diagrams.options
        }
    }

    /// Closes the viewer: its pending and running layout work is cancelled
    /// and a late completion for it can no longer match.
    pub fn close_diagram(&mut self)
        ensures
            diagram_closed(*old(self), *final(self)),
    {
        self.diagrams.viewer = None;
        self.diagrams.next_request = wrapping_inc_u64(self.diagrams.next_request);
        if self.diagrams.service {
            self.diagrams.actions.push(DiagramAction::CancelForeground);
        }
    }

    pub fn toggle_diagram_help(&mut self)
        ensures
            match old(self).diagrams.viewer {
                Some(v) => final(self).diagrams.viewer == Some(DiagramViewer { help: !v.help, ..v }),
                None => final(self).diagrams.viewer is None,
            },
            same_outside_viewer(*final(self), *old(self)),
    {
        if let Some(mut viewer) = self.diagrams.viewer.take() {
            viewer.help = !viewer.help;
            self.diagrams.viewer = Some(viewer);
        }
    }

    /// Whether layout work is outstanding: the worker is busy, or a resized
    /// viewer still waits for its new layout.
    pub fn has_diagram_work(&self, service_busy: bool) -> (r: bool)
        ensures
            r == (service_busy || (self.diagrams.viewer matches Some(v) && v.resize_started is Some)),
    {
        service_busy || match &self.diagrams.viewer {
            Some(v) => v.resize_started.is_some(),
            None => false,
        }
    }

    /// Stores a finished document preview in the bounded cache.
    pub fn cache_diagram_preview(&mut self, source: String, result: Result<crate::preview::MermaidPreview, String>)
        requires
            old(self).diagrams.previews.wf(),
        ensures
            final(self).diagrams.previews.wf(),
            final(self).diagrams.previews@ == store_view(old(self).diagrams.previews@, source@, result_view(result)),
            final(self).diagrams.viewer == old(self).diagrams.viewer,
            final(self).diagrams.blocks == old(self).diagrams.blocks,
            final(self).diagrams.options == old(self).diagrams.options,
            final(self).diagrams.service == old(self).diagrams.service,
            final(self).diagrams.document == old(self).diagrams.document,
            final(self).diagrams.next_request == old(self).diagrams.next_request,
            final(self).diagrams.actions == old(self).diagrams.actions,
            final(self).diagrams.max_source_bytes == old(self).diagrams.max_source_bytes,
            same_document_view(*final(self), *old(self)),
    {
        self.diagrams.previews.store(source, result);
    }

    /// The source line of a rendered line: its mapped line, the last mapped
    /// line past the end, or line 1 for an empty document.
    pub open spec fn spec_source_line_at(&self, line: usize) -> usize {
        if line < self.source_line_map@.len() {
            self.source_line_map@[line as int]
        } else if self.source_line_map@.len() > 0 {
            self.source_line_map@.last()
        } else {
            1
        }
    }

    pub fn source_line_at(&self, line: usize) -> (r: usize)
        ensures
            r == self.spec_source_line_at(line),
    {
        if line < self.source_line_map.len() {
            self.source_line_map[line]
        } else if self.source_line_map.len() > 0 {
            self.source_line_map[self.source_line_map.len() - 1]
        } else {
            1
        }
    }

    /// Blocks whose rendered range holds `scroll`.
    pub open spec fn block_at_line(bs: Seq<DiagramBlockInfo>, scroll: usize) -> spec_fn(int) -> bool {
        |i: int| scroll >= bs[i].rendered_start && scroll <= bs[i].rendered_end
    }

    /// Blocks authored at `anchor`.
    pub open spec fn block_from_line(bs: Seq<DiagramBlockInfo>, anchor: usize) -> spec_fn(int) -> bool {
        |i: int| bs[i].source_line == anchor
    }

    /// Rendered lines at or after source line `anchor`.
    pub open spec fn line_at_or_after(m: Seq<usize>, anchor: usize) -> spec_fn(int) -> bool {
        |i: int| m[i] >= anchor
    }

    /// The source line to keep in view across a reflow: the diagram under the
    /// scroll position, otherwise the line at the scroll position.
    pub open spec fn spec_reflow_anchor(&self) -> usize {
        let bs = self.diagrams.blocks@;
        let k = first_where(bs.len() as int, Self::block_at_line(bs, self.scroll));
        if k >= 0 {
            bs[k].source_line
        } else {
            self.spec_source_line_at(self.scroll)
        }
    }

    pub fn diagram_reflow_anchor(&self) -> (r: usize)
        ensures
            r == self.spec_reflow_anchor(),
    {
        let ghost bs = self.diagrams.blocks@;
        let ghost p = Self::block_at_line(bs, self.scroll);
        let mut i: usize = 0;
        while i < self.diagrams.blocks.len()
            invariant
                bs == self.diagrams.blocks@,
                p == Self::block_at_line(bs, self.scroll),
                i <= bs.len(),
                first_where(i as int, p) == -1,
            decreases bs.len() - i,
        {
            let b = &self.diagrams.blocks[i];
            if self.scroll >= b.rendered_start && self.scroll <= b.rendered_end {
                proof {
                    assert(bs[i as int] == *b);
                    assert(p(i as int));
                    lemma_first_where_extend(bs.len() as int, i as int, p);
                }
                return b.source_line;
            }
            i = i + 1;
        }
        self.source_line_at(self.scroll)
    }

    /// Puts the anchor line back at the top: the diagram that starts there, or
    /// the first rendered line at or after it.
    pub open spec fn spec_restored_scroll(&self, anchor: usize) -> usize {
        let bs = self.diagrams.blocks@;
        let k = first_where(bs.len() as int, Self::block_from_line(bs, anchor));
        let m = self.source_line_map@;
        let j = first_where(m.len() as int, Self::line_at_or_after(m, anchor));
        if k >= 0 {
            min_usize(bs[k].rendered_start, self.max_scroll)
        } else if j >= 0 {
            min_usize(j as usize, self.max_scroll)
        } else {
            self.scroll
        }
    }

    pub fn restore_diagram_source_anchor(&mut self, anchor: usize)
        ensures
            final(self).scroll == old(self).spec_restored_scroll(anchor),
            final(self).diagrams == old(self).diagrams,
            final(self).code_select == old(self).code_select,
            final(self).content_area == old(self).content_area,
            final(self).render_width == old(self).render_width,
            final(self).visible_end == old(self).visible_end,
            final(self).max_scroll == old(self).max_scroll,
            final(self).source_line_map == old(self).source_line_map,
            final(self).code_blocks_len == old(self).code_blocks_len,
            final(self).scrollbar_dragging == old(self).scrollbar_dragging,
            final(self).hovered_link == old(self).hovered_link,
            final(self).last_click == old(self).last_click,
            final(self).config_warning == old(self).config_warning,
            final(self).mouse_position == old(self).mouse_position,
    {
        let ghost bs = self.diagrams.blocks@;
        let ghost p = Self::block_from_line(bs, anchor);
        let mut i: usize = 0;
        while i < self.diagrams.blocks.len()
            invariant
                *self == *old(self),
                bs == self.diagrams.blocks@,
                p == Self::block_from_line(bs, anchor),
                i <= bs.len(),
                first_where(i as int, p) == -1,
            decreases bs.len() - i,
        {
            if self.diagrams.blocks[i].source_line == anchor {
                proof {
                    assert(p(i as int));
                    lemma_first_where_extend(bs.len() as int, i as int, p);
                }
                let start = self.diagrams.blocks[i].rendered_start;
                self.scroll = if start < self.max_scroll {
                    start
                } else {
                    self.max_scroll
                };
                return;
            }
            i = i + 1;
        }
        let ghost m = self.source_line_map@;
        let ghost q = Self::line_at_or_after(m, anchor);
        let mut j: usize = 0;
        while j < self.source_line_map.len()
            invariant
                *self == *old(self),
                m == self.source_line_map@,
                q == Self::line_at_or_after(m, anchor),
                bs == self.diagrams.blocks@,
                p == Self::block_from_line(bs, anchor),
                j <= m.len(),
                first_where(j as int, q) == -1,
                first_where(bs.len() as int, p) == -1,
            decreases m.len() - j,
        {
            if self.source_line_map[j] >= anchor {
                proof {
                    assert(q(j as int));
                    lemma_first_where_extend(m.len() as int, j as int, q);
                }
                self.scroll = if j < self.max_scroll {
                    j
                } else {
                    self.max_scroll
                };
                return;
            }
            j = j + 1;
        }
    }
}

/// A first match found at `i` after none below it is the first match overall.
pub proof fn lemma_first_where_extend(n: int, i: int, p: spec_fn(int) -> bool)
    requires
        0 <= i < n,
        first_where(i, p) == -1,
        p(i),
    ensures
        first_where(n, p) == i,
    decreases n - i,
{
    if n > i + 1 {
        lemma_first_where_extend(n - 1, i, p);
    }
}

} // verus!
