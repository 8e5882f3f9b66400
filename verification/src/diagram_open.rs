//! Opening the viewer on a document diagram and fitting it to its area.
use vstd::prelude::*;
use crate::diagram_model::ViewOptions;
use crate::diagrams::{
    centered, clamped, first_where, lemma_first_where, lemma_first_where_extend, requested, too_large,
    same_outside_viewer, App, DiagramBlockInfo, DiagramState, DiagramViewer, Rect, NO_DIAGRAM_IN_VIEW,
    SOURCE_TOO_LARGE,
};
use crate::text::string_byte_len;
use vstd::string::StringExecFns;

verus! {

/// The viewer after its screen area becomes `area` at time `now` (ms): a
/// pending centring happens once a finished layout has a non-empty area;
/// the pan is clamped; a new width starts the relayout debounce.
pub open spec fn area_set(v: DiagramViewer, area: Rect, now: u64) -> DiagramViewer {
    let v1 = DiagramViewer { area, ..v };
    let v2 = if v1.center_after_render && !v1.loading && v1.error is None && v1.output is Some
        && area.width > 0 && area.height > 0 {
        DiagramViewer { center_after_render: false, ..centered(v1) }
    } else {
        v1
    };
    let v3 = clamped(v2);
    if v.area.width != area.width && area.width > 0 && area.width as usize != v.view.width {
        DiagramViewer { resize_started: Some(now), ..v3 }
    } else {
        v3
    }
}

/// Blocks for code block `index`.
pub open spec fn block_of_code(bs: Seq<DiagramBlockInfo>, index: usize) -> spec_fn(int) -> bool {
    |i: int| bs[i].code_block_index == index
}

/// Blocks overlapping the rendered lines `[scroll, visible_end)`.
pub open spec fn block_in_view(bs: Seq<DiagramBlockInfo>, scroll: usize, visible_end: usize) -> spec_fn(int) -> bool {
    |i: int| bs[i].rendered_end >= scroll && bs[i].rendered_start < visible_end
}

/// The block `v` opens: the selected code block's diagram, otherwise the
/// first diagram in view; -1 when there is none.
pub open spec fn block_to_open(a: App) -> int {
    let bs = a.diagrams.blocks@;
    let chosen = match a.code_select {
        Some(ix) => first_where(bs.len() as int, block_of_code(bs, ix)),
        None => -1,
    };
    if chosen >= 0 {
        chosen
    } else {
        first_where(bs.len() as int, block_in_view(bs, a.scroll, a.visible_end))
    }
}

/// Layout width of a freshly opened viewer: the content's right edge, at
/// least the document's render width.
pub open spec fn open_width(a: App) -> usize {
    let w = a.content_area.x as usize + a.content_area.width as usize;
    if w > a.render_width {
        w as usize
    } else {
        a.render_width
    }
}

/// A viewer freshly opened on block `b` with the default view at `width`,
/// still waiting for its first layout.
pub open spec fn fresh_viewer(v: DiagramViewer, b: DiagramBlockInfo, width: usize) -> bool {
    &&& v.source == b.source
    &&& v.ordinal == b.ordinal
    &&& v.view.is_default_at(width)
    &&& v.output is None
    &&& v.error is None
    &&& v.loading
    &&& v.request == 0
    &&& v.x == 0
    &&& v.y == 0
    &&& v.area == Rect { x: 0, y: 0, width: 0, height: 0 }
    &&& !v.source_mode
    &&& !v.help
    &&& v.source_offsets == (0usize, 0usize)
    &&& v.diagram_offsets == (0usize, 0usize)
    &&& v.selected is None
    &&& v.search is None
    &&& v.search_index == 0
    &&& v.feedback is None
    &&& v.resize_started is None
    &&& !v.center_after_render
    &&& v.initial_frame
    &&& v.auto_overview
}

/// The document state with the modal's mouse state reset and `v` open.
pub open spec fn opened_on(a: App, v: DiagramViewer) -> App {
    App {
        diagrams: DiagramState { viewer: Some(v), ..a.diagrams },
        scrollbar_dragging: false,
        hovered_link: None,
        last_click: None,
        ..a
    }
}

/// The state after `open_diagram`.
pub open spec fn diagram_opened(old: App, new: App) -> bool {
    let k = block_to_open(old);
    if k < 0 {
        &&& new == App { config_warning: new.config_warning, ..old }
        &&& (new.config_warning matches Some(w) && w@ == NO_DIAGRAM_IN_VIEW@)
    } else {
        let b = old.diagrams.blocks@[k];
        &&& new.diagrams.viewer matches Some(f)
        &&& if too_large(b.source@, old.diagrams.max_source_bytes) {
            &&& fresh_viewer(DiagramViewer { loading: true, error: None, ..f }, b, open_width(old))
            &&& !f.loading
            &&& (f.error matches Some(e) && e@ == SOURCE_TOO_LARGE@)
            &&& new == opened_on(old, f)
        } else {
            &&& fresh_viewer(DiagramViewer { request: 0, ..f }, b, open_width(old))
            &&& requested(opened_on(old, DiagramViewer { request: 0, ..f }), new)
        }
    }
}

impl App {
    /// Gives the viewer its screen area for this frame, at time `now` (ms).
    pub fn set_diagram_area(&mut self, area: Rect, now: u64)
        ensures
            match old(self).diagrams.viewer {
                Some(v) => final(self).diagrams.viewer == Some(area_set(v, area, now)),
                None => final(self).diagrams.viewer is None,
            },
            same_outside_viewer(*final(self), *old(self)),
    {
        if let Some(mut viewer) = self.diagrams.viewer.take() {
            let width_changed = viewer.area.width != area.width;
            viewer.area = area;
            if viewer.center_after_render && !viewer.loading && viewer.error.is_none()
                && viewer.output.is_some() && area.width > 0 && area.height > 0 {
                viewer.center_selection();
                viewer.center_after_render = false;
            }
            viewer.clamp();
            if width_changed && area.width > 0 && area.width as usize != viewer.view.width {
                viewer.resize_started = Some(now);
            }
            self.diagrams.viewer = Some(viewer);
        }
    }

    /// Index of the diagram `v` opens, if any.
    fn find_block_to_open(&self) -> (r: Option<usize>)
        ensures
            match r {
                Some(k) => block_to_open(*self) == k,
                None => block_to_open(*self) < 0,
            },
    {
        let ghost bs = self.diagrams.blocks@;
        if let Some(ix) = self.code_select {
            let ghost p = block_of_code(bs, ix);
            let mut i: usize = 0;
            while i < self.diagrams.blocks.len()
                invariant
                    bs == self.diagrams.blocks@,
                    p == block_of_code(bs, ix),
                    self.code_select == Some(ix),
                    i <= bs.len(),
                    first_where(i as int, p) == -1,
                decreases bs.len() - i,
            {
                if self.diagrams.blocks[i].code_block_index == ix {
                    proof {
                        assert(p(i as int));
                        lemma_first_where_extend(bs.len() as int, i as int, p);
                        assert(block_to_open(*self) == i as int);
                    }
                    return Some(i);
                }
                i = i + 1;
            }
            assert(first_where(bs.len() as int, block_of_code(bs, ix)) == -1);
        }
        assert(match self.code_select {
            Some(ix) => first_where(bs.len() as int, block_of_code(bs, ix)) == -1,
            None => true,
        });
        let ghost q = block_in_view(bs, self.scroll, self.visible_end);
        let mut j: usize = 0;
        while j < self.diagrams.blocks.len()
            invariant
                bs == self.diagrams.blocks@,
                q == block_in_view(bs, self.scroll, self.visible_end),
                match self.code_select {
                    Some(ix) => first_where(bs.len() as int, block_of_code(bs, ix)) == -1,
                    None => true,
                },
                j <= bs.len(),
                first_where(j as int, q) == -1,
            decreases bs.len() - j,
        {
            let b = &self.diagrams.blocks[j];
            if b.rendered_end >= self.scroll && b.rendered_start < self.visible_end {
                proof {
                    assert(q(j as int));
                    lemma_first_where_extend(bs.len() as int, j as int, q);
                    assert(block_to_open(*self) == j as int);
                }
                return Some(j);
            }
            j = j + 1;
        }
        proof {
            lemma_first_where(bs.len() as int, q);
        }
        None
    }

    /// Opens the viewer on the selected diagram, or the first one in view,
    /// and requests its layout; a source beyond the engine's input limit
    /// opens with an error instead.
    pub fn open_diagram(&mut self)
        ensures
            diagram_opened(*old(self), *final(self)),
    {
        let k = match self.find_block_to_open() {
            Some(k) => k,
            None => {
                self.config_warning = Some(String::from_str(NO_DIAGRAM_IN_VIEW));
                return;
            },
        };
        proof {
            lemma_first_where(self.diagrams.blocks@.len() as int, block_in_view(self.diagrams.blocks@, self.scroll, self.visible_end));
            match self.code_select {
                Some(ix) => lemma_first_where(self.diagrams.blocks@.len() as int, block_of_code(self.diagrams.blocks@, ix)),
                None => {},
            }
        }
        let width = {
            let w = self.content_area.x as usize + self.content_area.width as usize;
            if w > self.render_width {
                w
            } else {
                self.render_width
            }
        };
        let block = &self.diagrams.blocks[k];
        let viewer = DiagramViewer {
            source: block.source.clone(),
            ordinal: block.ordinal,
            view: ViewOptions::default_at(width),
            output: None,
            error: None,
            loading: true,
            request: 0,
            x: 0,
            y: 0,
            area: Rect { x: 0, y: 0, width: 0, height: 0 },
            source_mode: false,
            help: false,
            source_offsets: (0, 0),
            diagram_offsets: (0, 0),
            selected: None,
            search: None,
            search_index: 0,
            feedback: None,
            resize_started: None,
            center_after_render: false,
            initial_frame: true,
            auto_overview: true,
        };
        let large = string_byte_len(&viewer.source) > self.diagrams.max_source_bytes;
        self.diagrams.viewer = Some(viewer);
        self.scrollbar_dragging = false;
        self.hovered_link = None;
        self.last_click = None;
        if large {
            let mut v = self.diagrams.viewer.take().unwrap();
            v.loading = false;
            v.error = Some(String::from_str(SOURCE_TOO_LARGE));
            self.diagrams.viewer = Some(v);
            return;
        }
        self.request_diagram_render();
    }
}

} // verus!
