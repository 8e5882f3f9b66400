//! The text of the fullscreen diagram viewer: its title line, the visible
//! window of the canvas (or source, help or a message), the selection's
//! highlight and the three footer lines. Every line is clipped by display
//! cells, never wrapped.
use vstd::prelude::*;
use crate::diagram_model::{CatalogObject, DiagramOutput};
use crate::diagrams::{first_index, lemma_first_index, matching_indices, query_of, same_outside_viewer, App, DiagramViewer, Rect};
use crate::diagram_open::area_set;
use crate::numbers::{decimal, decimal_string};
use crate::preview::CellRect;
use crate::text::{chars_of, lines_of, lines_spec, string_from_chars, strings_view};
use crate::width::{sat_add, slice_columns_spec, slice_display_columns};
use vstd::string::StringExecFns;

verus! {

/// The help screen, one line per entry.
pub open spec fn help_lines() -> Seq<Seq<char>> {
    seq![
        "Diagram controls (Esc or ? returns)"@,
        ""@,
        "Arrows / hjkl     Pan horizontally and vertically"@,
        "PageUp/PageDown   Pan one screen; Home resets"@,
        "Tab / Shift-Tab   Select next/previous visible node or group"@,
        "/                Search every original node/group by ID or label"@,
        "c                Toggle configured / compact 8,15,8 spacing"@,
        "Spacing          Node = siblings; rank = flow; edge = routing lanes"@,
        "Cell gaps        ceil(units/5), at least 4 columns / 3 rows"@,
        "d                Toggle authored / alternate direction"@,
        "o                Full graph / top-level group overview"@,
        "Space            Expand or collapse selected group"@,
        "a                Show or hide class member compartments"@,
        "f                Selected node's one-hop focus, both directions"@,
        "s                Original Mermaid source / diagram"@,
        "y                Copy original Mermaid source"@,
        "Esc / q          Close viewer; document position is preserved"@,
        ""@,
        "Hidden search results are revealed before centering."@,
        "Unsupported controls explain the diagram-family limitation."@,
    ]
}

/// Shown while the first layout is prepared.
pub const PREPARING: &'static str = "Preparing diagram in background…  s: original source  Esc: close";

/// Shown before the first layout when nothing else is to be said.
pub const LAYOUT_NOTE: &'static str = " Layout runs off the UI thread; source stays available";

pub const SEARCH_CONTROLS: &'static str = " ↑↓ matches · Enter reveal/center · Esc cancel";

pub const VIEW_CONTROLS: &'static str = " hjkl pan · / search · o overview · ? keys · s source · Esc close";

/// The text of one viewer frame.
#[derive(Debug)]
pub struct DiagramScreen {
    pub title: String,
    pub body: Vec<String>,
    /// Canvas cells `[left, right) × [top, bottom)` of the selection.
    pub highlight: Option<(usize, usize, usize, usize)>,
    pub footer: Vec<String>,
}

pub open spec fn ready_word(v: DiagramViewer) -> Seq<char> {
    if v.loading {
        "loading"@
    } else if v.error is Some {
        "error"@
    } else {
        "ready"@
    }
}

pub open spec fn mode_word(v: DiagramViewer) -> Seq<char> {
    if v.source_mode {
        "source"@
    } else if v.view.focus is Some {
        "focus ±1 hop"@
    } else if v.view.overview {
        "overview"@
    } else {
        "full"@
    }
}

/// The spacing part of the title; `spacing` is the spacing in use, written
/// as `node/rank/edge`.
pub open spec fn spacing_word(v: DiagramViewer, spacing: Seq<char>) -> Seq<char> {
    if (v.output matches Some(o) && !o.capabilities.direction) {
        "spacing n/a"@
    } else {
        (if v.view.compact { "compact"@ } else { "configured"@ }) + " "@ + spacing
    }
}

pub open spec fn direction_word(v: DiagramViewer) -> Seq<char> {
    if v.view.alternate {
        "alternate direction"@
    } else {
        "authored direction"@
    }
}

pub open spec fn title_text(v: DiagramViewer, spacing: Seq<char>) -> Seq<char> {
    " Mermaid #"@ + decimal((v.ordinal + 1) as nat) + " · "@ + ready_word(v) + " · "@ + mode_word(v) + " · "@
        + spacing_word(v, spacing) + " · "@ + direction_word(v)
}

/// The rows the viewer shows: the source lines or the canvas rows.
pub open spec fn shown_rows(v: DiagramViewer) -> Seq<Seq<char>> {
    if v.source_mode {
        lines_spec(v.source@)
    } else {
        match v.output {
            Some(o) => strings_view(o.rows@),
            None => seq![],
        }
    }
}

/// The body lines of a frame with a body `area`.
pub open spec fn body_text(v: DiagramViewer, area: Rect) -> Seq<Seq<char>> {
    let w = area.width as usize;
    if v.help {
        help_lines().map_values(|l: Seq<char>| slice_columns_spec(l, 0, w))
    } else if shown_rows(v).len() == 0 {
        seq![
            slice_columns_spec(
                match v.error {
                    Some(e) => e@,
                    None => PREPARING@,
                },
                0,
                w,
            ),
        ]
    } else {
        let rows = shown_rows(v);
        let start = if v.y < rows.len() { v.y as int } else { rows.len() as int };
        let n = if rows.len() - start < area.height { rows.len() - start } else { area.height as int };
        Seq::new(n as nat, |i: int| slice_columns_spec(rows[start + i], v.x, (v.x + w) as usize))
    }
}

/// The visible part of the selected object, in canvas cells.
pub open spec fn highlight_of(v: DiagramViewer, area: Rect) -> Option<(usize, usize, usize, usize)> {
    if v.source_mode || v.help {
        None
    } else {
        match (v.output, v.selected) {
            (Some(o), Some(s)) => {
                let k = first_index(o.objects@, s@);
                if k < 0 {
                    None
                } else {
                    let b = o.objects@[k].bounds;
                    let right_end = (v.x + area.width) as usize;
                    let bottom_end = (v.y + area.height) as usize;
                    Some(
                        (
                            if b.x > v.x { b.x } else { v.x },
                            if b.y > v.y { b.y } else { v.y },
                            if sat_add(b.x, b.width) < right_end { sat_add(b.x, b.width) } else { right_end },
                            if sat_add(b.y, b.height) < bottom_end { sat_add(b.y, b.height) } else { bottom_end },
                        ),
                    )
                }
            },
            _ => None,
        }
    }
}

pub open spec fn stats_text(v: DiagramViewer) -> Seq<char> {
    let (w, h) = v.spec_extent();
    " "@ + decimal(w as nat) + "×"@ + decimal(h as nat) + " cells x="@ + decimal(v.x as nat) + " y="@
        + decimal(v.y as nat) + match v.output {
        Some(o) => " nodes "@ + decimal(o.visible_nodes as nat) + "/"@ + decimal(o.original_nodes as nat)
            + " hidden "@ + decimal(o.hidden_nodes as nat) + " boundary "@ + decimal(
            o.boundary_edges as nat,
        ),
        None => seq![],
    }
}

/// `s` with newlines shown as spaces.
pub open spec fn one_line(s: Seq<char>) -> Seq<char> {
    s.map_values(|c: char| if c == '\n' { ' ' } else { c })
}

pub open spec fn search_detail(v: DiagramViewer, q: Seq<char>) -> Seq<char> {
    let catalog = match v.output {
        Some(o) => o.catalog@,
        None => seq![],
    };
    let ms = match v.output {
        Some(o) => matching_indices(o.catalog@, query_of(v.search)),
        None => seq![],
    };
    " /"@ + q + "  ["@ + (if ms.len() == 0 { "0"@ } else { decimal((v.search_index + 1) as nat) }) + "/"@
        + decimal(ms.len()) + "] "@ + if v.search_index < ms.len() {
        let e = catalog[ms[v.search_index as int] as int];
        e.id.id@ + ": "@ + one_line(e.label@)
    } else {
        seq![]
    }
}

pub open spec fn detail_text(v: DiagramViewer) -> Seq<char> {
    match v.search {
        Some(q) => search_detail(v, q@),
        None => match v.error {
            Some(e) => " Error: "@ + e@ + " · s: source"@,
            None => match v.feedback {
                Some(f) => f@,
                None => match v.output {
                    Some(o) => if o.warnings@.len() > 0 {
                        " Warning: "@ + o.warnings@[0]@
                    } else {
                        "selected "@ + match v.selected {
                            Some(s) => s.id@,
                            None => "none"@,
                        } + " · "@ + o.summary@
                    },
                    None => LAYOUT_NOTE@,
                },
            },
        },
    }
}

pub open spec fn controls_text(v: DiagramViewer) -> Seq<char> {
    if v.search is Some {
        SEARCH_CONTROLS@
    } else {
        VIEW_CONTROLS@
    }
}

pub(crate) fn push_str(m: &mut String, s: &str)
    ensures
        final(m)@ == old(m)@ + s@,
{
    m.append(s);
}

pub(crate) fn push_decimal_text(m: &mut String, n: usize)
    ensures
        final(m)@ == old(m)@ + decimal(n as nat),
{
    let d = decimal_string(n);
    m.append(d.as_str());
}

impl DiagramViewer {
    /// The title line, clipped to `width` cells.
    pub fn title_line(&self, spacing: &str, width: usize) -> (r: String)
        requires
            self.ordinal < usize::MAX,
        ensures
            r@ == slice_columns_spec(title_text(*self, spacing@), 0, width),
    {
        let mut m = String::from_str(" Mermaid #");
        push_decimal_text(&mut m, self.ordinal + 1);
        push_str(&mut m, " · ");
        push_str(&mut m, if self.loading { "loading" } else if self.error.is_some() { "error" } else { "ready" });
        push_str(&mut m, " · ");
        push_str(&mut m, if self.source_mode {
            "source"
        } else if self.view.focus.is_some() {
            "focus ±1 hop"
        } else if self.view.overview {
            "overview"
        } else {
            "full"
        });
        push_str(&mut m, " · ");
        let no_spacing = match &self.output {
            Some(o) => !o.capabilities.direction,
            None => false,
        };
        if no_spacing {
            push_str(&mut m, "spacing n/a");
        } else {
            let ghost before = m@;
            push_str(&mut m, if self.view.compact { "compact" } else { "configured" });
            push_str(&mut m, " ");
            push_str(&mut m, spacing);
            assert(m@ =~= before + ((if self.view.compact { "compact"@ } else { "configured"@ }) + " "@ + spacing@));
        }
        push_str(&mut m, " · ");
        push_str(&mut m, if self.view.alternate { "alternate direction" } else { "authored direction" });
        slice_display_columns(m.as_str(), 0, width)
    }

    /// The rows the viewer shows.
    fn rows_shown(&self) -> (r: Vec<String>)
        ensures
            strings_view(r@) == shown_rows(*self),
    {
        if self.source_mode {
            let cs = chars_of(self.source.as_str());
            let lines = lines_of(cs.as_slice());
            let mut out: Vec<String> = Vec::new();
            let mut i: usize = 0;
            while i < lines.len()
                invariant
                    lines@.len() == lines_spec(self.source@).len(),
                    forall|k: int| 0 <= k < lines@.len() ==> #[trigger] lines@[k]@ == lines_spec(self.source@)[k],
                    i <= lines@.len(),
                    strings_view(out@) == lines_spec(self.source@).take(i as int),
                decreases lines@.len() - i,
            {
                let ghost before = out@;
                out.push(string_from_chars(lines[i].as_slice()));
                assert(strings_view(out@) =~= strings_view(before).push(lines@[i as int]@));
                assert(lines_spec(self.source@).take(i + 1) =~= lines_spec(self.source@).take(i as int).push(lines_spec(self.source@)[i as int]));
                i = i + 1;
            }
            assert(lines_spec(self.source@).take(lines@.len() as int) =~= lines_spec(self.source@));
            out
        } else {
            match &self.output {
                Some(o) => crate::text::clone_strings(&o.rows),
                None => {
                    let v: Vec<String> = Vec::new();
                    assert(strings_view(v@) =~= seq![]);
                    v
                },
            }
        }
    }

    /// The body lines for a body `area`.
    pub fn body_lines(&self, area: Rect) -> (r: Vec<String>)
        requires
            self.x + area.width <= usize::MAX,
        ensures
            strings_view(r@) == body_text(*self, area),
    {
        let w = area.width as usize;
        let mut out: Vec<String> = Vec::new();
        if self.help {
            let help: Vec<&str> = vec![
                "Diagram controls (Esc or ? returns)",
                "",
                "Arrows / hjkl     Pan horizontally and vertically",
                "PageUp/PageDown   Pan one screen; Home resets",
                "Tab / Shift-Tab   Select next/previous visible node or group",
                "/                Search every original node/group by ID or label",
                "c                Toggle configured / compact 8,15,8 spacing",
                "Spacing          Node = siblings; rank = flow; edge = routing lanes",
                "Cell gaps        ceil(units/5), at least 4 columns / 3 rows",
                "d                Toggle authored / alternate direction",
                "o                Full graph / top-level group overview",
                "Space            Expand or collapse selected group",
                "a                Show or hide class member compartments",
                "f                Selected node's one-hop focus, both directions",
                "s                Original Mermaid source / diagram",
                "y                Copy original Mermaid source",
                "Esc / q          Close viewer; document position is preserved",
                "",
                "Hidden search results are revealed before centering.",
                "Unsupported controls explain the diagram-family limitation.",
            ];
            let ghost hl = help_lines();
            assert(help@.len() == hl.len());
            assert(forall|k: int| 0 <= k < help@.len() ==> #[trigger] help@[k]@ == hl[k]);
            let mut i: usize = 0;
            while i < help.len()
                invariant
                    hl == help_lines(),
                    help@.len() == hl.len(),
                    forall|k: int| 0 <= k < help@.len() ==> #[trigger] help@[k]@ == hl[k],
                    i <= help@.len(),
                    strings_view(out@) == hl.take(i as int).map_values(|l: Seq<char>| slice_columns_spec(l, 0, w)),
                decreases help@.len() - i,
            {
                let ghost before = out@;
                let line = slice_display_columns(help[i], 0, w);
                out.push(line);
                proof {
                    let f = |l: Seq<char>| slice_columns_spec(l, 0, w);
                    assert(strings_view(out@) =~= strings_view(before).push(line@));
                    assert(hl.take(i + 1) =~= hl.take(i as int).push(hl[i as int]));
                    assert(hl.take(i + 1).map_values(f) =~= hl.take(i as int).map_values(f).push(f(hl[i as int])));
                }
                i = i + 1;
            }
            assert(hl.take(hl.len() as int) =~= hl);
            return out;
        }
        let rows = self.rows_shown();
        if rows.len() == 0 {
            let message = match &self.error {
                Some(e) => slice_display_columns(e.as_str(), 0, w),
                None => slice_display_columns(PREPARING, 0, w),
            };
            out.push(message);
            assert(strings_view(out@) =~= body_text(*self, area));
            return out;
        }
        let ghost rv = strings_view(rows@);
        let start = if self.y < rows.len() { self.y } else { rows.len() };
        let n = if rows.len() - start < area.height as usize { rows.len() - start } else { area.height as usize };
        let total = rows.len();
        let mut i: usize = 0;
        while i < n
            invariant
                total == rows@.len(),
                rv == strings_view(rows@),
                rv == shown_rows(*self),
                rv.len() == rows@.len(),
                start + n <= rv.len(),
                i <= n,
                self.x + w <= usize::MAX,
                strings_view(out@) == Seq::new(i as nat, |k: int| slice_columns_spec(rv[start + k], self.x, (self.x + w) as usize)),
            decreases n - i,
        {
            let ghost before = out@;
            let line = slice_display_columns(rows[start + i].as_str(), self.x, self.x + w);
            out.push(line);
            proof {
                assert(rows@[start + i]@ == rv[start + i]);
                assert(strings_view(out@) =~= strings_view(before).push(line@));
                assert(strings_view(out@) =~= Seq::new((i + 1) as nat, |k: int| slice_columns_spec(rv[start + k], self.x, (self.x + w) as usize)));
            }
            i = i + 1;
        }
        assert(strings_view(out@) =~= body_text(*self, area));
        out
    }
}

fn one_line_of(s: &str) -> (r: String)
    ensures
        r@ == one_line(s@),
{
    let cs = chars_of(s);
    let mut out: Vec<char> = Vec::new();
    let mut i: usize = 0;
    while i < cs.len()
        invariant
            cs@ == s@,
            i <= cs@.len(),
            out@ == cs@.take(i as int).map_values(|c: char| if c == '\n' { ' ' } else { c }),
        decreases cs@.len() - i,
    {
        out.push(if cs[i] == '\n' { ' ' } else { cs[i] });
        assert(cs@.take(i + 1) =~= cs@.take(i as int).push(cs@[i as int]));
        assert(out@ =~= cs@.take(i + 1).map_values(|c: char| if c == '\n' { ' ' } else { c }));
        i = i + 1;
    }
    assert(cs@.take(cs@.len() as int) =~= cs@);
    string_from_chars(out.as_slice())
}

impl DiagramViewer {
    /// The visible part of the selected object, in canvas cells.
    pub fn highlight(&self, area: Rect) -> (r: Option<(usize, usize, usize, usize)>)
        requires
            self.x + area.width <= usize::MAX,
            self.y + area.height <= usize::MAX,
        ensures
            r == highlight_of(*self, area),
    {
        if self.source_mode || self.help {
            return None;
        }
        let (o, s) = match (&self.output, &self.selected) {
            (Some(o), Some(s)) => (o, s),
            _ => {
                return None;
            },
        };
        proof {
            lemma_first_index(o.objects@, s@);
        }
        let k = match crate::diagram_nav::position_of(&o.objects, s) {
            Some(k) => k,
            None => {
                return None;
            },
        };
        let b = o.objects[k].bounds;
        let right_end = self.x + area.width as usize;
        let bottom_end = self.y + area.height as usize;
        let right = crate::preview::add_sat(b.x, b.width);
        let bottom = crate::preview::add_sat(b.y, b.height);
        Some((
            if b.x > self.x { b.x } else { self.x },
            if b.y > self.y { b.y } else { self.y },
            if right < right_end { right } else { right_end },
            if bottom < bottom_end { bottom } else { bottom_end },
        ))
    }

    fn stats_line(&self) -> (r: String)
        ensures
            r@ == stats_text(*self),
    {
        let (w, h) = self.extent();
        let mut m = String::from_str(" ");
        push_decimal_text(&mut m, w);
        push_str(&mut m, "×");
        push_decimal_text(&mut m, h);
        push_str(&mut m, " cells x=");
        push_decimal_text(&mut m, self.x);
        push_str(&mut m, " y=");
        push_decimal_text(&mut m, self.y);
        match &self.output {
            Some(o) => {
                let ghost before = m@;
                push_str(&mut m, " nodes ");
                push_decimal_text(&mut m, o.visible_nodes);
                push_str(&mut m, "/");
                push_decimal_text(&mut m, o.original_nodes);
                push_str(&mut m, " hidden ");
                push_decimal_text(&mut m, o.hidden_nodes);
                push_str(&mut m, " boundary ");
                push_decimal_text(&mut m, o.boundary_edges);
                assert(m@ =~= before + (" nodes "@ + decimal(o.visible_nodes as nat) + "/"@ + decimal(
                    o.original_nodes as nat,
                ) + " hidden "@ + decimal(o.hidden_nodes as nat) + " boundary "@ + decimal(
                    o.boundary_edges as nat,
                )));
            },
            None => {
                assert(m@ =~= m@ + seq![]);
            },
        }
        m
    }

    fn search_line(&self, q: &String) -> (r: String)
        requires
            self.search == Some(*q),
            self.search_index < usize::MAX,
        ensures
            r@ == search_detail(*self, q@),
    {
        let matches = self.search_matches();
        let mut m = String::from_str(" /");
        push_str(&mut m, q.as_str());
        push_str(&mut m, "  [");
        if matches.len() == 0 {
            push_str(&mut m, "0");
        } else {
            push_decimal_text(&mut m, self.search_index + 1);
        }
        push_str(&mut m, "/");
        push_decimal_text(&mut m, matches.len());
        push_str(&mut m, "] ");
        let ghost before = m@;
        if self.search_index < matches.len() {
            match &self.output {
                Some(o) => {
                    proof {
                        crate::diagram_search::lemma_matching_indices(o.catalog@, query_of(self.search));
                    }
                    let e = &o.catalog[matches[self.search_index]];
                    push_str(&mut m, e.id.id.as_str());
                    push_str(&mut m, ": ");
                    let l = one_line_of(e.label.as_str());
                    push_str(&mut m, l.as_str());
                    assert(m@ =~= before + (e.id.id@ + ": "@ + one_line(e.label@)));
                },
                None => {},
            }
        } else {
            assert(m@ =~= before + seq![]);
        }
        m
    }

    fn detail_line(&self) -> (r: String)
        requires
            self.search_index < usize::MAX,
        ensures
            r@ == detail_text(*self),
    {
        if let Some(q) = &self.search {
            return self.search_line(q);
        }
        if let Some(e) = &self.error {
            let mut m = String::from_str(" Error: ");
            push_str(&mut m, e.as_str());
            push_str(&mut m, " · s: source");
            return m;
        }
        if let Some(f) = &self.feedback {
            return f.clone();
        }
        match &self.output {
            Some(o) => {
                if o.warnings.len() > 0 {
                    let mut m = String::from_str(" Warning: ");
                    push_str(&mut m, o.warnings[0].as_str());
                    m
                } else {
                    let mut m = String::from_str("selected ");
                    match &self.selected {
                        Some(s) => push_str(&mut m, s.id.as_str()),
                        None => push_str(&mut m, "none"),
                    }
                    push_str(&mut m, " · ");
                    push_str(&mut m, o.summary.as_str());
                    m
                }
            },
            None => String::from_str(LAYOUT_NOTE),
        }
    }

    /// The footer lines, clipped to `width` cells: extent and pan, the
    /// search or status detail, and the controls.
    pub fn footer_lines(&self, width: usize) -> (r: Vec<String>)
        requires
            self.search_index < usize::MAX,
        ensures
            strings_view(r@) == seq![
                slice_columns_spec(stats_text(*self), 0, width),
                slice_columns_spec(detail_text(*self), 0, width),
                slice_columns_spec(controls_text(*self), 0, width),
            ],
    {
        let stats = self.stats_line();
        let detail = self.detail_line();
        let controls = if self.search.is_some() { SEARCH_CONTROLS } else { VIEW_CONTROLS };
        let mut out: Vec<String> = Vec::new();
        out.push(slice_display_columns(stats.as_str(), 0, width));
        out.push(slice_display_columns(detail.as_str(), 0, width));
        out.push(slice_display_columns(controls, 0, width));
        assert(strings_view(out@) =~= seq![
            slice_columns_spec(stats_text(*self), 0, width),
            slice_columns_spec(detail_text(*self), 0, width),
            slice_columns_spec(controls_text(*self), 0, width),
        ]);
        out
    }

    /// The whole frame: `width` is the screen width, `area` the body, and
    /// `spacing` the spacing in use written as `node/rank/edge`.
    pub fn screen(&self, width: usize, area: Rect, spacing: &str) -> (r: DiagramScreen)
        requires
            self.ordinal < usize::MAX,
            self.search_index < usize::MAX,
            self.x + area.width <= usize::MAX,
            self.y + area.height <= usize::MAX,
        ensures
            r.title@ == slice_columns_spec(title_text(*self, spacing@), 0, width),
            strings_view(r.body@) == body_text(*self, area),
            r.highlight == highlight_of(*self, area),
            strings_view(r.footer@) == seq![
                slice_columns_spec(stats_text(*self), 0, width),
                slice_columns_spec(detail_text(*self), 0, width),
                slice_columns_spec(controls_text(*self), 0, width),
            ],
    {
        DiagramScreen {
            title: self.title_line(spacing, width),
            body: self.body_lines(area),
            highlight: self.highlight(area),
            footer: self.footer_lines(width),
        }
    }
}

/// The viewer's frame split into a one-row title, the body and a
/// three-row footer. A frame of fewer than four rows gives its rows to the
/// title first, then to the footer.
pub open spec fn layout_spec(frame: Rect) -> (Rect, Rect, Rect) {
    let t: u16 = if frame.height >= 1 { 1 } else { 0 };
    let rest = (frame.height - t) as u16;
    let f: u16 = if rest >= 3 { 3 } else { rest };
    let b = (rest - f) as u16;
    (
        Rect { x: frame.x, y: frame.y, width: frame.width, height: t },
        Rect { x: frame.x, y: (frame.y + t) as u16, width: frame.width, height: b },
        Rect { x: frame.x, y: (frame.y + t + b) as u16, width: frame.width, height: f },
    )
}

/// Splits the viewer's frame into title, body and footer rows.
pub fn diagram_layout(frame: Rect) -> (r: (Rect, Rect, Rect))
    requires
        frame.y + frame.height <= u16::MAX,
    ensures
        r == layout_spec(frame),
        r.0.height + r.1.height + r.2.height == frame.height,
        r.1.y == r.0.y + r.0.height,
        r.2.y == r.1.y + r.1.height,
        frame.height >= 4 ==> r.0.height == 1 && r.2.height == 3 && r.1.height == frame.height - 4,
{
    let t: u16 = if frame.height >= 1 { 1 } else { 0 };
    let rest = frame.height - t;
    let f: u16 = if rest >= 3 { 3 } else { rest };
    let b = rest - f;
    (
        Rect { x: frame.x, y: frame.y, width: frame.width, height: t },
        Rect { x: frame.x, y: frame.y + t, width: frame.width, height: b },
        Rect { x: frame.x, y: frame.y + t + b, width: frame.width, height: f },
    )
}

/// Whether the screen of `v` can be composed for a body `area`: the
/// counters and pan positions leave room to add to them.
pub open spec fn screen_fits(v: DiagramViewer, area: Rect) -> bool {
    &&& v.ordinal < usize::MAX
    &&& v.search_index < usize::MAX
    &&& v.x + area.width <= usize::MAX
    &&& v.y + area.height <= usize::MAX
}

impl App {
    /// One frame of the viewer at time `now`: the frame is split, the viewer
    /// takes the body as its area, and the screen text for it is composed.
    /// Nothing is composed without a viewer, or when the counters have no
    /// room left (`screen_fits`).
    pub fn diagram_frame(&mut self, frame: Rect, now: u64, spacing: &str) -> (r: Option<DiagramScreen>)
        requires
            frame.y + frame.height <= u16::MAX,
        ensures
            match old(self).diagrams.viewer {
                Some(v) => {
                    let body = layout_spec(frame).1;
                    let nv = area_set(v, body, now);
                    &&& final(self).diagrams.viewer == Some(nv)
                    &&& nv.area == body
                    &&& (r is Some <==> screen_fits(nv, body))
                    &&& (r matches Some(s) ==> {
                        &&& s.title@ == slice_columns_spec(title_text(nv, spacing@), 0, frame.width as usize)
                        &&& strings_view(s.body@) == body_text(nv, body)
                        &&& s.highlight == highlight_of(nv, body)
                        &&& strings_view(s.footer@) == seq![
                            slice_columns_spec(stats_text(nv), 0, frame.width as usize),
                            slice_columns_spec(detail_text(nv), 0, frame.width as usize),
                            slice_columns_spec(controls_text(nv), 0, frame.width as usize),
                        ]
                    })
                },
                None => r is None && final(self).diagrams.viewer is None,
            },
            same_outside_viewer(*final(self), *old(self)),
    {
        let (_title, body, _footer) = diagram_layout(frame);
        self.set_diagram_area(body, now);
        match &self.diagrams.viewer {
            Some(v) => {
                if v.ordinal < usize::MAX && v.search_index < usize::MAX && v.x <= usize::MAX - body.width as usize
                    && v.y <= usize::MAX - body.height as usize {
                    Some(v.screen(frame.width as usize, body, spacing))
                } else {
                    None
                }
            },
            None => None,
        }
    }
}

} // verus!
