//! Properties that hold across calls: of the preview cache, the diagram
//! state machine, footnote numbering, decimal numbers, the window a
//! Mermaid block shows and plain-text wrapping.
use vstd::prelude::*;
use crate::diagram_controls::source_toggled;
use crate::diagram_model::DiagramCompletion;
use crate::diagram_poll::absorbed;
use crate::diagrams::{clamped, diagram_closed, App, DiagramViewer};
use crate::diagram_open::diagram_opened;
use crate::footnotes::{note_order_spec, unreferenced};
use crate::names::distinct_names;
use crate::numbers::{all_digits, decimal, digit_char, digit_value, digits_value, parse_usize_spec};
use crate::preview_cache::{
    entry_bytes, eviction_count, evicted, has_room, keys_distinct, result_bytes, stored_result,
    store_view, total_bytes, without_key, EntryView, ResultView, PREVIEW_CACHE_BYTES,
    PREVIEW_CACHE_ENTRIES,
};
use crate::text::byte_len;
use crate::diagram_nav::panned;
use crate::diagram_poll::{absorbed_all, absorbed_trace, is_current_viewer_job};
use crate::document::{line_of_offset, line_starts, starts_after};
use crate::diagrams::{first_where, lemma_first_where};
use crate::mailbox::{job_begun, job_finished, submitted, Mailbox, MAX_COMPLETED};
use crate::plain_output::{in_ranges, rows_text, wrap_acc, wrap_line, written};
use crate::text::grapheme_split;
use crate::mermaid_block::{cut_edge, skip_blank_bottom, skip_blank_top, window_spec};
use crate::preview::{sat_sub, CellRect, MermaidPreview};
use crate::width::sat_add;

verus! {

proof fn lemma_eviction_from(es: Seq<EntryView>, incoming: int, k: int)
    requires
        0 <= k <= es.len(),
        forall|j: int| 0 <= j < k ==> !#[trigger] has_room(es.skip(j), incoming),
    ensures
        exists|m: int| eviction_count(es, incoming, m),
    decreases es.len() - k,
{
    if has_room(es.skip(k), incoming) || k == es.len() {
        assert(eviction_count(es, incoming, k));
    } else {
        lemma_eviction_from(es, incoming, k + 1);
    }
}

/// Law: storing a preview leaves every source at most once, at most 32
/// entries, and the stored source as the newest entry with its result (or
/// the budget message for an oversized one). The cache stays within its
/// byte budget unless the new entry alone exceeds it.
pub proof fn law_store_keeps_cache_bounded(es: Seq<EntryView>, source: Seq<char>, result: ResultView)
    requires
        keys_distinct(es),
    ensures
        ({
            let s = store_view(es, source, result);
            &&& keys_distinct(s)
            &&& s.len() <= PREVIEW_CACHE_ENTRIES
            &&& s.last() == (source, stored_result(source, result))
            &&& (total_bytes(s) <= PREVIEW_CACHE_BYTES || s.len() == 1)
        }),
{
    let stored = stored_result(source, result);
    let rest = without_key(es, source);
    let incoming = byte_len(source) + result_bytes(stored);
    lemma_eviction_from(rest, incoming, 0);
    let m = evicted(rest, incoming);
    assert(eviction_count(rest, incoming, m));
    let kept = rest.skip(m);
    let s = store_view(es, source, result);
    assert(s == kept.push((source, stored)));
    assert(s.drop_last() =~= kept);
    if m == rest.len() && !has_room(kept, incoming) {
        assert(kept.len() == 0);
    }
    crate::laws::lemma_store_distinct(es, source, result);
}

/// The keys after storing stay distinct (the stored key was removed first).
pub proof fn lemma_store_distinct(es: Seq<EntryView>, source: Seq<char>, result: ResultView)
    requires
        keys_distinct(es),
    ensures
        keys_distinct(store_view(es, source, result)),
{
    let stored = stored_result(source, result);
    let rest = without_key(es, source);
    let incoming = byte_len(source) + result_bytes(stored);
    crate::preview_cache::lemma_without_key_distinct(es, source);
    crate::preview_cache::lemma_without_key_members(es, source);
    let m = evicted(rest, incoming);
    lemma_eviction_from(rest, incoming, 0);
    assert(eviction_count(rest, incoming, m));
    let kept = rest.skip(m);
    let s = kept.push((source, stored));
    assert forall|i: int, j: int| 0 <= i < j < s.len() implies #[trigger] s[i].0 != #[trigger] s[j].0 by {
        if j == s.len() - 1 {
            assert(s[i] == rest[i + m]);
        } else {
            assert(s[i] == rest[i + m] && s[j] == rest[j + m]);
        }
    }
}

/// Law: a completion for another document generation, or a viewer
/// completion that does not answer the open viewer's current request, is
/// ignored: nothing changes.
pub proof fn law_stale_completion_is_ignored(a: App, b: App, c: DiagramCompletion, changed: bool, previews: bool)
    requires
        absorbed(a, b, c, changed, previews),
        c.job.document != a.diagrams.document || (c.job.view is Some && match a.diagrams.viewer {
            Some(v) => c.job.request != v.request,
            None => true,
        }),
    ensures
        b == a,
        !changed,
        !previews,
{
}

/// Law: leaving the original source view returns to the diagram pan
/// position it was left at, when that position was within the limits.
pub proof fn law_source_toggle_restores_pan(v: DiagramViewer)
    requires
        !v.source_mode,
        clamped(v) == v,
    ensures
        source_toggled(source_toggled(v)).x == v.x,
        source_toggled(source_toggled(v)).y == v.y,
        !source_toggled(source_toggled(v)).source_mode,
{
}

pub proof fn lemma_unreferenced_members(defs: Seq<Seq<char>>, refs: Seq<Seq<char>>)
    ensures
        forall|k: int| 0 <= k < unreferenced(defs, refs).len() ==> !refs.contains(#[trigger] unreferenced(defs, refs)[k]),
        forall|k: int| 0 <= k < unreferenced(defs, refs).len() ==> defs.contains(#[trigger] unreferenced(defs, refs)[k]),
    decreases defs.len(),
{
    if defs.len() > 0 {
        let d = defs.drop_last();
        lemma_unreferenced_members(d, refs);
        let u = unreferenced(defs, refs);
        assert forall|k: int| 0 <= k < u.len() implies defs.contains(#[trigger] u[k]) by {
            let r = unreferenced(d, refs);
            if k < r.len() {
                assert(u[k] == r[k]);
                let j = choose|j: int| 0 <= j < d.len() && d[j] == r[k];
                assert(defs[j] == d[j]);
            } else {
                assert(defs[defs.len() - 1] == u[k]);
            }
        }
        assert forall|k: int| 0 <= k < u.len() implies !refs.contains(#[trigger] u[k]) by {
            let r = unreferenced(d, refs);
            if k < r.len() {
                assert(u[k] == r[k]);
            }
        }
    }
}

pub proof fn lemma_unreferenced_distinct(defs: Seq<Seq<char>>, refs: Seq<Seq<char>>)
    requires
        distinct_names(defs),
    ensures
        distinct_names(unreferenced(defs, refs)),
    decreases defs.len(),
{
    if defs.len() > 0 {
        let d = defs.drop_last();
        assert(distinct_names(d)) by {
            assert forall|i: int, j: int| 0 <= i < j < d.len() implies d[i] != d[j] by {
                assert(d[i] == defs[i] && d[j] == defs[j]);
            }
        }
        lemma_unreferenced_distinct(d, refs);
        lemma_unreferenced_members(d, refs);
        let r = unreferenced(d, refs);
        if !refs.contains(defs.last()) {
            let u = r.push(defs.last());
            assert forall|i: int, j: int| 0 <= i < j < u.len() implies u[i] != u[j] by {
                if j == u.len() - 1 {
                    assert(u[i] == r[i]);
                    assert(d.contains(r[i]));
                    let k = choose|k: int| 0 <= k < d.len() && d[k] == r[i];
                    assert(defs[k] == d[k]);
                    assert(defs[defs.len() - 1] == defs.last());
                } else {
                    assert(u[i] == r[i] && u[j] == r[j]);
                }
            }
        }
    }
}

/// Law: every footnote label is listed once, so each gets exactly one
/// number: referenced labels first, in order of first reference.
pub proof fn law_footnote_labels_listed_once(refs: Seq<Seq<char>>, defs: Seq<Seq<char>>)
    requires
        distinct_names(refs),
        distinct_names(defs),
    ensures
        distinct_names(note_order_spec(refs, defs)),
        note_order_spec(refs, defs).take(refs.len() as int) == refs,
{
    lemma_unreferenced_distinct(defs, refs);
    lemma_unreferenced_members(defs, refs);
    let u = unreferenced(defs, refs);
    let all = refs + u;
    assert forall|i: int, j: int| 0 <= i < j < all.len() implies all[i] != all[j] by {
        if j < refs.len() {
        } else if i >= refs.len() {
            assert(all[i] == u[i - refs.len()] && all[j] == u[j - refs.len()]);
        } else {
            assert(all[j] == u[j - refs.len()]);
            assert(all[i] == refs[i]);
        }
    }
    assert(all.take(refs.len() as int) =~= refs);
}

pub proof fn lemma_decimal_digits(n: nat)
    ensures
        all_digits(decimal(n)),
        digits_value(decimal(n)) == n,
        decimal(n).len() > 0,
        decimal(n)[0] != '+',
    decreases n,
{
    if n < 10 {
        assert(digit_value(digit_char(n)) == n);
        assert(decimal(n).drop_last() =~= seq![]);
        assert(digits_value(decimal(n)) == digits_value(decimal(n).drop_last()) * 10 + digit_value(decimal(n).last()));
    } else {
        lemma_decimal_digits(n / 10);
        let d = decimal(n);
        assert(d.drop_last() =~= decimal(n / 10));
        assert(digit_value(digit_char(n % 10)) == n % 10);
        assert(d.last() == digit_char(n % 10));
        assert(digits_value(d) == digits_value(decimal(n / 10)) * 10 + digit_value(d.last()));
        assert((n / 10) * 10 + n % 10 == n) by (nonlinear_arith);
        assert(all_digits(d)) by {
            assert forall|i: int| 0 <= i < d.len() implies crate::numbers::is_digit(#[trigger] d[i]) by {
                if i < d.len() - 1 {
                    assert(d[i] == decimal(n / 10)[i]);
                }
            }
        }
        assert(d[0] == decimal(n / 10)[0]);
    }
}

/// Law: reading back the decimal text of a number gives the number.
pub proof fn law_decimal_round_trip(n: usize)
    ensures
        parse_usize_spec(decimal(n as nat)) == Some(n),
{
    lemma_decimal_digits(n as nat);
}

/// A node edge chosen to end a window lies left of the window's end.
pub proof fn lemma_cut_edge_inside(nodes: Seq<CellRect>, end_x: usize)
    ensures
        cut_edge(nodes, end_x) matches Some(e) ==> e < end_x,
    decreases nodes.len(),
{
    if nodes.len() > 0 {
        lemma_cut_edge_inside(nodes.drop_last(), end_x);
    }
}

proof fn lemma_skip_top_bounds(rows: Seq<Seq<char>>, s: int, e: int, sx: usize, ex: usize)
    ensures
        s <= skip_blank_top(rows, s, e, sx, ex),
        s <= e ==> skip_blank_top(rows, s, e, sx, ex) <= e,
    decreases e - s,
{
    if s < e {
        lemma_skip_top_bounds(rows, s + 1, e, sx, ex);
    }
}

proof fn lemma_skip_bottom_bounds(rows: Seq<Seq<char>>, s: int, e: int, sx: usize, ex: usize)
    ensures
        skip_blank_bottom(rows, s, e, sx, ex) <= e,
        s <= e ==> s <= skip_blank_bottom(rows, s, e, sx, ex),
        e < s ==> skip_blank_bottom(rows, s, e, sx, ex) == e,
    decreases e - s,
{
    if e > s {
        lemma_skip_bottom_bounds(rows, s, e - 1, sx, ex);
    }
}

/// Law: a document preview (not a complete export) is never wider than the
/// cells left after its prefix, and its window never spans more columns
/// than the frame's body, nor reaches past the rows there are; a clipped
/// preview shows at most `PREVIEW_ROWS` rows.
pub proof fn law_preview_fits_its_space(
    rows: Seq<Seq<char>>,
    ready: Option<MermaidPreview>,
    failed: bool,
    prefix_width: usize,
    render_width: usize,
    code_line_numbers: bool,
)
    requires
        rows.len() <= usize::MAX,
    ensures
        ({
            let w = window_spec(rows, ready, failed, prefix_width, render_width, false, code_line_numbers);
            &&& w.frame_width <= sat_sub(render_width, prefix_width)
            &&& w.start_x <= w.end_x
            &&& w.end_x - w.start_x <= w.body_width
            &&& w.end_y <= rows.len()
            &&& !w.full_height ==> w.end_y <= w.start_y + crate::mermaid_block::PREVIEW_ROWS
        }),
{
    let w = window_spec(rows, ready, failed, prefix_width, render_width, false, code_line_numbers);
    let ex0 = sat_add(w.start_x, w.body_width);
    if ready is Some && ready->0.overview {
        lemma_cut_edge_inside(ready->0.nodes@, ex0);
    }
    if !w.full_height && ready is Some {
        let p = ready->0;
        let (sx, sy0) = crate::preview::spec_preview_origin(p.nodes@, p.width, p.height, p.overview, w.body_width, crate::mermaid_block::PREVIEW_ROWS);
        let ey0: usize = if sat_add(sy0, crate::mermaid_block::PREVIEW_ROWS) < rows.len() {
            sat_add(sy0, crate::mermaid_block::PREVIEW_ROWS)
        } else {
            rows.len() as usize
        };
        let ey1: usize = match crate::mermaid_block::last_bottom(p.nodes@, sx, w.body_width, sy0, ey0) {
            Some(b) => if sat_add(b, 1) < ey0 { sat_add(b, 1) } else { ey0 },
            None => ey0,
        };
        let s = skip_blank_top(rows, sy0 as int, ey1 as int, sx, w.end_x);
        lemma_skip_top_bounds(rows, sy0 as int, ey1 as int, sx, w.end_x);
        lemma_skip_bottom_bounds(rows, s, ey1 as int, sx, w.end_x);
    }
}

/// Law: a complete export shows the canvas whole: every row from the first,
/// from the first column, with a body at least as wide as the canvas when
/// the framed width fits in a machine word.
pub proof fn law_complete_export_shows_whole_canvas(
    rows: Seq<Seq<char>>,
    ready: Option<MermaidPreview>,
    failed: bool,
    prefix_width: usize,
    render_width: usize,
    code_line_numbers: bool,
)
    requires
        rows.len() <= usize::MAX,
    ensures
        ({
            let w = window_spec(rows, ready, failed, prefix_width, render_width, true, code_line_numbers);
            &&& w.full_height
            &&& w.start_x == 0
            &&& w.start_y == 0
            &&& w.end_y == rows.len()
            &&& !failed && w.canvas_width + w.gutter + 2 <= usize::MAX ==> w.body_width
                >= w.canvas_width
        }),
{
}

/// Law: panning by any amount leaves the viewer within its pan limits and
/// changes nothing but the pan position.
pub proof fn law_pan_stays_within_limits(v: DiagramViewer, dx: isize, dy: isize)
    ensures
        panned(v, dx, dy).x <= v.spec_limits().0,
        panned(v, dx, dy).y <= v.spec_limits().1,
        panned(v, dx, dy) == (DiagramViewer { x: panned(v, dx, dy).x, y: panned(v, dx, dy).y, ..v }),
{
}

/// Law: opening the viewer and closing it again leaves the document where
/// it was: the same scroll position, code-block selection and blocks, and
/// no viewer.
pub proof fn law_open_close_keeps_document_position(a: App, b: App, c: App)
    requires
        diagram_opened(a, b),
        diagram_closed(b, c),
    ensures
        c.scroll == a.scroll,
        c.code_select == a.code_select,
        c.content_area == a.content_area,
        c.diagrams.blocks == a.diagrams.blocks,
        c.diagrams.viewer is None,
{
}

/// Pieces of text laid end to end.
pub open spec fn concat(parts: Seq<Seq<char>>) -> Seq<char>
    decreases parts.len(),
{
    if parts.len() == 0 {
        seq![]
    } else {
        concat(parts.drop_last()) + parts.last()
    }
}

proof fn lemma_concat_push(parts: Seq<Seq<char>>, p: Seq<char>)
    ensures
        concat(parts.push(p)) == concat(parts) + p,
{
    assert(parts.push(p).drop_last() =~= parts);
}

proof fn lemma_concat_first(parts: Seq<Seq<char>>)
    requires
        parts.len() > 0,
    ensures
        concat(parts) == parts[0] + concat(parts.drop_first()),
    decreases parts.len(),
{
    if parts.len() == 1 {
        assert(parts.drop_last() =~= Seq::<Seq<char>>::empty());
        assert(parts.drop_first() =~= Seq::<Seq<char>>::empty());
        assert(concat(parts) =~= parts[0] + concat(parts.drop_first()));
    } else {
        lemma_concat_first(parts.drop_last());
        assert(parts.drop_last().drop_first() =~= parts.drop_first().drop_last());
        assert(parts.drop_first().last() == parts.last());
        assert(concat(parts) =~= parts[0] + concat(parts.drop_first()));
    }
}

proof fn lemma_wrap_acc_concat(gs: Seq<Seq<char>>, limit: usize, cur: Seq<char>, cur_w: usize, done: Seq<Seq<char>>)
    ensures
        concat(wrap_acc(gs, limit, cur, cur_w, done)) == concat(done) + cur + concat(gs),
    decreases gs.len(),
{
    if gs.len() == 0 {
        lemma_concat_push(done, cur);
        assert(concat(gs) =~= Seq::<char>::empty());
        assert(concat(done) + cur + concat(gs) =~= concat(done) + cur);
    } else {
        let g = gs[0];
        let w = crate::text::unicode_width_of(g);
        lemma_concat_first(gs);
        if cur_w + w > limit && cur.len() > 0 {
            lemma_wrap_acc_concat(gs.drop_first(), limit, g, w, done.push(cur));
            lemma_concat_push(done, cur);
            assert(concat(done.push(cur)) + g + concat(gs.drop_first()) =~= concat(done) + cur + concat(gs));
        } else {
            lemma_wrap_acc_concat(gs.drop_first(), limit, cur + g, sat_add(cur_w, w), done);
            assert(concat(done) + (cur + g) + concat(gs.drop_first()) =~= concat(done) + cur + concat(gs));
        }
    }
}

/// Law: wrapping a line loses, adds and reorders nothing: its rows, laid
/// end to end, are its grapheme clusters in order.
pub proof fn law_wrapping_keeps_the_text(line: Seq<char>, width: usize)
    ensures
        concat(wrap_line(line, width)) == concat(grapheme_split(line)),
{
    lemma_wrap_acc_concat(grapheme_split(line), width, seq![], 0, seq![]);
    assert(concat(Seq::<Seq<char>>::empty()) + Seq::<char>::empty() + concat(grapheme_split(line)) =~= concat(
        grapheme_split(line),
    ));
}

/// Law: lines inside the unwrapped ranges (such as a full diagram export)
/// are written whole, whatever the width: when every line is in a range,
/// the output is the lines themselves, one per row.
pub proof fn law_unwrapped_lines_are_written_whole(lines: Seq<Seq<char>>, width: usize, unwrapped: Seq<(usize, usize)>)
    requires
        forall|i: int| 0 <= i < lines.len() ==> #[trigger] in_ranges(unwrapped, i),
    ensures
        written(lines, width, unwrapped) == rows_text(lines),
    decreases lines.len(),
{
    if lines.len() > 0 {
        let rest = lines.drop_last();
        assert forall|i: int| 0 <= i < rest.len() implies #[trigger] in_ranges(unwrapped, i) by {
            assert(in_ranges(unwrapped, i));
        }
        law_unwrapped_lines_are_written_whole(rest, width, unwrapped);
        assert(in_ranges(unwrapped, lines.len() - 1));
    }
}

/// Law: a viewer job submitted while a viewer job runs asks for the running
/// one to be cancelled.
pub proof fn law_viewer_job_supersedes_running_one(a: Mailbox, b: Mailbox, job: crate::diagram_model::DiagramJob, cancel: bool)
    requires
        submitted(a, b, job, cancel),
        job.view is Some,
        a.active,
        a.active_foreground,
    ensures
        cancel,
        b.active,
{
}

/// Law: of two jobs submitted one after the other, the worker next begins
/// the later one; the earlier is never laid out.
pub proof fn law_latest_submission_runs_next(
    a: Mailbox,
    b: Mailbox,
    c: Mailbox,
    d: Mailbox,
    j1: crate::diagram_model::DiagramJob,
    j2: crate::diagram_model::DiagramJob,
    k1: bool,
    k2: bool,
    r: Option<crate::diagram_model::DiagramJob>,
)
    requires
        submitted(a, b, j1, k1),
        submitted(b, c, j2, k2),
        job_begun(c, d, r),
        !a.shutdown,
    ensures
        r == Some(j2),
        d.active,
        d.pending is None,
{
}

/// Law: a job cancelled before it finished is never handed to the
/// interface, and at most two finished jobs wait.
pub proof fn law_cancelled_job_is_never_published(
    a: Mailbox,
    b: Mailbox,
    completion: DiagramCompletion,
    cancelled: bool,
    go_on: bool,
)
    requires
        a.wf(),
        job_finished(a, b, completion, cancelled, go_on),
    ensures
        cancelled ==> b.completed == a.completed,
        b.completed@.len() <= MAX_COMPLETED,
        !b.active,
{
}

proof fn lemma_no_current_answer_keeps_viewer(
    a: App,
    cs: Seq<DiagramCompletion>,
    states: Seq<App>,
    flags: Seq<(bool, bool)>,
    k: int,
)
    requires
        absorbed_trace(states, cs, flags),
        states[0] == a,
        0 <= k <= cs.len(),
        forall|i: int| 0 <= i < cs.len() ==> !is_current_viewer_job(a, #[trigger] cs[i]),
    ensures
        states[k].diagrams.viewer == a.diagrams.viewer,
        states[k].diagrams.document == a.diagrams.document,
        forall|i: int| 0 <= i < k ==> !(#[trigger] flags[i]).0,
    decreases k,
{
    if k > 0 {
        lemma_no_current_answer_keeps_viewer(a, cs, states, flags, k - 1);
        let i = k - 1;
        assert(crate::diagram_poll::absorbed(states[i], states[i + 1], cs[i], flags[i].0, flags[i].1));
        assert(!is_current_viewer_job(a, cs[i]));
    }
}

/// Law: over a whole drained list, the viewer keeps what it shows unless
/// some completion is the answer to its current request (same document,
/// request, ordinal and source): stale answers, answers for a closed viewer
/// and answers for an earlier document change nothing in it.
pub proof fn law_only_the_current_answer_reaches_the_viewer(
    a: App,
    b: App,
    cs: Seq<DiagramCompletion>,
    changed: bool,
    previews: bool,
)
    requires
        absorbed_all(a, b, cs, changed, previews),
        forall|i: int| 0 <= i < cs.len() ==> !is_current_viewer_job(a, #[trigger] cs[i]),
    ensures
        b.diagrams.viewer == a.diagrams.viewer,
        !changed,
{
    let (states, flags) = choose|states: Seq<App>, flags: Seq<(bool, bool)>|
        #[trigger] absorbed_trace(states, cs, flags) && states[0] == a && states.last() == b && (changed
            <==> exists|i: int| 0 <= i < flags.len() && #[trigger] flags[i].0) && (previews <==> exists|i: int|
            0 <= i < flags.len() && #[trigger] flags[i].1);
    lemma_no_current_answer_keeps_viewer(a, cs, states, flags, cs.len() as int);
}

/// Newline bytes in `b`.
pub open spec fn newlines(b: Seq<u8>) -> nat
    decreases b.len(),
{
    if b.len() == 0 {
        0
    } else {
        newlines(b.drop_last()) + if b.last() == 10u8 { 1nat } else { 0nat }
    }
}

proof fn lemma_newlines_step(b: Seq<u8>, x: int)
    requires
        0 <= x < b.len(),
    ensures
        newlines(b.take(x + 1)) == newlines(b.take(x)) + if b[x] == 10u8 { 1nat } else { 0nat },
{
    assert(b.take(x + 1).drop_last() =~= b.take(x));
}

proof fn lemma_newlines_le(b: Seq<u8>)
    ensures
        newlines(b) <= b.len(),
    decreases b.len(),
{
    if b.len() > 0 {
        lemma_newlines_le(b.drop_last());
    }
}

proof fn lemma_newlines_mono(b: Seq<u8>, x: int, y: int)
    requires
        0 <= x <= y <= b.len(),
    ensures
        newlines(b.take(x)) <= newlines(b.take(y)),
    decreases y - x,
{
    if x < y {
        lemma_newlines_mono(b, x, y - 1);
        lemma_newlines_step(b, y - 1);
    }
}

proof fn lemma_line_starts_shape(b: Seq<u8>)
    requires
        b.len() <= usize::MAX,
    ensures
        line_starts(b).len() == 1 + newlines(b),
        line_starts(b)[0] == 0,
        forall|j: int|
            1 <= j < line_starts(b).len() ==> {
                &&& 1 <= #[trigger] line_starts(b)[j] <= b.len()
                &&& b[line_starts(b)[j] - 1] == 10u8
                &&& newlines(b.take(line_starts(b)[j] - 1)) == j - 1
            },
    decreases b.len(),
{
    if b.len() > 0 {
        let p = b.drop_last();
        lemma_line_starts_shape(p);
        let sp = line_starts(p);
        assert forall|j: int| 1 <= j < sp.len() implies b[sp[j] - 1] == 10u8 && newlines(b.take(sp[j] - 1))
            == j - 1 by {
            assert(b.take(sp[j] - 1) =~= p.take(sp[j] - 1));
            assert(b[sp[j] - 1] == p[sp[j] - 1]);
        }
        if b.last() == 10u8 {
            assert(b.take(p.len() as int) =~= p);
            let s = line_starts(b);
            assert(s == sp.push(b.len() as usize));
            assert forall|j: int| 1 <= j < s.len() implies {
                &&& 1 <= #[trigger] s[j] <= b.len()
                &&& b[s[j] - 1] == 10u8
                &&& newlines(b.take(s[j] - 1)) == j - 1
            } by {
                if j < sp.len() {
                    assert(s[j] == sp[j]);
                    assert(b[sp[j] - 1] == 10u8 && newlines(b.take(sp[j] - 1)) == j - 1);
                } else {
                    assert(s[j] == b.len());
                    assert(b.take(b.len() - 1) =~= p);
                }
            }
        }
    }
}

/// Law: the line of a byte offset is one plus the newlines before it: the
/// line starts of a text, searched for an offset within it, give the
/// 1-based line that holds the offset.
pub proof fn law_line_of_offset_counts_newlines(b: Seq<u8>, offset: usize)
    requires
        offset <= b.len(),
        b.len() < usize::MAX,
    ensures
        line_of_offset(line_starts(b), offset) == 1 + newlines(b.take(offset as int)),
{
    let s = line_starts(b);
    lemma_newlines_mono(b, 0, b.len() as int);
    lemma_newlines_le(b);
    let m: int = newlines(b.take(offset as int)) as int;
    lemma_line_starts_shape(b);
    lemma_newlines_mono(b, offset as int, b.len() as int);
    assert(b.take(b.len() as int) =~= b);
    let p = starts_after(s, offset);
    assert forall|j: int| 0 <= j < s.len() implies (s[j] <= offset <==> j <= m) by {
        if j >= 1 {
            if s[j] <= offset {
                lemma_newlines_step(b, s[j] - 1);
                lemma_newlines_mono(b, s[j] as int, offset as int);
            } else {
                lemma_newlines_mono(b, offset as int, s[j] - 1);
            }
        }
    }
    lemma_first_where(s.len() as int, p);
    let k = first_where(s.len() as int, p);
    if m + 1 < s.len() {
        assert(p(m + 1));
        assert(k == m + 1) by {
            if k >= 0 && k < m + 1 {
                assert(p(k));
            }
            if k == -1 || k > m + 1 {
                assert(!p(m + 1));
            }
        }
    } else {
        assert(k == -1) by {
            if k >= 0 {
                assert(p(k));
            }
        }
    }
}

/// Law: a Mermaid block shows its rows clipped, never wrapped: after the
/// top edge comes exactly one line per shown canvas row, and that line is
/// the gutter, the row cut to the window's columns, and the padding; a
/// clipped preview shows at most `PREVIEW_ROWS` such lines.
#[verifier::rlimit(80)]
pub proof fn law_block_rows_are_clipped_not_wrapped(
    content: Seq<char>,
    ready: Option<MermaidPreview>,
    error: Option<Seq<char>>,
    prefix_width: usize,
    render_width: usize,
    complete: bool,
    code_line_numbers: bool,
    cached: bool,
    spacing: Seq<char>,
    k: int,
)
    requires
        crate::mermaid_block::block_rows_spec(content, ready, error).len() <= usize::MAX,
    ensures
        ({
            let rows = crate::mermaid_block::block_rows_spec(content, ready, error);
            let w = window_spec(rows, ready, ready is None && error is Some, prefix_width, render_width, complete, code_line_numbers);
            let lines = crate::mermaid_block::block_lines_spec(
                content, ready, error, prefix_width, render_width, complete, code_line_numbers, cached, spacing,
            );
            let n = crate::mermaid_block::shown_row_count(w);
            &&& lines.len() >= n + 3
            &&& (0 <= k < n ==> lines[1 + k] == crate::mermaid_block::row_line_spec(w, rows, w.start_y + k))
            &&& (0 <= k < n && !w.source_complete && w.frame_width >= sat_add(w.gutter, 2) ==> lines[1 + k]
                == crate::mermaid_block::row_gutter_spec(w, (w.start_y + k) as usize) + crate::width::slice_columns_spec(
                rows[w.start_y + k],
                w.start_x,
                w.end_x,
            ) + crate::mermaid_block::row_padding_spec(
                w,
                crate::text::unicode_width_of(crate::width::slice_columns_spec(rows[w.start_y + k], w.start_x, w.end_x)),
            ))
            &&& (!w.full_height ==> n <= crate::mermaid_block::PREVIEW_ROWS)
        }),
{
    let rows = crate::mermaid_block::block_rows_spec(content, ready, error);
    let failed = ready is None && error is Some;
    let w = window_spec(rows, ready, failed, prefix_width, render_width, complete, code_line_numbers);
    let n = crate::mermaid_block::shown_row_count(w);
    let body = Seq::new(n, |i: int| crate::mermaid_block::row_line_spec(w, rows, w.start_y + i));
    let lines = crate::mermaid_block::block_lines_spec(
        content, ready, error, prefix_width, render_width, complete, code_line_numbers, cached, spacing,
    );
    assert(lines.subrange(1, 1 + n as int) =~= body);
    if 0 <= k < n {
        assert(lines[1 + k] == lines.subrange(1, 1 + n as int)[k]);
    }
    if !complete {
        law_preview_fits_its_space(rows, ready, failed, prefix_width, render_width, code_line_numbers);
    }
}


/// Law: a command line that parses keeps the option rules: a standalone
/// action (`--update`, `--config`, `--auto-complete`, `--history`) comes
/// alone; `--mermaid-full` comes with `--inline` (or with help or version);
/// `--inline` excludes `--watch`, `--picker` and `--fuzzy`; `--fuzzy`
/// excludes `--picker` and a file argument; `--last` excludes a file
/// argument, `--picker` and `--fuzzy`.
pub proof fn law_accepted_options_keep_the_combination_rules(
    args: Seq<Seq<char>>,
    facts: Seq<crate::cli::ArgFacts>,
    v: crate::cli::CliView,
)
    requires
        crate::cli::cli_spec(args, facts) == Ok::<crate::cli::CliView, Seq<char>>(v),
    ensures
        (v.update || v.config is Some || v.auto_complete is Some || v.history is Some) ==> !crate::cli::has_other(
            v,
            crate::cli::count_true(v.update, v.config is Some, v.auto_complete is Some, v.history is Some),
        ),
        v.mermaid_full ==> (v.inline is Some || v.print_help || v.print_version),
        v.inline is Some ==> !v.watch && !v.picker && !v.fuzzy,
        v.fuzzy ==> !v.picker && v.file_arg is None,
        v.last ==> v.file_arg is None && !v.picker && !v.fuzzy,
{
    let scanned = crate::cli::scan(args, facts, 1, false, crate::cli::default_cli());
    assert(scanned is Ok);
    assert(crate::cli::validate(scanned->Ok_0) == Ok::<crate::cli::CliView, Seq<char>>(v));
}

/// Distinct identities: the first object with the identity of object `i`
/// is object `i`.
proof fn lemma_first_index_distinct(objects: Seq<crate::diagram_model::VisibleObject>, i: int)
    requires
        0 <= i < objects.len(),
        forall|a: int, b: int| 0 <= a < b < objects.len() ==> #[trigger] objects[a].id@ != #[trigger] objects[b].id@,
    ensures
        crate::diagrams::first_index(objects, objects[i].id@) == i,
{
    crate::diagrams::lemma_first_index(objects, objects[i].id@);
    let r = crate::diagrams::first_index(objects, objects[i].id@);
    if r >= 0 && r != i {
        if r < i {
            assert(objects[r].id@ != objects[i].id@);
        } else {
            assert(objects[i].id@ != objects[r].id@);
        }
    }
}

/// Law: Tab then Shift-Tab in the diagram viewer gives back the selection,
/// when the selected object is visible and the visible objects' identities
/// are distinct; the diagram itself is untouched.
pub proof fn law_tab_then_shift_tab_restores_selection(v: DiagramViewer)
    requires
        !v.initial_frame,
        v.output is Some,
        v.output->Some_0.objects@.len() > 0,
        forall|a: int, b: int|
            0 <= a < b < v.output->Some_0.objects@.len() ==> #[trigger] v.output->Some_0.objects@[a].id@
                != #[trigger] v.output->Some_0.objects@[b].id@,
        v.selected is Some,
        crate::diagrams::first_index(v.output->Some_0.objects@, v.selected->Some_0@) >= 0,
    ensures
        ({
            let w = crate::diagram_nav::selected_next(crate::diagram_nav::selected_next(v, false), true);
            &&& w.selected is Some
            &&& w.selected->Some_0@ == v.selected->Some_0@
            &&& w.output == v.output
        }),
{
    let objs = v.output->Some_0.objects@;
    let s = v.selected->Some_0;
    crate::diagrams::lemma_first_index(objs, s@);
    let k = crate::diagrams::first_index(objs, s@);
    let j = crate::diagram_nav::next_object_index(objs, v.selected, false);
    assert(0 <= j < objs.len());
    let v1 = crate::diagram_nav::selected_next(v, false);
    assert(v1.selected == Some(objs[j].id));
    assert(v1.output == v.output);
    assert(!v1.initial_frame);
    lemma_first_index_distinct(objs, j);
    let back = crate::diagram_nav::next_object_index(objs, v1.selected, true);
    assert(back == k);
    let w = crate::diagram_nav::selected_next(v1, true);
    assert(w.selected == Some(objs[k].id));
}


/// Law, over a whole exchange with the worker: while it lays out a viewer
/// job, two more jobs are submitted, the first of them for the viewer.
/// That first submission asks for the running job to be cancelled; the
/// cancelled job's canvas is never published; the worker next lays out the
/// last submission, never the one in between; at most two canvases wait.
pub proof fn law_worker_replaces_pending_jobs_and_keeps_one_active(
    states: Seq<Mailbox>,
    j1: crate::diagram_model::DiagramJob,
    j2: crate::diagram_model::DiagramJob,
    j3: crate::diagram_model::DiagramJob,
    k2: bool,
    k3: bool,
    done: DiagramCompletion,
    go_on: bool,
    r: Option<crate::diagram_model::DiagramJob>,
)
    requires
        states.len() == 6,
        states[0].wf(),
        !states[0].shutdown,
        states[0].pending == Some(j1),
        j1.view is Some,
        j2.view is Some,
        job_begun(states[0], states[1], Some(j1)),
        submitted(states[1], states[2], j2, k2),
        submitted(states[2], states[3], j3, k3),
        job_finished(states[3], states[4], done, k2 || k3, go_on),
        job_begun(states[4], states[5], r),
    ensures
        states[1].active,
        k2,
        states[4].completed == states[0].completed,
        r == Some(j3),
        states[5].active,
        states[5].pending is None,
        states[5].completed@.len() <= MAX_COMPLETED,
{
}


/// Law: on the document (no viewer, help, picker, popup or prompt open),
/// `n` jumps to the next search match and `N` to the previous one, in any
/// state; the two keys never ask for the same thing.
pub proof fn law_n_and_shift_n_step_through_matches(mode: crate::keys::KeyMode)
    ensures
        crate::keys::document_key_spec(mode, crate::diagram_keys::KeyCode::Char('n'), false).command
            == crate::keys::AppCommand::NextMatch,
        crate::keys::document_key_spec(mode, crate::diagram_keys::KeyCode::Char('N'), false).command
            == crate::keys::AppCommand::PrevMatch,
        ({
            let doc = !mode.diagram_open && !mode.help_open && !mode.history_picker_loading && !mode.picker_loading
                && !mode.picker_load_failed && !mode.history_picker_open && mode.file_picker
                == crate::keys::PickerKind::Closed && !mode.theme_picker_open && !mode.editor_picker_open
                && !mode.path_popup_open && !mode.goto_line_mode && !mode.search_mode;
            doc ==> {
                &&& crate::keys::key_command_spec(mode, crate::diagram_keys::KeyCode::Char('n'), false).command
                    == crate::keys::AppCommand::NextMatch
                &&& crate::keys::key_command_spec(mode, crate::diagram_keys::KeyCode::Char('N'), false).command
                    == crate::keys::AppCommand::PrevMatch
            }
        }),
        crate::keys::AppCommand::NextMatch != crate::keys::AppCommand::PrevMatch,
{
}

/// Law: the content width. A width on the command line wins. Otherwise,
/// unless `LEAF_WIDTH` is a number of at least 20, a configured width is
/// used, raised to 20: one of at least 20 is used unchanged, a smaller one
/// gives 20; with none configured there is no width.
pub proof fn law_configured_width_is_raised_to_twenty(cli: Option<usize>, env: Option<Seq<char>>, config: Option<usize>)
    ensures
        cli matches Some(c) ==> crate::settings::configured_width(cli, env, config) == Some(c),
        ({
            let env_used = env matches Some(e) && crate::numbers::parse_usize_spec(e) matches Some(v) && v >= 20;
            let r = crate::settings::configured_width(cli, env, config);
            &&& (cli is None && env_used) ==> r == crate::numbers::parse_usize_spec(env->0) && r->0 >= 20
            &&& (cli is None && !env_used && config is None) ==> r is None
            &&& (cli is None && !env_used && config is Some) ==> {
                let w = config->0;
                &&& r is Some
                &&& r->0 >= 20
                &&& r->0 >= w
                &&& (w >= 20 ==> r->0 == w)
                &&& (w < 20 ==> r->0 == 20)
            }
        }),
{
}

/// Law: `--config` followed by `remove` asks to remove the configuration,
/// followed by `reset` to reset it, wherever it stands on the command line
/// and whatever was read before it; both consume the value.
pub proof fn law_config_value_selects_its_action(
    args: Seq<Seq<char>>,
    facts: Seq<crate::cli::ArgFacts>,
    i: int,
    o: crate::cli::CliView,
)
    requires
        0 <= i,
        i + 1 < args.len(),
        args[i] == "--config"@,
    ensures
        args[i + 1] == "remove"@ ==> crate::cli::scan_step(args, facts, i, false, o) == crate::cli::Step::Next(
            i + 2,
            false,
            crate::cli::CliView { config: Some(crate::cli::ConfigAction::Remove), ..o },
        ),
        args[i + 1] == "reset"@ ==> crate::cli::scan_step(args, facts, i, false, o) == crate::cli::Step::Next(
            i + 2,
            false,
            crate::cli::CliView { config: Some(crate::cli::ConfigAction::Reset), ..o },
        ),
        crate::cli::ConfigAction::Remove != crate::cli::ConfigAction::Reset,
{
    reveal_strlit("--config");
    reveal_strlit("--picker");
    reveal_strlit("--mermaid-full");
    reveal_strlit("--node-spacing");
    reveal_strlit("--rank-spacing");
    reveal_strlit("--edge-spacing");
    reveal_strlit("--node-spacing=");
    reveal_strlit("--rank-spacing=");
    reveal_strlit("--edge-spacing=");
    reveal_strlit("--fuzzy");
    reveal_strlit("--fuzzy=");
    reveal_strlit("--watch");
    reveal_strlit("-w");
    reveal_strlit("--update");
    reveal_strlit("remove");
    reveal_strlit("reset");
    let a = args[i];
    assert(a.len() == 8);
    assert(a[2] == 'c');
    assert("--fuzzy="@[2] == 'f');
    assert(a.take(8) =~= a);
    assert(!crate::cli::is_spacing_flag(a));
    assert(!crate::cli::has_spacing_prefix(a));
    assert(!crate::text::starts_with_spec(a, "--fuzzy="@));
    assert("--picker"@[2] == 'p');
    assert(a != "--picker"@);
    assert(a != "--mermaid-full"@);
    assert(a != "--fuzzy"@);
    assert(a != "--watch"@);
    assert(a != "-w"@);
    assert(a != "--update"@);
    assert("remove"@.len() == 6 && "reset"@.len() == 5);
    assert("remove"@ != "reset"@);
}


/// A span is marked as a keyword exactly when it is a word (it starts with
/// a letter or `_`) that is a diagram, direction or structure keyword.
pub open spec fn keyword_marked(span: (Seq<char>, crate::mermaid_syntax::MermaidRole)) -> bool {
    (span.1 == crate::mermaid_syntax::MermaidRole::Keyword) <==> (span.0.len() > 0
        && crate::mermaid_syntax::is_word_start(span.0[0]) && crate::mermaid_syntax::keyword(span.0))
}

proof fn lemma_marked_join(
    head: Seq<(Seq<char>, crate::mermaid_syntax::MermaidRole)>,
    tail: Seq<(Seq<char>, crate::mermaid_syntax::MermaidRole)>,
)
    requires
        forall|i: int| 0 <= i < head.len() ==> #[trigger] keyword_marked(head[i]),
        forall|i: int| 0 <= i < tail.len() ==> #[trigger] keyword_marked(tail[i]),
    ensures
        forall|i: int| 0 <= i < (head + tail).len() ==> #[trigger] keyword_marked((head + tail)[i]),
{
    assert forall|i: int| 0 <= i < (head + tail).len() implies #[trigger] keyword_marked((head + tail)[i]) by {
        if i < head.len() {
            assert((head + tail)[i] == head[i]);
        } else {
            assert((head + tail)[i] == tail[i - head.len()]);
        }
    }
}

proof fn lemma_arrow_not_word(s: Seq<char>)
    requires
        crate::mermaid_syntax::arrow_len(s) > 0,
    ensures
        s.len() > 0,
        s[0] == '-' || s[0] == '=',
        crate::mermaid_syntax::arrow_len(s) <= s.len(),
{
    let n = crate::mermaid_syntax::arrow_len(s) as int;
    assert(s.take(n)[0] == s[0]);
}

proof fn lemma_tokenize_marks_keywords(s: Seq<char>)
    ensures
        forall|i: int|
            0 <= i < crate::mermaid_syntax::tokenize(s).len() ==> #[trigger] keyword_marked(
                crate::mermaid_syntax::tokenize(s)[i],
            ),
    decreases s.len(),
{
    let t = crate::mermaid_syntax::tokenize(s);
    if s.len() == 0 {
        return;
    }
    crate::mermaid_syntax::lemma_word_len(s);
    crate::mermaid_syntax::lemma_other_len(s);
    if crate::mermaid_syntax::arrow_len(s) > 0 {
        lemma_arrow_not_word(s);
        let n = crate::mermaid_syntax::arrow_len(s) as int;
        let head = seq![(s.take(n), crate::mermaid_syntax::MermaidRole::Arrow)];
        assert(s.take(n)[0] == s[0]);
        lemma_tokenize_marks_keywords(s.skip(n));
        assert(keyword_marked(head[0]));
        lemma_marked_join(head, crate::mermaid_syntax::tokenize(s.skip(n)));
        assert(t =~= head + crate::mermaid_syntax::tokenize(s.skip(n)));
    } else if crate::mermaid_syntax::is_word_start(s[0]) {
        let n = crate::mermaid_syntax::word_len(s) as int;
        assert(n >= 1);
        let w = s.take(n);
        assert(w[0] == s[0]);
        let head = seq![(w, if crate::mermaid_syntax::keyword(w) {
            crate::mermaid_syntax::MermaidRole::Keyword
        } else {
            crate::mermaid_syntax::MermaidRole::Plain
        })];
        lemma_tokenize_marks_keywords(s.skip(n));
        assert(keyword_marked(head[0]));
        lemma_marked_join(head, crate::mermaid_syntax::tokenize(s.skip(n)));
        assert(t =~= head + crate::mermaid_syntax::tokenize(s.skip(n)));
    } else {
        let n = crate::mermaid_syntax::other_len(s) as int;
        if n > 0 {
            let head = seq![(s.take(n), crate::mermaid_syntax::MermaidRole::Plain)];
            assert(s.take(n)[0] == s[0]);
            lemma_tokenize_marks_keywords(s.skip(n));
            assert(keyword_marked(head[0]));
            lemma_marked_join(head, crate::mermaid_syntax::tokenize(s.skip(n)));
            assert(t =~= head + crate::mermaid_syntax::tokenize(s.skip(n)));
        }
    }
}

proof fn lemma_colorize_rest_marks_keywords(rest: Seq<char>)
    ensures
        forall|i: int|
            0 <= i < crate::mermaid_syntax::colorize_rest(rest).len() ==> #[trigger] keyword_marked(
                crate::mermaid_syntax::colorize_rest(rest)[i],
            ),
        rest.len() > 0 && crate::mermaid_syntax::is_word_start(rest[0]) ==> crate::mermaid_syntax::colorize_rest(
            rest,
        ).len() > 0,
    decreases rest.len(),
{
    if rest.len() == 0 {
        return;
    }
    let pos = crate::mermaid_syntax::pipe_at(rest);
    lemma_first_where(rest.len() as int, crate::mermaid_syntax::is_pipe(rest));
    if pos >= 0 {
        let before = rest.take(pos);
        lemma_tokenize_marks_keywords(before);
        let after = rest.skip(pos + 1);
        let end = crate::mermaid_syntax::pipe_at(after);
        lemma_first_where(after.len() as int, crate::mermaid_syntax::is_pipe(after));
        if end >= 0 {
            let text = seq!['|'] + after.take(end) + seq!['|'];
            let label = seq![(text, crate::mermaid_syntax::MermaidRole::Label)];
            assert(text[0] == '|');
            assert(keyword_marked(label[0]));
            let more = after.skip(end + 1);
            lemma_colorize_rest_marks_keywords(more);
            lemma_marked_join(crate::mermaid_syntax::tokenize(before), label);
            lemma_marked_join(crate::mermaid_syntax::tokenize(before) + label, crate::mermaid_syntax::colorize_rest(more));
        } else {
            let bar = seq![(seq!['|'], crate::mermaid_syntax::MermaidRole::Plain)];
            assert(keyword_marked(bar[0]));
            lemma_colorize_rest_marks_keywords(after);
            lemma_marked_join(crate::mermaid_syntax::tokenize(before), bar);
            lemma_marked_join(crate::mermaid_syntax::tokenize(before) + bar, crate::mermaid_syntax::colorize_rest(after));
        }
    } else {
        lemma_tokenize_marks_keywords(rest);
        if crate::mermaid_syntax::is_word_start(rest[0]) {
            if crate::mermaid_syntax::arrow_len(rest) > 0 {
                lemma_arrow_not_word(rest);
            }
            crate::mermaid_syntax::lemma_word_len(rest);
            assert(crate::mermaid_syntax::tokenize(rest).len() > 0);
        }
    }
}

/// Law: in the highlighted spans of any Mermaid line, a span is a keyword
/// exactly when it is a word that is a diagram keyword (`flowchart`,
/// `sequenceDiagram`, ...), a direction (`TD`, `LR`, ...) or a structure
/// keyword (`subgraph`, `end`, `participant`, `loop`, ...); every other
/// word, arrow, label or run of other characters is not.
pub proof fn law_mermaid_keywords_are_marked(line: Seq<char>)
    ensures
        forall|i: int|
            0 <= i < crate::mermaid_syntax::colorize_spec(line).len() ==> #[trigger] keyword_marked(
                crate::mermaid_syntax::colorize_spec(line)[i],
            ),
        forall|i: int|
            0 <= i < crate::mermaid_syntax::colorize_spec(line).len() && crate::mermaid_syntax::structure_keyword(
                #[trigger] crate::mermaid_syntax::colorize_spec(line)[i].0,
            ) ==> crate::mermaid_syntax::colorize_spec(line)[i].1 == crate::mermaid_syntax::MermaidRole::Keyword,
{
    lemma_colorize_rest_marks_keywords(line);
    let spans = crate::mermaid_syntax::colorize_spec(line);
    if crate::mermaid_syntax::colorize_rest(line).len() == 0 {
        assert(keyword_marked(spans[0]));
    }
    assert forall|i: int|
        0 <= i < spans.len() && crate::mermaid_syntax::structure_keyword(#[trigger] spans[i].0) implies spans[i].1
        == crate::mermaid_syntax::MermaidRole::Keyword by {
        assert(keyword_marked(spans[i]));
        reveal_strlit("subgraph");
        reveal_strlit("end");
        reveal_strlit("section");
        reveal_strlit("title");
        reveal_strlit("participant");
        reveal_strlit("actor");
        reveal_strlit("loop");
        reveal_strlit("alt");
        reveal_strlit("else");
        reveal_strlit("opt");
        reveal_strlit("par");
        reveal_strlit("critical");
        reveal_strlit("break");
        reveal_strlit("rect");
        reveal_strlit("note");
        reveal_strlit("activate");
        reveal_strlit("deactivate");
        reveal_strlit("class");
        reveal_strlit("state");
        reveal_strlit("dateFormat");
        reveal_strlit("axisFormat");
        reveal_strlit("style");
        reveal_strlit("classDef");
        reveal_strlit("click");
    }
}

proof fn lemma_matching_members(catalog: Seq<crate::diagram_model::CatalogObject>, query: Seq<char>)
    requires
        catalog.len() <= usize::MAX,
    ensures
        forall|k: int|
            0 <= k < catalog.len() ==> (#[trigger] crate::diagrams::matching_indices(catalog, query).contains(
                k as usize,
            ) <==> crate::diagrams::entry_matches(catalog[k], query)),
    decreases catalog.len(),
{
    if catalog.len() > 0 {
        let rest = crate::diagrams::matching_indices(catalog.drop_last(), query);
        lemma_matching_members(catalog.drop_last(), query);
        crate::diagram_search::lemma_matching_indices(catalog.drop_last(), query);
        let ms = crate::diagrams::matching_indices(catalog, query);
        let last = (catalog.len() - 1) as usize;
        assert forall|k: int| 0 <= k < catalog.len() implies (#[trigger] ms.contains(k as usize)
            <==> crate::diagrams::entry_matches(catalog[k], query)) by {
            if k < catalog.len() - 1 {
                assert(catalog.drop_last()[k] == catalog[k]);
                if crate::diagrams::entry_matches(catalog.last(), query) {
                    assert(ms == rest.push(last));
                    if ms.contains(k as usize) {
                        let j = choose|j: int| 0 <= j < ms.len() && ms[j] == k as usize;
                        if j < rest.len() {
                            assert(rest[j] == k as usize);
                        }
                    }
                    if rest.contains(k as usize) {
                        let j = choose|j: int| 0 <= j < rest.len() && rest[j] == k as usize;
                        assert(ms[j] == k as usize);
                    }
                }
            } else {
                if crate::diagrams::entry_matches(catalog.last(), query) {
                    assert(ms[rest.len() as int] == last);
                } else {
                    if ms.contains(k as usize) {
                        let j = choose|j: int| 0 <= j < ms.len() && ms[j] == k as usize;
                        assert(rest[j] < catalog.drop_last().len());
                    }
                }
            }
        }
    }
}

/// The text a search holds (empty when there is none).
pub open spec fn search_text(search: Option<String>) -> Seq<char> {
    match search {
        Some(q) => q@,
        None => seq![],
    }
}

/// Law: the viewer's search ignores case. Catalog entry `k` is among the
/// matches exactly when the lowercase identifier or the lowercase label
/// contains the lowercase query; two queries with the same lowercase form
/// find the same entries.
pub proof fn law_diagram_search_ignores_case(
    catalog: Seq<crate::diagram_model::CatalogObject>,
    search: Option<String>,
    other: Option<String>,
)
    requires
        catalog.len() <= usize::MAX,
    ensures
        forall|k: int|
            0 <= k < catalog.len() ==> (#[trigger] crate::diagrams::matching_indices(
                catalog,
                crate::diagrams::query_of(search),
            ).contains(k as usize) <==> (crate::text::contains_spec(
                crate::text::unicode_lowercase(catalog[k].id.id@),
                crate::text::unicode_lowercase(search_text(search)),
            ) || crate::text::contains_spec(
                crate::text::unicode_lowercase(catalog[k].label@),
                crate::text::unicode_lowercase(search_text(search)),
            ))),
        crate::text::unicode_lowercase(search_text(search)) == crate::text::unicode_lowercase(search_text(other))
            ==> crate::diagrams::matching_indices(catalog, crate::diagrams::query_of(search))
            == crate::diagrams::matching_indices(catalog, crate::diagrams::query_of(other)),
{
    lemma_matching_members(catalog, crate::diagrams::query_of(search));
}

} // verus!
