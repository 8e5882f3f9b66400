//! The notes section at the end of a document: a rule, the `Notes`
//! heading, then each defined footnote in numbering order, its first line
//! after its superscript number and the others indented, and the Mermaid
//! diagrams it held drawn in place as framed blocks. Rows of a note are
//! wrapped by display cells to the space left after the marker.
use vstd::prelude::*;
use crate::diagrams::DiagramBlockInfo;
use crate::document::{rule_width, spec_rule_width, BlockLayout, CodeBlockInfo, LineMapState};
use crate::footnotes::{note_marker, note_order_spec, note_prefix, notes_heading, FootnoteNumbers, NOTES_TITLE};
use crate::line_maps::{is_empty_line_spec, line_plain_text, line_view, lines_view, plain_text};
use crate::mermaid_block::{block_lines_spec, framed_block_lines, repeat_char, repeated};
use crate::plain_output::{wrap_line, wrap_rows};
use crate::preview::{add_sat, sat_sub, MermaidPreview};
use crate::preview_cache::{MermaidCache, PreviewEntry};
use crate::text::{byte_len, display_width, string_byte_len, strings_view, unicode_width_of};
use crate::width::{sat_add, spaces};

verus! {

/// A Mermaid block met inside a footnote definition, drawn when the notes
/// are written: its source, source line, the definition line it replaces
/// and the prefix spans (quote markers) it sat behind.
#[derive(Debug)]
pub struct DeferredDiagram {
    pub source: String,
    pub source_line: usize,
    pub placeholder: usize,
    pub prefix: Vec<String>,
}

/// A captured footnote definition: its rendered lines (as span texts), the
/// link targets and deferred diagrams they hold.
#[derive(Debug)]
pub struct NoteDefinition {
    pub label: String,
    pub source_line: usize,
    pub lines: Vec<Vec<String>>,
    pub link_urls: Vec<String>,
    pub diagrams: Vec<DeferredDiagram>,
}

/// Footnote numbering and the captured definitions.
#[derive(Debug)]
pub struct FootnotesBuf {
    pub numbers: FootnoteNumbers,
    pub definitions: Vec<NoteDefinition>,
}

/// The rendered document so far: its lines as span texts, the line maps,
/// link targets, code blocks and diagram blocks.
#[derive(Debug)]
pub struct DocumentLines {
    pub lines: Vec<Vec<String>>,
    pub map: LineMapState,
    pub link_urls: Vec<String>,
    pub code_blocks: Vec<CodeBlockInfo>,
    pub diagrams: Vec<DiagramBlockInfo>,
}

/// Shown in place of a preview for a source beyond the input limit.
pub const SOURCE_OVER_LIMIT: &'static str = "Mermaid source exceeds the input limit; source remains copyable";

impl DocumentLines {
    /// The line maps cover every line.
    pub open spec fn wf(&self) -> bool {
        &&& self.map.wf()
        &&& self.map.line_number_map@.len() == self.lines@.len()
    }
}

/// Everything the notes are written with.
pub struct NotesContext<'a> {
    pub render_width: usize,
    pub code_line_numbers: bool,
    /// Whether diagrams are exported whole.
    pub complete: bool,
    /// The layout spacing as shown.
    pub spacing: &'a str,
    pub previews: &'a MermaidCache,
    pub max_source_bytes: usize,
}

/// Number of lines left after dropping trailing empty lines.
pub open spec fn trimmed_len(lines: Seq<Seq<Seq<char>>>) -> int
    decreases lines.len(),
{
    if lines.len() > 0 && is_empty_line_spec(lines.last()) {
        trimmed_len(lines.drop_last())
    } else {
        lines.len() as int
    }
}

/// The cached result for `source`, from the first entry that holds it.
pub open spec fn cache_lookup(es: Seq<PreviewEntry>, source: Seq<char>) -> Option<Result<MermaidPreview, String>>
    decreases es.len(),
{
    if es.len() == 0 {
        None
    } else if es[0].source@ == source {
        Some(es[0].result)
    } else {
        cache_lookup(es.drop_first(), source)
    }
}

/// The preview and the error a deferred diagram is drawn with.
pub open spec fn diagram_inputs(source: Seq<char>, es: Seq<PreviewEntry>, max: usize) -> (Option<MermaidPreview>, Option<Seq<char>>) {
    if byte_len(source) > max {
        (None, Some(SOURCE_OVER_LIMIT@))
    } else {
        match cache_lookup(es, source) {
            Some(Ok(p)) => (Some(p), None),
            Some(Err(e)) => (None, Some(e@)),
            None => (None, None),
        }
    }
}

/// Total display width of some spans.
pub open spec fn spans_width(spans: Seq<Seq<char>>) -> int
    decreases spans.len(),
{
    if spans.len() == 0 {
        0
    } else {
        spans_width(spans.drop_last()) + unicode_width_of(spans.last())
    }
}

pub type Row = (Seq<Seq<char>>, usize);

/// The text lines of a deferred diagram behind a marker `mw` cells wide.
pub open spec fn deferred_block(
    d: DeferredDiagram,
    mw: usize,
    render_width: usize,
    complete: bool,
    cln: bool,
    spacing: Seq<char>,
    es: Seq<PreviewEntry>,
    max: usize,
) -> Seq<Seq<char>> {
    let nested = spans_width(strings_view(d.prefix@));
    let available = if mw + nested <= render_width { (render_width - mw - nested) as usize } else { 0usize };
    let (ready, err) = diagram_inputs(d.source@, es, max);
    block_lines_spec(d.source@, ready, err, 0, available, complete, cln, true, spacing)
}

/// The lines a deferred diagram becomes inside a note.
pub open spec fn deferred_rows(
    dd: DeferredDiagram,
    first: bool,
    marker: Seq<char>,
    mw: usize,
    render_width: usize,
    complete: bool,
    cln: bool,
    spacing: Seq<char>,
    es: Seq<PreviewEntry>,
    max: usize,
) -> Seq<Row> {
    let block = deferred_block(dd, mw, render_width, complete, cln, spacing, es, max);
    Seq::new(
        block.len(),
        |k: int| (seq![if first && k == 0 { marker } else { spaces(mw as nat) }] + strings_view(dd.prefix@) + seq![block[k]], dd.source_line),
    )
}

/// The rows a definition line becomes: wrapped behind the marker (the
/// note's first line) or the indent; an empty line stays one empty line.
pub open spec fn body_rows(line: Seq<Seq<char>>, first: bool, marker: Seq<char>, mw: usize, render_width: usize, src: usize) -> Seq<Row> {
    let rows = wrap_line(plain_text(line), sat_sub(render_width, mw));
    let indent = spaces(mw as nat);
    if first {
        Seq::new(rows.len(), |k: int| (seq![if k == 0 { marker } else { indent }, rows[k]], src))
    } else if line.len() == 0 {
        seq![(seq![""@], src)]
    } else {
        Seq::new(rows.len(), |k: int| (seq![if k == 0 { indent } else { indent }, rows[k]], src))
    }
}

/// A note's rendered lines with their source lines, from definition line
/// `i` on; `first` says whether the marker is still owed, `di` which
/// deferred diagram comes next.
#[verifier::opaque]
pub open spec fn note_rows(
    d: NoteDefinition,
    marker: Seq<char>,
    mw: usize,
    render_width: usize,
    complete: bool,
    cln: bool,
    spacing: Seq<char>,
    es: Seq<PreviewEntry>,
    max: usize,
    i: int,
    first: bool,
    di: int,
) -> Seq<Row>
    decreases trimmed_len(lines_view(d.lines@)) - i,
{
    let lines = lines_view(d.lines@);
    if i < 0 || i >= trimmed_len(lines) {
        seq![]
    } else if 0 <= di < d.diagrams@.len() && d.diagrams@[di].placeholder == i {
        let dd = d.diagrams@[di];
        let here = deferred_rows(dd, first, marker, mw, render_width, complete, cln, spacing, es, max);
        here + note_rows(d, marker, mw, render_width, complete, cln, spacing, es, max, i + 1, first && here.len() == 0, di + 1)
    } else {
        body_rows(lines[i], first, marker, mw, render_width, d.source_line)
            + note_rows(d, marker, mw, render_width, complete, cln, spacing, es, max, i + 1, false, di)
    }
}

proof fn lemma_note_rows_step(
    d: NoteDefinition,
    marker: Seq<char>,
    mw: usize,
    render_width: usize,
    complete: bool,
    cln: bool,
    spacing: Seq<char>,
    es: Seq<PreviewEntry>,
    max: usize,
    i: int,
    first: bool,
    di: int,
)
    requires
        0 <= i < trimmed_len(lines_view(d.lines@)),
    ensures
        (0 <= di < d.diagrams@.len() && d.diagrams@[di].placeholder == i) ==> {
            let here = deferred_rows(d.diagrams@[di], first, marker, mw, render_width, complete, cln, spacing, es, max);
            note_rows(d, marker, mw, render_width, complete, cln, spacing, es, max, i, first, di) == here + note_rows(
                d, marker, mw, render_width, complete, cln, spacing, es, max, i + 1, first && here.len() == 0, di + 1)
        },
        !(0 <= di < d.diagrams@.len() && d.diagrams@[di].placeholder == i) ==> note_rows(
            d, marker, mw, render_width, complete, cln, spacing, es, max, i, first, di,
        ) == body_rows(lines_view(d.lines@)[i], first, marker, mw, render_width, d.source_line) + note_rows(
            d, marker, mw, render_width, complete, cln, spacing, es, max, i + 1, false, di),
{
    reveal(note_rows);
}

proof fn lemma_note_rows_end(
    d: NoteDefinition,
    marker: Seq<char>,
    mw: usize,
    render_width: usize,
    complete: bool,
    cln: bool,
    spacing: Seq<char>,
    es: Seq<PreviewEntry>,
    max: usize,
    i: int,
    first: bool,
    di: int,
)
    requires
        i >= trimmed_len(lines_view(d.lines@)),
    ensures
        note_rows(d, marker, mw, render_width, complete, cln, spacing, es, max, i, first, di) == Seq::<Row>::empty(),
{
    reveal(note_rows);
}

/// The first definition of `label`, or -1.
pub open spec fn def_index(defs: Seq<NoteDefinition>, label: Seq<char>) -> int
    decreases defs.len(),
{
    if defs.len() == 0 {
        -1
    } else {
        let k = def_index(defs.drop_last(), label);
        if k >= 0 {
            k
        } else if defs.last().label@ == label {
            defs.len() - 1
        } else {
            -1
        }
    }
}


pub open spec fn texts(rows: Seq<Row>) -> Seq<Seq<Seq<char>>> {
    rows.map_values(|r: Row| r.0)
}

pub open spec fn sources(rows: Seq<Row>) -> Seq<usize> {
    rows.map_values(|r: Row| r.1)
}

/// The notes in `order` from position `k` (numbered `k + 1` on), with
/// their source lines, and the source line current afterwards.
pub open spec fn notes_rows(
    defs: Seq<NoteDefinition>,
    order: Seq<Seq<char>>,
    k: int,
    render_width: usize,
    complete: bool,
    cln: bool,
    spacing: Seq<char>,
    es: Seq<PreviewEntry>,
    max: usize,
    src: usize,
) -> (Seq<Row>, usize)
    decreases order.len() - k,
{
    if k < 0 || k >= order.len() {
        (seq![], src)
    } else {
        let j = def_index(defs, order[k]);
        if j < 0 {
            notes_rows(defs, order, k + 1, render_width, complete, cln, spacing, es, max, src)
        } else {
            let d = defs[j];
            let marker = note_marker((k + 1) as usize);
            let here = note_rows(d, marker, unicode_width_of(marker), render_width, complete, cln, spacing, es, max, 0, true, 0);
            let rest = notes_rows(defs, order, k + 1, render_width, complete, cln, spacing, es, max, d.source_line);
            (here + rest.0, rest.1)
        }
    }
}

/// The link targets of the notes in `order` from position `k`.
pub open spec fn notes_urls(defs: Seq<NoteDefinition>, order: Seq<Seq<char>>, k: int) -> Seq<Seq<char>>
    decreases order.len() - k,
{
    if k < 0 || k >= order.len() {
        seq![]
    } else {
        let j = def_index(defs, order[k]);
        let rest = notes_urls(defs, order, k + 1);
        if j < 0 { rest } else { strings_view(defs[j].link_urls@) + rest }
    }
}

/// The whole notes section with its source lines: the rule and a blank
/// line, the heading and its underline, the notes, and a closing blank
/// line; and the source line current afterwards.
pub open spec fn section_rows(
    buf: FootnotesBuf,
    ctx_width: usize,
    complete: bool,
    cln: bool,
    spacing: Seq<char>,
    es: Seq<PreviewEntry>,
    max: usize,
    src: usize,
) -> (Seq<Row>, usize) {
    let order = note_order_spec(strings_view(buf.numbers.refs_order@), strings_view(buf.numbers.defs_order@));
    let notes = notes_rows(buf.definitions@, order, 0, ctx_width, complete, cln, spacing, es, max, src);
    let head = seq![
        (seq![repeated('─', spec_rule_width(ctx_width, 0) as nat)], src),
        (seq![""@], src),
        (seq![NOTES_TITLE@], src),
        (seq![repeated('─', unicode_width_of(NOTES_TITLE@) as nat)], src),
    ];
    (head + notes.0 + seq![(seq![""@], notes.1)], notes.1)
}

/// Each new diagram block of `b` beyond `a` is recorded with its code
/// block, and both lie within the lines.
pub open spec fn blocks_recorded(a: DocumentLines, b: DocumentLines) -> bool {
    &&& b.diagrams@.len() >= a.diagrams@.len()
    &&& b.code_blocks@.len() - b.diagrams@.len() == a.code_blocks@.len() - a.diagrams@.len()
    &&& b.diagrams@.take(a.diagrams@.len() as int) == a.diagrams@
    &&& b.code_blocks@.take(a.code_blocks@.len() as int) == a.code_blocks@
    &&& forall|k: int|
        a.diagrams@.len() <= k < b.diagrams@.len() ==> {
            let dg = #[trigger] b.diagrams@[k];
            &&& dg.ordinal == k
            &&& dg.code_block_index == k - a.diagrams@.len() + a.code_blocks@.len()
            &&& b.code_blocks@[dg.code_block_index as int].raw_content == dg.source
            &&& b.code_blocks@[dg.code_block_index as int].rendered_start == dg.rendered_start
            &&& b.code_blocks@[dg.code_block_index as int].rendered_end == dg.rendered_end
            &&& a.lines@.len() <= dg.rendered_start <= dg.rendered_end < b.lines@.len()
        }
}

/// `b` is `a` with `rows` appended: lines, their source lines, covered by
/// the maps; link targets unchanged.
pub open spec fn appended(a: DocumentLines, b: DocumentLines, rows: Seq<Row>) -> bool {
    &&& b.wf()
    &&& b.lines@.len() == a.lines@.len() + rows.len()
    &&& b.map.line_number_map@.len() >= a.map.line_number_map@.len()
    &&& lines_view(b.lines@) == lines_view(a.lines@) + texts(rows)
    &&& b.map.source_line_map@ == a.map.source_line_map@ + sources(rows)
    &&& b.map.line_number_map@.take(a.map.line_number_map@.len() as int) == a.map.line_number_map@
    &&& b.map.logical >= a.map.logical
}

proof fn lemma_rows_push(rows: Seq<Row>, r: Row)
    ensures
        texts(rows.push(r)) == texts(rows).push(r.0),
        sources(rows.push(r)) == sources(rows).push(r.1),
{
    assert(texts(rows.push(r)) =~= texts(rows).push(r.0));
    assert(sources(rows.push(r)) =~= sources(rows).push(r.1));
}

proof fn lemma_rows_concat(a: Seq<Row>, b: Seq<Row>)
    ensures
        texts(a + b) == texts(a) + texts(b),
        sources(a + b) == sources(a) + sources(b),
{
    assert(texts(a + b) =~= texts(a) + texts(b));
    assert(sources(a + b) =~= sources(a) + sources(b));
}

impl DocumentLines {
    /// Appends one line from source line `src`, counted as a new logical
    /// line (the count stops at its largest value).
    fn emit(&mut self, line: Vec<String>, src: usize)
        requires
            old(self).wf(),
        ensures
            appended(*old(self), *final(self), seq![(line_view(line), src)]),
            final(self).map.current_src_line == src,
            final(self).link_urls == old(self).link_urls,
            final(self).code_blocks == old(self).code_blocks,
            final(self).diagrams == old(self).diagrams,
    {
        let ghost before = *self;
        self.lines.push(line);
        self.map.current_src_line = src;
        let new_line = self.map.logical < usize::MAX;
        self.map.push(new_line);
        proof {
            assert(lines_view(self.lines@) =~= lines_view(before.lines@) + texts(seq![(line_view(line), src)]));
            assert(self.map.source_line_map@ =~= before.map.source_line_map@ + sources(seq![(line_view(line), src)]));
            assert(self.map.line_number_map@.take(before.map.line_number_map@.len() as int) =~= before.map.line_number_map@);
        }
    }
}

proof fn lemma_appended_trans(a: DocumentLines, b: DocumentLines, c: DocumentLines, r1: Seq<Row>, r2: Seq<Row>)
    requires
        appended(a, b, r1),
        appended(b, c, r2),
    ensures
        appended(a, c, r1 + r2),
{
    lemma_rows_concat(r1, r2);
    assert(lines_view(c.lines@) =~= lines_view(a.lines@) + texts(r1 + r2));
    assert(c.map.source_line_map@ =~= a.map.source_line_map@ + sources(r1 + r2));
    assert(c.map.line_number_map@.take(a.map.line_number_map@.len() as int) =~= a.map.line_number_map@) by {
        assert(b.map.line_number_map@.len() >= a.map.line_number_map@.len());
        assert forall|i: int| 0 <= i < a.map.line_number_map@.len() implies c.map.line_number_map@[i]
            == a.map.line_number_map@[i] by {
            assert(c.map.line_number_map@.take(b.map.line_number_map@.len() as int)[i] == b.map.line_number_map@[i]);
            assert(b.map.line_number_map@.take(a.map.line_number_map@.len() as int)[i] == a.map.line_number_map@[i]);
        }
    }
}

proof fn lemma_appended_nothing(a: DocumentLines)
    requires
        a.wf(),
    ensures
        appended(a, a, seq![]),
{
    assert(lines_view(a.lines@) =~= lines_view(a.lines@) + texts(seq![]));
    assert(a.map.source_line_map@ =~= a.map.source_line_map@ + sources(seq![]));
    assert(a.map.line_number_map@.take(a.map.line_number_map@.len() as int) =~= a.map.line_number_map@);
}

proof fn lemma_blocks_trans(a: DocumentLines, b: DocumentLines, c: DocumentLines)
    requires
        blocks_recorded(a, b),
        blocks_recorded(b, c),
        b.lines@.len() >= a.lines@.len(),
        c.lines@.len() >= b.lines@.len(),
    ensures
        blocks_recorded(a, c),
{
    assert(c.diagrams@.take(a.diagrams@.len() as int) =~= a.diagrams@) by {
        assert forall|i: int| 0 <= i < a.diagrams@.len() implies c.diagrams@[i] == a.diagrams@[i] by {
            assert(c.diagrams@.take(b.diagrams@.len() as int)[i] == b.diagrams@[i]);
            assert(b.diagrams@.take(a.diagrams@.len() as int)[i] == a.diagrams@[i]);
        }
    }
    assert(c.code_blocks@.take(a.code_blocks@.len() as int) =~= a.code_blocks@) by {
        assert forall|i: int| 0 <= i < a.code_blocks@.len() implies c.code_blocks@[i] == a.code_blocks@[i] by {
            assert(c.code_blocks@.take(b.code_blocks@.len() as int)[i] == b.code_blocks@[i]);
            assert(b.code_blocks@.take(a.code_blocks@.len() as int)[i] == a.code_blocks@[i]);
        }
    }
    assert forall|k: int| a.diagrams@.len() <= k < c.diagrams@.len() implies {
        let dg = #[trigger] c.diagrams@[k];
        &&& dg.ordinal == k
        &&& dg.code_block_index == k - a.diagrams@.len() + a.code_blocks@.len()
        &&& c.code_blocks@[dg.code_block_index as int].raw_content == dg.source
        &&& c.code_blocks@[dg.code_block_index as int].rendered_start == dg.rendered_start
        &&& c.code_blocks@[dg.code_block_index as int].rendered_end == dg.rendered_end
        &&& a.lines@.len() <= dg.rendered_start <= dg.rendered_end < c.lines@.len()
    } by {
        if k < b.diagrams@.len() {
            assert(c.diagrams@.take(b.diagrams@.len() as int)[k] == b.diagrams@[k]);
            let dg = b.diagrams@[k];
            assert(c.code_blocks@.take(b.code_blocks@.len() as int)[dg.code_block_index as int]
                == b.code_blocks@[dg.code_block_index as int]);
        }
    }
}

proof fn lemma_blocks_same(a: DocumentLines)
    ensures
        blocks_recorded(a, a),
{
    assert(a.diagrams@.take(a.diagrams@.len() as int) =~= a.diagrams@);
    assert(a.code_blocks@.take(a.code_blocks@.len() as int) =~= a.code_blocks@);
}

/// Display width of a list of spans.
fn spans_display_width(spans: &Vec<String>) -> (r: usize)
    ensures
        r as int == spans_width(strings_view(spans@)) || (r == usize::MAX && spans_width(strings_view(spans@)) >= usize::MAX),
{
    let ghost v = strings_view(spans@);
    let mut total: usize = 0;
    let mut i: usize = 0;
    while i < spans.len()
        invariant
            v == strings_view(spans@),
            i <= spans@.len(),
            total as int == spans_width(v.take(i as int)) || (total == usize::MAX && spans_width(v.take(i as int)) >= usize::MAX),
        decreases spans@.len() - i,
    {
        assert(v.take(i + 1).drop_last() =~= v.take(i as int));
        let w = display_width(spans[i].as_str());
        total = add_sat(total, w);
        i = i + 1;
    }
    assert(v.take(spans@.len() as int) =~= v);
    total
}

/// The cached result for `source`.
fn lookup<'a>(es: &'a Vec<PreviewEntry>, source: &String) -> (r: Option<&'a Result<MermaidPreview, String>>)
    ensures
        match cache_lookup(es@, source@) {
            Some(x) => r == Some(&x),
            None => r is None,
        },
{
    let mut i: usize = 0;
    assert(es@.skip(0) =~= es@);
    while i < es.len()
        invariant
            i <= es@.len(),
            cache_lookup(es@, source@) == cache_lookup(es@.skip(i as int), source@),
        decreases es@.len() - i,
    {
        assert(es@.skip(i as int).drop_first() =~= es@.skip(i + 1));
        assert(es@.skip(i as int)[0] == es@[i as int]);
        if es[i].source == *source {
            return Some(&es[i].result);
        }
        i = i + 1;
    }
    None
}

fn line_is_blank(l: &Vec<String>) -> (r: bool)
    ensures
        r == is_empty_line_spec(line_view(*l)),
{
    l.len() == 0 || (l.len() == 1 && l[0].as_str().unicode_len() == 0)
}

proof fn lemma_trimmed_le(lines: Seq<Seq<Seq<char>>>)
    ensures
        0 <= trimmed_len(lines) <= lines.len(),
    decreases lines.len(),
{
    if lines.len() > 0 && is_empty_line_spec(lines.last()) {
        lemma_trimmed_le(lines.drop_last());
    }
}

/// Number of definition lines left after dropping trailing empty ones.
fn trimmed_count(lines: &Vec<Vec<String>>) -> (r: usize)
    ensures
        r as int == trimmed_len(lines_view(lines@)),
{
    let ghost lv = lines_view(lines@);
    let mut n = lines.len();
    assert(lv.take(n as int) =~= lv);
    while n > 0 && line_is_blank(&lines[n - 1])
        invariant
            lv == lines_view(lines@),
            n <= lines@.len(),
            trimmed_len(lv) == trimmed_len(lv.take(n as int)),
        decreases n,
    {
        assert(lv.take(n as int).last() == line_view(lines@[n - 1]));
        assert(lv.take(n as int).drop_last() =~= lv.take(n - 1));
        n = n - 1;
    }
    proof {
        if n > 0 {
            assert(lv.take(n as int).last() == line_view(lines@[n - 1]));
        }
    }
    n
}

fn sub_or_zero(a: usize, b: usize) -> (r: usize)
    ensures
        r == sat_sub(a, b),
{
    if a >= b { a - b } else { 0 }
}

/// The line of a deferred diagram: marker or indent, the quote prefix, the
/// block line.
fn diagram_line(lead: &String, prefix: &Vec<String>, text: &String) -> (r: Vec<String>)
    ensures
        line_view(r) == seq![lead@] + strings_view(prefix@) + seq![text@],
{
    let mut out: Vec<String> = Vec::new();
    out.push(lead.clone());
    let mut i: usize = 0;
    while i < prefix.len()
        invariant
            i <= prefix@.len(),
            line_view(out) == seq![lead@] + strings_view(prefix@).take(i as int),
        decreases prefix@.len() - i,
    {
        let ghost prev = out@;
        out.push(prefix[i].clone());
        assert(out@ == prev.push(prefix@[i as int]));
        assert(strings_view(out@) =~= strings_view(prev).push(prefix@[i as int]@));
        assert(strings_view(prefix@).take(i + 1) =~= strings_view(prefix@).take(i as int).push(prefix@[i as int]@));
        assert(line_view(out) =~= seq![lead@] + strings_view(prefix@).take(i + 1));
        i = i + 1;
    }
    let ghost prev = out@;
    out.push(text.clone());
    assert(out@ == prev.push(*text));
    assert(strings_view(out@) =~= strings_view(prev).push(text@));
    assert(strings_view(prefix@).take(prefix@.len() as int) =~= strings_view(prefix@));
    assert(line_view(out) =~= seq![lead@] + strings_view(prefix@) + seq![text@]);
    out
}

fn two_spans(a: &String, b: &String) -> (r: Vec<String>)
    ensures
        line_view(r) == seq![a@, b@],
{
    let mut out: Vec<String> = Vec::new();
    out.push(a.clone());
    out.push(b.clone());
    assert(line_view(out) =~= seq![a@, b@]);
    out
}

fn one_span(a: String) -> (r: Vec<String>)
    ensures
        line_view(r) == seq![a@],
{
    let mut out: Vec<String> = Vec::new();
    out.push(a);
    assert(line_view(out) =~= seq![a@]);
    out
}

impl DocumentLines {
    /// Appends rows, each behind `first_lead` (the first) or `lead`.
    fn emit_rows(&mut self, first_lead: &String, lead: &String, rows: &Vec<String>, src: usize)
        requires
            old(self).wf(),
        ensures
            appended(
                *old(self),
                *final(self),
                Seq::new(
                    rows@.len(),
                    |k: int| (seq![if k == 0 { first_lead@ } else { lead@ }, rows@[k]@], src),
                ),
            ),
            final(self).link_urls == old(self).link_urls,
            final(self).code_blocks == old(self).code_blocks,
            final(self).diagrams == old(self).diagrams,
    {
        let ghost start = *self;
        let ghost want = Seq::new(
            rows@.len(),
            |k: int| (seq![if k == 0 { first_lead@ } else { lead@ }, rows@[k]@], src),
        );
        proof {
            lemma_appended_nothing(start);
            assert(want.take(0) =~= Seq::<Row>::empty());
        }
        let mut k: usize = 0;
        while k < rows.len()
            invariant
                k <= rows@.len(),
                want == Seq::new(rows@.len(), |k: int| (seq![if k == 0 { first_lead@ } else { lead@ }, rows@[k]@], src)),
                appended(start, *self, want.take(k as int)),
                self.link_urls == start.link_urls,
                self.code_blocks == start.code_blocks,
                self.diagrams == start.diagrams,
            decreases rows@.len() - k,
        {
            let line = two_spans(if k == 0 { first_lead } else { lead }, &rows[k]);
            let ghost mid = *self;
            self.emit(line, src);
            proof {
                lemma_appended_trans(start, mid, *self, want.take(k as int), seq![(line_view(line), src)]);
                assert(want.take(k as int) + seq![(line_view(line), src)] =~= want.take(k + 1));
            }
            k = k + 1;
        }
        assert(want.take(rows@.len() as int) =~= want);
    }

    /// Writes a deferred diagram inside a note; returns whether the marker
    /// is still owed.
    #[verifier::rlimit(40)]
    fn emit_deferred(
        &mut self,
        dd: &DeferredDiagram,
        first: bool,
        marker: &String,
        indent: &String,
        mw: usize,
        ctx: &NotesContext,
    ) -> (still_first: bool)
        requires
            old(self).wf(),
            indent@ == spaces(mw as nat),
        ensures
            appended(
                *old(self),
                *final(self),
                deferred_rows(*dd, first, marker@, mw, ctx.render_width, ctx.complete, ctx.code_line_numbers, ctx.spacing@, ctx.previews.entries@, ctx.max_source_bytes),
            ),
            still_first == (first && deferred_rows(*dd, first, marker@, mw, ctx.render_width, ctx.complete, ctx.code_line_numbers, ctx.spacing@, ctx.previews.entries@, ctx.max_source_bytes).len() == 0),
            blocks_recorded(*old(self), *final(self)),
            final(self).link_urls == old(self).link_urls,
    {
        let ghost es = ctx.previews.entries@;
        let nested = spans_display_width(&dd.prefix);
        let rw = ctx.render_width;
        let available = if nested <= rw && mw <= rw - nested { rw - nested - mw } else { 0 };
        let too_large = string_byte_len(&dd.source) > ctx.max_source_bytes;
        let found = lookup(&ctx.previews.entries, &dd.source);
        let (ready, err): (Option<&MermaidPreview>, Option<&str>) = if too_large {
            (None, Some(SOURCE_OVER_LIMIT))
        } else {
            match found {
                Some(Ok(p)) => (Some(p), None),
                Some(Err(e)) => (None, Some(e.as_str())),
                None => (None, None),
            }
        };
        let (block, layout) = framed_block_lines(
            dd.source.as_str(),
            ready,
            err,
            0,
            available,
            ctx.complete,
            ctx.code_line_numbers,
            true,
            ctx.spacing,
        );
        let ghost bspec = deferred_block(*dd, mw, ctx.render_width, ctx.complete, ctx.code_line_numbers, ctx.spacing@, es, ctx.max_source_bytes);
        assert(strings_view(block@) == bspec);
        let rendered_start = self.lines.len();
        let ghost before_block = *self;
        let ghost want = deferred_rows(*dd, first, marker@, mw, ctx.render_width, ctx.complete, ctx.code_line_numbers, ctx.spacing@, es, ctx.max_source_bytes);
        proof {
            lemma_appended_nothing(before_block);
            assert(want.take(0) =~= Seq::<Row>::empty());
        }
        let mut k: usize = 0;
        while k < block.len()
            invariant
                k <= block@.len(),
                strings_view(block@) == bspec,
                want.len() == block@.len(),
                forall|j: int| 0 <= j < block@.len() ==> #[trigger] want[j] == (seq![if first && j == 0 { marker@ } else { indent@ }] + strings_view(dd.prefix@) + seq![block@[j]@], dd.source_line),
                appended(before_block, *self, want.take(k as int)),
                self.link_urls == before_block.link_urls,
                self.code_blocks == before_block.code_blocks,
                self.diagrams == before_block.diagrams,
                rendered_start == before_block.lines@.len(),
            decreases block@.len() - k,
        {
            let line = diagram_line(if first && k == 0 { marker } else { indent }, &dd.prefix, &block[k]);
            let ghost mid = *self;
            self.emit(line, dd.source_line);
            proof {
                lemma_appended_trans(before_block, mid, *self, want.take(k as int), seq![(line_view(line), dd.source_line)]);
                assert(want.take(k as int) + seq![(line_view(line), dd.source_line)] =~= want.take(k + 1));
            }
            k = k + 1;
        }
        assert(want.take(block@.len() as int) =~= want);
        if block.len() > 0 {
            let rendered_end = self.lines.len() - 1;
            let info = DiagramBlockInfo {
                ordinal: self.diagrams.len(),
                code_block_index: self.code_blocks.len(),
                source: dd.source.clone(),
                rendered_start,
                rendered_end,
                source_line: dd.source_line,
            };
            self.diagrams.push(info);
            crate::document::record_code_block(
                &mut self.code_blocks,
                dd.source.clone(),
                rendered_start,
                rendered_end,
                BlockLayout { prefix_width: add_sat(mw, nested), rendered_width: layout.rendered_width },
            );
        }
        proof {
            assert(self.diagrams@.take(before_block.diagrams@.len() as int) =~= before_block.diagrams@);
            assert(self.code_blocks@.take(before_block.code_blocks@.len() as int) =~= before_block.code_blocks@);
        }
        first && block.len() == 0
    }

    /// Writes the rows of one definition line.
    fn emit_body(&mut self, line: &Vec<String>, first: bool, marker: &String, indent: &String, mw: usize, render_width: usize, src: usize)
        requires
            old(self).wf(),
            indent@ == spaces(mw as nat),
        ensures
            appended(*old(self), *final(self), body_rows(line_view(*line), first, marker@, mw, render_width, src)),
            final(self).link_urls == old(self).link_urls,
            final(self).code_blocks == old(self).code_blocks,
            final(self).diagrams == old(self).diagrams,
    {
        let plain = line_plain_text(line);
        let rows = wrap_rows(plain.as_str(), sub_or_zero(render_width, mw));
        let ghost want = body_rows(line_view(*line), first, marker@, mw, render_width, src);
        if first {
            self.emit_rows(marker, indent, &rows, src);
            assert(Seq::new(rows@.len(), |k: int| (seq![if k == 0 { marker@ } else { indent@ }, rows@[k]@], src)) =~= want);
        } else if line.len() == 0 {
            let blank = String::new();
            proof {
                reveal_strlit("");
                assert(blank@ =~= ""@);
            }
            self.emit(one_span(blank), src);
            assert(seq![(seq![blank@], src)] =~= want);
        } else {
            self.emit_rows(indent, indent, &rows, src);
            assert(Seq::new(rows@.len(), |k: int| (seq![if k == 0 { indent@ } else { indent@ }, rows@[k]@], src)) =~= want);
        }
    }

    /// Writes one note numbered `number`.
    fn emit_note(&mut self, d: &NoteDefinition, number: usize, ctx: &NotesContext)
        requires
            old(self).wf(),
        ensures
            appended(
                *old(self),
                *final(self),
                note_rows(
                    *d,
                    note_marker(number),
                    unicode_width_of(note_marker(number)),
                    ctx.render_width,
                    ctx.complete,
                    ctx.code_line_numbers,
                    ctx.spacing@,
                    ctx.previews.entries@,
                    ctx.max_source_bytes,
                    0,
                    true,
                    0,
                ),
            ),
            blocks_recorded(*old(self), *final(self)),
            final(self).link_urls == old(self).link_urls,
            final(self).map.current_src_line == d.source_line,
    {
        let (marker, indent) = note_prefix(number);
        let mw = display_width(marker.as_str());
        let n = trimmed_count(&d.lines);
        proof {
            lemma_trimmed_le(lines_view(d.lines@));
        }
        let ghost es = ctx.previews.entries@;
        let ghost full = note_rows(*d, marker@, mw, ctx.render_width, ctx.complete, ctx.code_line_numbers, ctx.spacing@, es, ctx.max_source_bytes, 0, true, 0);
        let ghost start = *self;
        let ghost mut acc: Seq<Row> = seq![];
        let mut first = true;
        let mut di: usize = 0;
        let mut i: usize = 0;
        proof {
            lemma_appended_nothing(start);
            lemma_blocks_same(start);
        }
        while i < n
            invariant
                n as int == trimmed_len(lines_view(d.lines@)),
                n <= d.lines@.len(),
                i <= n,
                marker@ == note_marker(number),
                mw == unicode_width_of(marker@),
                indent@ == spaces(mw as nat),
                es == ctx.previews.entries@,
                full == note_rows(*d, marker@, mw, ctx.render_width, ctx.complete, ctx.code_line_numbers, ctx.spacing@, es, ctx.max_source_bytes, 0, true, 0),
                acc + note_rows(*d, marker@, mw, ctx.render_width, ctx.complete, ctx.code_line_numbers, ctx.spacing@, es, ctx.max_source_bytes, i as int, first, di as int) == full,
                appended(start, *self, acc),
                blocks_recorded(start, *self),
                self.link_urls == start.link_urls,
                self.lines@.len() >= start.lines@.len(),
            decreases n - i,
        {
            let ghost before = *self;
            let ghost here: Seq<Row>;
            proof {
                lemma_note_rows_step(*d, marker@, mw, ctx.render_width, ctx.complete, ctx.code_line_numbers, ctx.spacing@, es, ctx.max_source_bytes, i as int, first, di as int);
            }
            if di < d.diagrams.len() && d.diagrams[di].placeholder == i {
                let still = self.emit_deferred(&d.diagrams[di], first, &marker, &indent, mw, ctx);
                proof {
                    here = deferred_rows(d.diagrams@[di as int], first, marker@, mw, ctx.render_width, ctx.complete, ctx.code_line_numbers, ctx.spacing@, es, ctx.max_source_bytes);
                }
                first = still;
                di = di + 1;
            } else {
                self.emit_body(&d.lines[i], first, &marker, &indent, mw, ctx.render_width, d.source_line);
                proof {
                    assert(lines_view(d.lines@)[i as int] == line_view(d.lines@[i as int]));
                    here = body_rows(line_view(d.lines@[i as int]), first, marker@, mw, ctx.render_width, d.source_line);
                    lemma_blocks_same(before);
                    assert(self.diagrams@.take(before.diagrams@.len() as int) =~= before.diagrams@);
                    assert(self.code_blocks@.take(before.code_blocks@.len() as int) =~= before.code_blocks@);
                }
                first = false;
            }
            proof {
                lemma_blocks_trans(start, before, *self);
                lemma_appended_trans(start, before, *self, acc, here);
                assert(acc + here + note_rows(*d, marker@, mw, ctx.render_width, ctx.complete, ctx.code_line_numbers, ctx.spacing@, es, ctx.max_source_bytes, i + 1, first, di as int) =~= full);
                acc = acc + here;
            }
            i = i + 1;
        }
        self.map.current_src_line = d.source_line;
        proof {
            lemma_note_rows_end(*d, marker@, mw, ctx.render_width, ctx.complete, ctx.code_line_numbers, ctx.spacing@, es, ctx.max_source_bytes, i as int, first, di as int);
            assert(acc =~= full);
        }
    }
}

/// The first definition of `label`.
fn find_definition(defs: &Vec<NoteDefinition>, label: &String) -> (r: Option<usize>)
    ensures
        match r {
            Some(j) => j as int == def_index(defs@, label@) && j < defs@.len(),
            None => def_index(defs@, label@) == -1,
        },
{
    let mut j: usize = 0;
    assert(defs@.take(0) =~= Seq::<NoteDefinition>::empty());
    while j < defs.len()
        invariant
            j <= defs@.len(),
            def_index(defs@.take(j as int), label@) == -1,
        decreases defs@.len() - j,
    {
        assert(defs@.take(j + 1).drop_last() =~= defs@.take(j as int));
        if defs[j].label == *label {
            proof {
                lemma_def_index_prefix(defs@, label@, j as int);
            }
            return Some(j);
        }
        j = j + 1;
    }
    assert(defs@.take(defs@.len() as int) =~= defs@);
    None
}

proof fn lemma_def_index_prefix(defs: Seq<NoteDefinition>, label: Seq<char>, j: int)
    requires
        0 <= j < defs.len(),
        def_index(defs.take(j), label) == -1,
        defs[j].label@ == label,
    ensures
        def_index(defs, label) == j,
    decreases defs.len(),
{
    if defs.len() == j + 1 {
        assert(defs.drop_last() =~= defs.take(j));
    } else {
        assert(defs.drop_last().take(j) =~= defs.take(j));
        lemma_def_index_prefix(defs.drop_last(), label, j);
    }
}

impl FootnotesBuf {
    /// Writes the notes section after the document (nothing when no note
    /// is defined): see `section_rows`. The notes' link targets follow the
    /// document's, in the notes' order, and their diagrams are recorded.
    /// The definitions are consumed: none is left afterwards, so a second
    /// call writes nothing.
    pub fn flush_footnotes(&mut self, out: &mut DocumentLines, ctx: &NotesContext)
        requires
            old(out).wf(),
            old(self).numbers.refs_order@.len() + old(self).numbers.defs_order@.len() <= usize::MAX,
        ensures
            final(self).definitions@.len() == 0,
            final(self).numbers == old(self).numbers,
            old(self).definitions@.len() == 0 ==> *final(out) == *old(out),
            old(self).definitions@.len() > 0 ==> {
                let sec = section_rows(
                    *old(self),
                    ctx.render_width,
                    ctx.complete,
                    ctx.code_line_numbers,
                    ctx.spacing@,
                    ctx.previews.entries@,
                    ctx.max_source_bytes,
                    old(out).map.current_src_line,
                );
                let order = note_order_spec(strings_view(old(self).numbers.refs_order@), strings_view(old(self).numbers.defs_order@));
                &&& appended(*old(out), *final(out), sec.0)
                &&& final(out).map.current_src_line == sec.1
                &&& blocks_recorded(*old(out), *final(out))
                &&& strings_view(final(out).link_urls@) == strings_view(old(out).link_urls@) + notes_urls(old(self).definitions@, order, 0)
            },
    {
        if self.definitions.len() == 0 {
            return;
        }
        let ghost start = *out;
        let ghost src0 = out.map.current_src_line;
        let ghost es = ctx.previews.entries@;
        let ghost order = note_order_spec(strings_view(self.numbers.refs_order@), strings_view(self.numbers.defs_order@));
        let ghost defs = self.definitions@;
        let ghost all = notes_rows(defs, order, 0, ctx.render_width, ctx.complete, ctx.code_line_numbers, ctx.spacing@, es, ctx.max_source_bytes, src0);
        let ghost all_urls = notes_urls(defs, order, 0);
        let ordered = self.numbers.numbered_notes();
        let rule = repeat_char('─', rule_width(ctx.render_width, 0));
        let (title, underline) = notes_heading();
        let blank = String::new();
        proof {
            reveal_strlit("");
            assert(blank@ =~= ""@);
        }
        let ghost head = seq![
            (seq![repeated('─', spec_rule_width(ctx.render_width, 0) as nat)], src0),
            (seq![""@], src0),
            (seq![NOTES_TITLE@], src0),
            (seq![repeated('─', unicode_width_of(NOTES_TITLE@) as nat)], src0),
        ];
        let s1 = out.map.current_src_line;
        let ghost m0 = *out;
        out.emit(one_span(rule), s1);
        let ghost m1 = *out;
        out.emit(one_span(blank), s1);
        let ghost m2 = *out;
        out.emit(one_span(title), s1);
        let ghost m3 = *out;
        out.emit(one_span(underline), s1);
        proof {
            lemma_appended_trans(m0, m1, m2, seq![head[0]], seq![head[1]]);
            lemma_appended_trans(m0, m2, m3, seq![head[0]] + seq![head[1]], seq![head[2]]);
            lemma_appended_trans(m0, m3, *out, seq![head[0]] + seq![head[1]] + seq![head[2]], seq![head[3]]);
            assert(seq![head[0]] + seq![head[1]] + seq![head[2]] + seq![head[3]] =~= head);
            lemma_blocks_same(start);
            assert(out.diagrams@.take(start.diagrams@.len() as int) =~= start.diagrams@);
            assert(out.code_blocks@.take(start.code_blocks@.len() as int) =~= start.code_blocks@);
        }
        let ghost mut acc: Seq<Row> = head;
        let ghost mut acc_urls: Seq<Seq<char>> = seq![];
        let mut k: usize = 0;
        while k < ordered.len()
            invariant
                ordered@.len() == order.len(),
                forall|q: int| 0 <= q < ordered@.len() ==> (#[trigger] ordered@[q]).0@ == order[q] && ordered@[q].1 == q + 1,
                k <= ordered@.len(),
                defs == self.definitions@,
                es == ctx.previews.entries@,
                all == notes_rows(defs, order, 0, ctx.render_width, ctx.complete, ctx.code_line_numbers, ctx.spacing@, es, ctx.max_source_bytes, src0),
                all_urls == notes_urls(defs, order, 0),
                ({
                    let rest = notes_rows(defs, order, k as int, ctx.render_width, ctx.complete, ctx.code_line_numbers, ctx.spacing@, es, ctx.max_source_bytes, out.map.current_src_line);
                    &&& head + all.0 == acc + rest.0
                    &&& all.1 == rest.1
                }),
                all_urls == acc_urls + notes_urls(defs, order, k as int),
                appended(start, *out, acc),
                blocks_recorded(start, *out),
                out.lines@.len() >= start.lines@.len(),
                strings_view(out.link_urls@) == strings_view(start.link_urls@) + acc_urls,
            decreases ordered@.len() - k,
        {
            let ghost before = *out;
            let ghost cur = out.map.current_src_line;
            let label = &ordered[k].0;
            let number = ordered[k].1;
            match find_definition(&self.definitions, label) {
                Some(j) => {
                    let d = &self.definitions[j];
                    out.emit_note(d, number, ctx);
                    let ghost here = note_rows(*d, note_marker(number), unicode_width_of(note_marker(number)), ctx.render_width, ctx.complete, ctx.code_line_numbers, ctx.spacing@, es, ctx.max_source_bytes, 0, true, 0);
                    let ghost before_urls = out.link_urls@;
                    let ghost after_note = *out;
                    let mut u: usize = 0;
                    while u < d.link_urls.len()
                        invariant
                            u <= d.link_urls@.len(),
                            out.wf(),
                            strings_view(out.link_urls@) == strings_view(before_urls) + strings_view(d.link_urls@).take(u as int),
                            out.lines == after_note.lines,
                            out.map == after_note.map,
                            out.code_blocks == after_note.code_blocks,
                            out.diagrams == after_note.diagrams,
                        decreases d.link_urls@.len() - u,
                    {
                        let ghost prev = out.link_urls@;
                        out.link_urls.push(d.link_urls[u].clone());
                        assert(strings_view(out.link_urls@) =~= strings_view(prev).push(d.link_urls@[u as int]@));
                        assert(strings_view(d.link_urls@).take(u + 1) =~= strings_view(d.link_urls@).take(u as int).push(d.link_urls@[u as int]@));
                        u = u + 1;
                    }
                    proof {
                        assert(strings_view(d.link_urls@).take(d.link_urls@.len() as int) =~= strings_view(d.link_urls@));
                        lemma_blocks_trans(start, before, *out);
                        lemma_appended_trans(start, before, *out, acc, here);
                        acc = acc + here;
                        acc_urls = acc_urls + strings_view(d.link_urls@);
                        assert(head + all.0 =~= acc + notes_rows(defs, order, k + 1, ctx.render_width, ctx.complete, ctx.code_line_numbers, ctx.spacing@, es, ctx.max_source_bytes, out.map.current_src_line).0);
                        assert(all_urls =~= acc_urls + notes_urls(defs, order, k + 1));
                    }
                },
                None => {
                    proof {
                        assert(all_urls =~= acc_urls + notes_urls(defs, order, k + 1));
                    }
                },
            }
            k = k + 1;
        }
        let s2 = out.map.current_src_line;
        let ghost before_end = *out;
        let closing = String::new();
        proof {
            assert(closing@ =~= ""@);
        }
        out.emit(one_span(closing), s2);
        proof {
            lemma_appended_trans(start, before_end, *out, acc, seq![(seq![""@], s2)]);
            assert(notes_urls(defs, order, k as int) =~= Seq::<Seq<char>>::empty());
            assert(acc_urls =~= all_urls);
            assert(acc + seq![(seq![""@], s2)] =~= head + all.0 + seq![(seq![""@], all.1)]);
            assert(out.diagrams@.take(before_end.diagrams@.len() as int) =~= before_end.diagrams@);
            assert(out.code_blocks@.take(before_end.code_blocks@.len() as int) =~= before_end.code_blocks@);
            lemma_blocks_trans(start, before_end, *out);
        }
        self.definitions = Vec::new();
    }
}

} // verus!
