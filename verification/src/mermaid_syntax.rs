//! Highlighting of Mermaid source lines: keywords, arrows and edge labels.
//! Every character of a line lands in exactly one span, in order.
use vstd::prelude::*;
use crate::diagrams::{first_where, lemma_first_where, lemma_first_where_extend};
use crate::text::{chars_of, is_lit, starts_with_spec, string_from_chars, sub_chars};
use vstd::string::StringExecFns;

verus! {

/// How a span of a Mermaid line is highlighted.
#[derive(Clone, Copy, Debug, PartialEq, Eq, Structural)]
pub enum MermaidRole {
    Keyword,
    Arrow,
    Label,
    Plain,
}

/// A highlighted piece of a Mermaid line.
#[derive(Debug)]
pub struct MermaidSpan {
    pub text: String,
    pub role: MermaidRole,
}

impl View for MermaidSpan {
    type V = (Seq<char>, MermaidRole);

    open spec fn view(&self) -> (Seq<char>, MermaidRole) {
        (self.text@, self.role)
    }
}

pub open spec fn spans_view(spans: Seq<MermaidSpan>) -> Seq<(Seq<char>, MermaidRole)> {
    spans.map_values(|s: MermaidSpan| s@)
}

/// Diagram type keywords.
pub open spec fn diagram_keyword(w: Seq<char>) -> bool {
    ||| w == "flowchart"@
    ||| w == "graph"@
    ||| w == "sequenceDiagram"@
    ||| w == "classDiagram"@
    ||| w == "stateDiagram"@
    ||| w == "stateDiagram-v2"@
    ||| w == "erDiagram"@
    ||| w == "gantt"@
    ||| w == "pie"@
    ||| w == "journey"@
    ||| w == "gitGraph"@
    ||| w == "mindmap"@
    ||| w == "timeline"@
    ||| w == "sankey-beta"@
    ||| w == "quadrantChart"@
    ||| w == "requirementDiagram"@
    ||| w == "C4Context"@
    ||| w == "block-beta"@
    ||| w == "xychart-beta"@
    ||| w == "kanban"@
    ||| w == "architecture-beta"@
}

/// Layout direction keywords.
pub open spec fn direction_keyword(w: Seq<char>) -> bool {
    w == "TB"@ || w == "TD"@ || w == "BT"@ || w == "LR"@ || w == "RL"@
}

/// Structural keywords.
pub open spec fn structure_keyword(w: Seq<char>) -> bool {
    ||| w == "subgraph"@
    ||| w == "end"@
    ||| w == "section"@
    ||| w == "title"@
    ||| w == "participant"@
    ||| w == "actor"@
    ||| w == "loop"@
    ||| w == "alt"@
    ||| w == "else"@
    ||| w == "opt"@
    ||| w == "par"@
    ||| w == "critical"@
    ||| w == "break"@
    ||| w == "rect"@
    ||| w == "note"@
    ||| w == "activate"@
    ||| w == "deactivate"@
    ||| w == "class"@
    ||| w == "state"@
    ||| w == "dateFormat"@
    ||| w == "axisFormat"@
    ||| w == "style"@
    ||| w == "classDef"@
    ||| w == "click"@
}

pub open spec fn keyword(w: Seq<char>) -> bool {
    diagram_keyword(w) || direction_keyword(w) || structure_keyword(w)
}

/// Length of the arrow starting `s`, trying longer and dotted forms first;
/// 0 when `s` does not start with an arrow.
pub open spec fn arrow_len(s: Seq<char>) -> nat {
    if starts_with_spec(s, seq!['-', '.', '-', '>']) {
        4
    } else if starts_with_spec(s, seq!['=', '=', '>']) {
        3
    } else if starts_with_spec(s, seq!['-', '-', '>']) {
        3
    } else if starts_with_spec(s, seq!['-', '-', '-']) {
        3
    } else if starts_with_spec(s, seq!['-', '.', '-']) {
        3
    } else if starts_with_spec(s, seq!['-', '.', '.']) {
        3
    } else if starts_with_spec(s, seq!['-', '>']) {
        2
    } else if starts_with_spec(s, seq!['-', '-']) {
        2
    } else {
        0
    }
}

pub open spec fn is_word_start(c: char) -> bool {
    ('a' <= c && c <= 'z') || ('A' <= c && c <= 'Z') || c == '_'
}

pub open spec fn is_word_char(c: char) -> bool {
    is_word_start(c) || ('0' <= c && c <= '9') || c == '-'
}

/// Length of the identifier-like word starting `s`.
pub open spec fn word_len(s: Seq<char>) -> nat
    decreases s.len(),
{
    if s.len() > 0 && is_word_char(s[0]) {
        1 + word_len(s.skip(1))
    } else {
        0
    }
}

/// Length of the run of other characters starting `s`: up to a word, a
/// pipe or an arrow.
pub open spec fn other_len(s: Seq<char>) -> nat
    decreases s.len(),
{
    if s.len() == 0 || is_word_start(s[0]) || s[0] == '|' || arrow_len(s) > 0 {
        0
    } else {
        1 + other_len(s.skip(1))
    }
}

/// Spans of a pipe-free segment: arrows, words (keywords or plain) and
/// runs of other characters.
pub open spec fn tokenize(s: Seq<char>) -> Seq<(Seq<char>, MermaidRole)>
    decreases s.len(),
{
    if s.len() == 0 {
        seq![]
    } else if arrow_len(s) > 0 {
        seq![(s.take(arrow_len(s) as int), MermaidRole::Arrow)] + tokenize(s.skip(arrow_len(s) as int))
    } else if is_word_start(s[0]) {
        let n = word_len(s);
        proof {
            lemma_word_len(s);
        }
        let w = s.take(n as int);
        seq![(w, if keyword(w) { MermaidRole::Keyword } else { MermaidRole::Plain })] + tokenize(
            s.skip(n as int),
        )
    } else {
        let n = other_len(s);
        proof {
            lemma_other_len(s);
        }
        if n == 0 {
            seq![]
        } else {
            seq![(s.take(n as int), MermaidRole::Plain)] + tokenize(s.skip(n as int))
        }
    }
}

pub open spec fn is_pipe(s: Seq<char>) -> spec_fn(int) -> bool {
    |i: int| s[i] == '|'
}

/// Index of the first `|`, or -1.
pub open spec fn pipe_at(s: Seq<char>) -> int {
    first_where(s.len() as int, is_pipe(s))
}

/// Spans of the rest of a line: segments between pipes are tokenized, a
/// `|label|` pair is one label span, an unpaired `|` is plain.
pub open spec fn colorize_rest(rest: Seq<char>) -> Seq<(Seq<char>, MermaidRole)>
    decreases rest.len(),
{
    if rest.len() == 0 {
        seq![]
    } else {
        let pos = pipe_at(rest);
        if pos >= 0 {
            proof {
                lemma_first_where(rest.len() as int, is_pipe(rest));
            }
            let after = rest.skip(pos + 1);
            let end = pipe_at(after);
            if end >= 0 {
                proof {
                    lemma_first_where(after.len() as int, is_pipe(after));
                }
                tokenize(rest.take(pos)) + seq![
                    (seq!['|'] + after.take(end) + seq!['|'], MermaidRole::Label),
                ] + colorize_rest(after.skip(end + 1))
            } else {
                tokenize(rest.take(pos)) + seq![(seq!['|'], MermaidRole::Plain)] + colorize_rest(after)
            }
        } else {
            tokenize(rest)
        }
    }
}

/// The spans of a line; a line that yields none is one plain span.
pub open spec fn colorize_spec(line: Seq<char>) -> Seq<(Seq<char>, MermaidRole)> {
    let s = colorize_rest(line);
    if s.len() == 0 {
        seq![(line, MermaidRole::Plain)]
    } else {
        s
    }
}

/// The span texts one after another.
pub open spec fn concat_texts(spans: Seq<(Seq<char>, MermaidRole)>) -> Seq<char>
    decreases spans.len(),
{
    if spans.len() == 0 {
        seq![]
    } else {
        spans[0].0 + concat_texts(spans.skip(1))
    }
}

pub proof fn lemma_concat_texts_add(a: Seq<(Seq<char>, MermaidRole)>, b: Seq<(Seq<char>, MermaidRole)>)
    ensures
        concat_texts(a + b) == concat_texts(a) + concat_texts(b),
    decreases a.len(),
{
    if a.len() == 0 {
        assert(a + b =~= b);
        assert(concat_texts(a) =~= seq![]);
        assert(seq![] + concat_texts(b) =~= concat_texts(b));
    } else {
        lemma_concat_texts_add(a.skip(1), b);
        assert((a + b).skip(1) =~= a.skip(1) + b);
        assert(a[0].0 + (concat_texts(a.skip(1)) + concat_texts(b)) =~= (a[0].0 + concat_texts(
            a.skip(1),
        )) + concat_texts(b));
    }
}

pub proof fn lemma_word_len(s: Seq<char>)
    ensures
        word_len(s) <= s.len(),
        forall|i: int| 0 <= i < word_len(s) ==> is_word_char(#[trigger] s[i]),
    decreases s.len(),
{
    if s.len() > 0 && is_word_char(s[0]) {
        lemma_word_len(s.skip(1));
        assert forall|i: int| 0 <= i < word_len(s) implies is_word_char(#[trigger] s[i]) by {
            if i > 0 {
                assert(s[i] == s.skip(1)[i - 1]);
            }
        }
    }
}

pub proof fn lemma_other_len(s: Seq<char>)
    ensures
        other_len(s) <= s.len(),
        forall|i: int| 0 <= i < other_len(s) ==> #[trigger] s[i] != '|',
    decreases s.len(),
{
    if !(s.len() == 0 || is_word_start(s[0]) || s[0] == '|' || arrow_len(s) > 0) {
        lemma_other_len(s.skip(1));
        assert forall|i: int| 0 <= i < other_len(s) implies #[trigger] s[i] != '|' by {
            if i > 0 {
                assert(s[i] == s.skip(1)[i - 1]);
            }
        }
    }
}

/// Law: the spans of a pipe-free segment spell the segment.
pub proof fn lemma_tokenize_spells(s: Seq<char>)
    requires
        forall|i: int| 0 <= i < s.len() ==> #[trigger] s[i] != '|',
    ensures
        concat_texts(tokenize(s)) == s,
    decreases s.len(),
{
    if s.len() == 0 {
        return;
    }
    let n: int = if arrow_len(s) > 0 {
        arrow_len(s) as int
    } else if is_word_start(s[0]) {
        word_len(s) as int
    } else {
        other_len(s) as int
    };
    lemma_word_len(s);
    lemma_other_len(s);
    if arrow_len(s) > 0 {
        assert(arrow_len(s) <= s.len());
    }
    assert(n > 0 && n <= s.len());
    let head = seq![(s.take(n), tokenize(s)[0].1)];
    let tail = s.skip(n);
    assert forall|i: int| 0 <= i < tail.len() implies #[trigger] tail[i] != '|' by {
        assert(tail[i] == s[i + n]);
    }
    lemma_tokenize_spells(tail);
    assert(tokenize(s) =~= head + tokenize(tail));
    lemma_concat_texts_add(head, tokenize(tail));
    assert(concat_texts(head) =~= s.take(n)) by {
        assert(head.skip(1) =~= seq![]);
        assert(concat_texts(head.skip(1)) =~= seq![]);
    }
    assert(s.take(n) + tail =~= s);
}

/// Law: the spans of a line spell the line.
pub proof fn lemma_colorize_spells(line: Seq<char>)
    ensures
        concat_texts(colorize_spec(line)) == line,
{
    lemma_colorize_rest_spells(line);
    if colorize_rest(line).len() == 0 {
        let one = seq![(line, MermaidRole::Plain)];
        assert(one.skip(1) =~= seq![]);
        assert(concat_texts(one.skip(1)) =~= seq![]);
        assert(concat_texts(one) =~= line);
    }
}

pub proof fn lemma_colorize_rest_spells(rest: Seq<char>)
    ensures
        concat_texts(colorize_rest(rest)) == rest,
    decreases rest.len(),
{
    if rest.len() == 0 {
        return;
    }
    let pos = pipe_at(rest);
    lemma_first_where(rest.len() as int, is_pipe(rest));
    if pos >= 0 {
        let before = rest.take(pos);
        assert forall|i: int| 0 <= i < before.len() implies #[trigger] before[i] != '|' by {
            assert(!is_pipe(rest)(i));
        }
        lemma_tokenize_spells(before);
        let after = rest.skip(pos + 1);
        let end = pipe_at(after);
        lemma_first_where(after.len() as int, is_pipe(after));
        if end >= 0 {
            let label = seq![(seq!['|'] + after.take(end) + seq!['|'], MermaidRole::Label)];
            let more = after.skip(end + 1);
            lemma_colorize_rest_spells(more);
            lemma_concat_texts_add(tokenize(before) + label, colorize_rest(more));
            lemma_concat_texts_add(tokenize(before), label);
            assert(label.skip(1) =~= seq![]);
            assert(concat_texts(label.skip(1)) =~= seq![]);
            assert(concat_texts(label) =~= seq!['|'] + after.take(end) + seq!['|']);
            assert(after[end] == '|');
            assert(rest[pos] == '|');
            assert(before + (seq!['|'] + after.take(end) + seq!['|']) + more =~= rest);
        } else {
            let bar = seq![(seq!['|'], MermaidRole::Plain)];
            lemma_colorize_rest_spells(after);
            lemma_concat_texts_add(tokenize(before) + bar, colorize_rest(after));
            lemma_concat_texts_add(tokenize(before), bar);
            assert(bar.skip(1) =~= seq![]);
            assert(concat_texts(bar.skip(1)) =~= seq![]);
            assert(concat_texts(bar) =~= seq!['|']);
            assert(rest[pos] == '|');
            assert(before + seq!['|'] + after =~= rest);
        }
    } else {
        assert forall|i: int| 0 <= i < rest.len() implies #[trigger] rest[i] != '|' by {
            assert(!is_pipe(rest)(i));
        }
        lemma_tokenize_spells(rest);
    }
}

/// Whether `s[i..]` starts with `p`.
fn prefix_at(s: &[char], i: usize, p: &[char]) -> (r: bool)
    requires
        i <= s@.len(),
    ensures
        r == starts_with_spec(s@.skip(i as int), p@),
{
    if p.len() > s.len() - i {
        return false;
    }
    let n = s.len();
    let mut k: usize = 0;
    while k < p.len()
        invariant
            n == s@.len(),
            i <= s@.len(),
            p@.len() <= s@.len() - i,
            i + p@.len() <= s@.len(),
            k <= p@.len(),
            forall|j: int| 0 <= j < k ==> s@[i + j] == p@[j],
        decreases p@.len() - k,
    {
        if s[i + k] != p[k] {
            assert(s@.skip(i as int).take(p@.len() as int)[k as int] != p@[k as int]);
            return false;
        }
        k = k + 1;
    }
    assert(s@.skip(i as int).take(p@.len() as int) =~= p@);
    true
}

/// Length of the arrow starting at `s[i..]`, or 0.
fn arrow_len_at(s: &[char], i: usize) -> (n: usize)
    requires
        i <= s@.len(),
    ensures
        n == arrow_len(s@.skip(i as int)),
{
    if prefix_at(s, i, vec!['-', '.', '-', '>'].as_slice()) {
        4
    } else if prefix_at(s, i, vec!['=', '=', '>'].as_slice()) {
        3
    } else if prefix_at(s, i, vec!['-', '-', '>'].as_slice()) {
        3
    } else if prefix_at(s, i, vec!['-', '-', '-'].as_slice()) {
        3
    } else if prefix_at(s, i, vec!['-', '.', '-'].as_slice()) {
        3
    } else if prefix_at(s, i, vec!['-', '.', '.'].as_slice()) {
        3
    } else if prefix_at(s, i, vec!['-', '>'].as_slice()) {
        2
    } else if prefix_at(s, i, vec!['-', '-'].as_slice()) {
        2
    } else {
        0
    }
}

/// The arrow `s` starts with, and its length in bytes (the arrows are
/// ASCII), trying longer and dotted forms first.
pub fn try_match_arrow(s: &str) -> (r: Option<(String, usize)>)
    ensures
        match r {
            Some((arrow, len)) => arrow_len(s@) > 0 && len == arrow_len(s@) && arrow@ == s@.take(
                len as int,
            ),
            None => arrow_len(s@) == 0,
        },
{
    let cs = chars_of(s);
    let n = arrow_len_at(cs.as_slice(), 0);
    assert(cs@.skip(0) =~= cs@);
    if n == 0 {
        None
    } else {
        let a = sub_chars(cs.as_slice(), 0, n);
        Some((string_from_chars(a.as_slice()), n))
    }
}

fn diagram_keyword_chars(w: &[char]) -> (r: bool)
    ensures
        r == diagram_keyword(w@),
{
    is_lit(w, "flowchart") || is_lit(w, "graph") || is_lit(w, "sequenceDiagram") || is_lit(
        w,
        "classDiagram",
    ) || is_lit(w, "stateDiagram") || is_lit(w, "stateDiagram-v2") || is_lit(w, "erDiagram")
        || is_lit(w, "gantt") || is_lit(w, "pie") || is_lit(w, "journey") || is_lit(w, "gitGraph")
        || is_lit(w, "mindmap") || is_lit(w, "timeline") || is_lit(w, "sankey-beta") || is_lit(
        w,
        "quadrantChart",
    ) || is_lit(w, "requirementDiagram") || is_lit(w, "C4Context") || is_lit(w, "block-beta")
        || is_lit(w, "xychart-beta") || is_lit(w, "kanban") || is_lit(w, "architecture-beta")
}

fn direction_keyword_chars(w: &[char]) -> (r: bool)
    ensures
        r == direction_keyword(w@),
{
    is_lit(w, "TB") || is_lit(w, "TD") || is_lit(w, "BT") || is_lit(w, "LR") || is_lit(w, "RL")
}

fn structure_keyword_chars(w: &[char]) -> (r: bool)
    ensures
        r == structure_keyword(w@),
{
    is_lit(w, "subgraph") || is_lit(w, "end") || is_lit(w, "section") || is_lit(w, "title")
        || is_lit(w, "participant") || is_lit(w, "actor") || is_lit(w, "loop") || is_lit(w, "alt")
        || is_lit(w, "else") || is_lit(w, "opt") || is_lit(w, "par") || is_lit(w, "critical")
        || is_lit(w, "break") || is_lit(w, "rect") || is_lit(w, "note") || is_lit(w, "activate")
        || is_lit(w, "deactivate") || is_lit(w, "class") || is_lit(w, "state") || is_lit(
        w,
        "dateFormat",
    ) || is_lit(w, "axisFormat") || is_lit(w, "style") || is_lit(w, "classDef") || is_lit(
        w,
        "click",
    )
}

fn keyword_chars(w: &[char]) -> (r: bool)
    ensures
        r == keyword(w@),
{
    diagram_keyword_chars(w) || direction_keyword_chars(w) || structure_keyword_chars(w)
}

/// Whether `word` names a diagram type.
pub fn is_diagram_keyword(word: &str) -> (r: bool)
    ensures
        r == diagram_keyword(word@),
{
    let w = chars_of(word);
    diagram_keyword_chars(w.as_slice())
}

/// Whether `word` is a layout direction.
pub fn is_direction_keyword(word: &str) -> (r: bool)
    ensures
        r == direction_keyword(word@),
{
    let w = chars_of(word);
    direction_keyword_chars(w.as_slice())
}

/// Whether `word` is a structural keyword.
pub fn is_structure_keyword(word: &str) -> (r: bool)
    ensures
        r == structure_keyword(word@),
{
    let w = chars_of(word);
    structure_keyword_chars(w.as_slice())
}

/// Whether `word` is highlighted as a keyword.
pub fn is_keyword(word: &str) -> (r: bool)
    ensures
        r == keyword(word@),
{
    let w = chars_of(word);
    keyword_chars(w.as_slice())
}

fn push_span(spans: &mut Vec<MermaidSpan>, text: &[char], role: MermaidRole)
    ensures
        spans_view(final(spans)@) == spans_view(old(spans)@).push((text@, role)),
{
    let ghost before = spans@;
    spans.push(MermaidSpan { text: string_from_chars(text), role });
    assert(spans_view(spans@) =~= spans_view(before).push((text@, role)));
}

/// Appends the spans of a pipe-free segment.
fn tokenize_segment(seg: &[char], spans: &mut Vec<MermaidSpan>)
    requires
        forall|k: int| 0 <= k < seg@.len() ==> #[trigger] seg@[k] != '|',
    ensures
        spans_view(final(spans)@) == spans_view(old(spans)@) + tokenize(seg@),
{
    let ghost s = seg@;
    let mut i: usize = 0;
    assert(s.skip(0) =~= s);
    assert(spans_view(spans@) + tokenize(s) =~= spans_view(spans@) + tokenize(s.skip(0)));
    while i < seg.len()
        invariant
            s == seg@,
            forall|k: int| 0 <= k < s.len() ==> #[trigger] s[k] != '|',
            i <= s.len(),
            spans_view(old(spans)@) + tokenize(s) == spans_view(spans@) + tokenize(s.skip(i as int)),
        decreases s.len() - i,
    {
        let ghost t = s.skip(i as int);
        let ghost before = spans_view(spans@);
        let a = arrow_len_at(seg, i);
        if a > 0 {
            let piece = sub_chars(seg, i, i + a);
            push_span(spans, piece.as_slice(), MermaidRole::Arrow);
            proof {
                assert(t.take(a as int) =~= piece@);
                assert(t.skip(a as int) =~= s.skip(i + a));
                assert(before + tokenize(t) =~= spans_view(spans@) + tokenize(s.skip(i + a)));
            }
            i = i + a;
        } else if (seg[i] >= 'a' && seg[i] <= 'z') || (seg[i] >= 'A' && seg[i] <= 'Z') || seg[i] == '_' {
            let start = i;
            let mut j = i;
            while j < seg.len() && ((seg[j] >= 'a' && seg[j] <= 'z') || (seg[j] >= 'A' && seg[j] <= 'Z')
                || seg[j] == '_' || (seg[j] >= '0' && seg[j] <= '9') || seg[j] == '-')
                invariant
                    s == seg@,
                    start <= j <= s.len(),
                    word_len(s.skip(start as int)) == (j - start) + word_len(s.skip(j as int)),
                decreases s.len() - j,
            {
                assert(s.skip(j as int).skip(1) =~= s.skip(j + 1));
                j = j + 1;
            }
            proof {
                if j < s.len() {
                    assert(!is_word_char(s.skip(j as int)[0]));
                }
            }
            let word = sub_chars(seg, start, j);
            let kw = keyword_chars(word.as_slice());
            push_span(spans, word.as_slice(), if kw { MermaidRole::Keyword } else { MermaidRole::Plain });
            proof {
                assert(word_len(t) == j - start);
                assert(t.take(word_len(t) as int) =~= word@);
                assert(t.skip(word_len(t) as int) =~= s.skip(j as int));
                assert(before + tokenize(t) =~= spans_view(spans@) + tokenize(s.skip(j as int)));
            }
            i = j;
        } else {
            let start = i;
            let mut j = i;
            while j < seg.len()
                invariant_except_break
                    true,
                invariant
                    s == seg@,
                    start <= j <= s.len(),
                    other_len(s.skip(start as int)) == (j - start) + other_len(s.skip(j as int)),
                ensures
                    other_len(s.skip(j as int)) == 0,
                    start <= j <= s.len(),
                    other_len(s.skip(start as int)) == j - start,
                decreases s.len() - j,
            {
                let c = seg[j];
                if (c >= 'a' && c <= 'z') || (c >= 'A' && c <= 'Z') || c == '_' || c == '|' {
                    break;
                }
                if arrow_len_at(seg, j) > 0 {
                    break;
                }
                assert(s.skip(j as int).skip(1) =~= s.skip(j + 1));
                j = j + 1;
            }
            proof {
                assert(other_len(t) > 0);
            }
            let piece = sub_chars(seg, start, j);
            push_span(spans, piece.as_slice(), MermaidRole::Plain);
            proof {
                assert(t.take(other_len(t) as int) =~= piece@);
                assert(t.skip(other_len(t) as int) =~= s.skip(j as int));
                assert(before + tokenize(t) =~= spans_view(spans@) + tokenize(s.skip(j as int)));
            }
            i = j;
        }
    }
    assert(s.skip(s.len() as int) =~= seq![]);
    assert(spans_view(spans@) + tokenize(seq![]) =~= spans_view(spans@));
}

/// Position of the first `|` in `s[from..]`.
fn find_pipe(s: &[char], from: usize) -> (r: Option<usize>)
    requires
        from <= s@.len(),
    ensures
        match r {
            Some(p) => from <= p < s@.len() && pipe_at(s@.skip(from as int)) == p - from,
            None => pipe_at(s@.skip(from as int)) == -1,
        },
{
    let ghost t = s@.skip(from as int);
    let ghost q = is_pipe(t);
    let mut j = from;
    while j < s.len()
        invariant
            t == s@.skip(from as int),
            q == is_pipe(t),
            from <= j <= s@.len(),
            first_where(j - from, q) == -1,
        decreases s@.len() - j,
    {
        if s[j] == '|' {
            proof {
                assert(q(j - from));
                lemma_first_where_extend(t.len() as int, j - from, q);
            }
            return Some(j);
        }
        j = j + 1;
    }
    None
}

/// The highlighted spans of one Mermaid source line.
pub fn colorize_line(line: &str) -> (r: Vec<MermaidSpan>)
    ensures
        spans_view(r@) == colorize_spec(line@),
        concat_texts(spans_view(r@)) == line@,
{
    let cs = chars_of(line);
    let ghost s = cs@;
    let mut spans: Vec<MermaidSpan> = Vec::new();
    let mut start: usize = 0;
    assert(s.skip(0) =~= s);
    assert(spans_view(spans@) + colorize_rest(s.skip(0)) =~= colorize_rest(s));
    while start < cs.len()
        invariant
            s == cs@,
            start <= s.len(),
            spans_view(spans@) + colorize_rest(s.skip(start as int)) == colorize_rest(s),
        ensures
            spans_view(spans@) == colorize_rest(s),
        decreases s.len() - start,
    {
        let ghost rest = s.skip(start as int);
        let ghost before = spans_view(spans@);
        let pos = match find_pipe(cs.as_slice(), start) {
            Some(p) => p,
            None => {
                let seg = sub_chars(cs.as_slice(), start, cs.len());
                proof {
                    lemma_first_where(rest.len() as int, is_pipe(rest));
                    assert(seg@ =~= rest);
                    assert forall|k: int| 0 <= k < seg@.len() implies #[trigger] seg@[k] != '|' by {
                        assert(!is_pipe(rest)(k));
                    }
                }
                tokenize_segment(seg.as_slice(), &mut spans);
                start = cs.len();
                proof {
                    assert(colorize_rest(rest) == tokenize(seg@));
                    assert(spans_view(spans@) =~= colorize_rest(s));
                }
                break;
            },
        };
        proof {
            lemma_first_where(rest.len() as int, is_pipe(rest));
        }
        let seg = sub_chars(cs.as_slice(), start, pos);
        proof {
            assert(seg@ =~= rest.take(pos - start));
            assert forall|k: int| 0 <= k < seg@.len() implies #[trigger] seg@[k] != '|' by {
                assert(!is_pipe(rest)(k));
            }
        }
        tokenize_segment(seg.as_slice(), &mut spans);
        let ghost after = rest.skip(pos - start + 1);
        assert(after =~= s.skip(pos + 1));
        match find_pipe(cs.as_slice(), pos + 1) {
            Some(end) => {
                proof {
                    lemma_first_where(after.len() as int, is_pipe(after));
                }
                let mut label: Vec<char> = Vec::new();
                label.push('|');
                let inner = sub_chars(cs.as_slice(), pos + 1, end);
                let mut k: usize = 0;
                while k < inner.len()
                    invariant
                        k <= inner@.len(),
                        label@ == seq!['|'] + inner@.take(k as int),
                    decreases inner@.len() - k,
                {
                    label.push(inner[k]);
                    assert(seq!['|'] + inner@.take(k + 1) =~= (seq!['|'] + inner@.take(k as int)).push(inner@[k as int]));
                    k = k + 1;
                }
                label.push('|');
                proof {
                    assert(inner@ =~= after.take(end - (pos + 1)));
                    assert(inner@.take(inner@.len() as int) =~= inner@);
                }
                push_span(&mut spans, label.as_slice(), MermaidRole::Label);
                start = end + 1;
                proof {
                    assert(after.skip(end - (pos + 1) + 1) =~= s.skip(start as int));
                    assert(label@ =~= seq!['|'] + after.take(end - (pos + 1)) + seq!['|']);
                    let lab = seq![(label@, MermaidRole::Label)];
                    assert(colorize_rest(rest) == tokenize(seg@) + lab + colorize_rest(s.skip(start as int)));
                    assert(spans_view(spans@) =~= before + tokenize(seg@) + lab);
                    assert(spans_view(spans@) + colorize_rest(s.skip(start as int)) =~= before + colorize_rest(rest));
                }
            },
            None => {
                let bar = vec!['|'];
                push_span(&mut spans, bar.as_slice(), MermaidRole::Plain);
                start = pos + 1;
                proof {
                    let b1 = seq![(seq!['|'], MermaidRole::Plain)];
                    assert(bar@ =~= seq!['|']);
                    assert(colorize_rest(rest) == tokenize(seg@) + b1 + colorize_rest(s.skip(start as int)));
                    assert(spans_view(spans@) =~= before + tokenize(seg@) + b1);
                    assert(spans_view(spans@) + colorize_rest(s.skip(start as int)) =~= before + colorize_rest(rest));
                }
            },
        }
    }
    proof {
        lemma_colorize_spells(s);
    }
    if spans.len() == 0 {
        let ghost before = spans@;
        spans.push(MermaidSpan { text: string_from_chars(cs.as_slice()), role: MermaidRole::Plain });
        assert(spans_view(spans@) =~= seq![(s, MermaidRole::Plain)]);
    }
    spans
}

/// How a document diagram is drawn.
#[derive(Clone, Copy, Debug, PartialEq, Eq, Structural)]
pub enum MermaidKind {
    /// A pie chart, drawn as bars.
    Pie,
    /// Anything else, laid out by the engine.
    Engine,
}

pub open spec fn is_ws_at(s: Seq<char>) -> spec_fn(int) -> bool {
    |i: int| crate::text::is_ws(s[i])
}

/// The first whitespace-separated word of a trimmed text.
pub open spec fn first_word(t: Seq<char>) -> Seq<char> {
    let k = first_where(t.len() as int, is_ws_at(t));
    if k >= 0 {
        t.take(k)
    } else {
        t
    }
}

/// What to do with a diagram source before any layout: refuse one beyond
/// the engine's input limit or an empty one, draw `pie` charts directly,
/// lay out the rest.
pub open spec fn precheck_spec(content: Seq<char>, max_source_bytes: usize) -> Result<MermaidKind, Seq<char>> {
    if crate::text::byte_len(content) > max_source_bytes {
        Err("Mermaid source exceeds the input limit"@)
    } else if crate::text::trim_spec(content).len() == 0 {
        Err("Empty Mermaid diagram"@)
    } else if first_word(crate::text::trim_spec(content)) == "pie"@ {
        Ok(MermaidKind::Pie)
    } else {
        Ok(MermaidKind::Engine)
    }
}

pub fn mermaid_precheck(content: &str, max_source_bytes: usize) -> (r: Result<MermaidKind, String>)
    ensures
        match precheck_spec(content@, max_source_bytes) {
            Ok(k) => r == Ok::<MermaidKind, String>(k),
            Err(e) => r matches Err(m) && m@ == e,
        },
{
    let owned = String::from_str(content);
    if crate::text::string_byte_len(&owned) > max_source_bytes {
        return Err(String::from_str("Mermaid source exceeds the input limit"));
    }
    let t = crate::text::trim_str(content);
    if t.len() == 0 {
        return Err(String::from_str("Empty Mermaid diagram"));
    }
    let ghost p = is_ws_at(t@);
    let mut k: usize = 0;
    while k < t.len() && !crate::text::is_whitespace(t[k])
        invariant
            p == is_ws_at(t@),
            k <= t@.len(),
            first_where(k as int, p) == -1,
        decreases t@.len() - k,
    {
        k = k + 1;
    }
    proof {
        if k < t@.len() {
            assert(p(k as int));
            lemma_first_where_extend(t@.len() as int, k as int, p);
        } else {
            lemma_first_where(t@.len() as int, p);
            assert(t@.take(k as int) =~= t@);
        }
    }
    let word = sub_chars(t.as_slice(), 0, k);
    assert(word@ =~= t@.take(k as int));
    if is_lit(word.as_slice(), "pie") {
        Ok(MermaidKind::Pie)
    } else {
        Ok(MermaidKind::Engine)
    }
}

} // verus!
