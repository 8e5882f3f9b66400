//! Bookkeeping that ties rendered lines back to the Markdown source:
//! logical line numbers, source lines, code block positions and byte
//! offsets of source lines; and the small pieces of text around headings
//! and block quotes.
use vstd::prelude::*;
use crate::diagrams::{first_where, lemma_first_where, lemma_first_where_extend};
use crate::text::{chars_of, display_width, is_ws, unicode_width_of};
use crate::mermaid_block::{repeat_char, repeated};
use std::hash::{Hash, Hasher};
use vstd::string::StringSliceAdditionalSpecFns;

verus! {

/// Per rendered line: its logical line number (wrapped continuations share
/// one) and the source line it came from.
#[derive(Debug)]
pub struct LineMapState {
    pub line_number_map: Vec<usize>,
    pub source_line_map: Vec<usize>,
    pub logical: usize,
    pub current_src_line: usize,
}

impl LineMapState {
    /// Both maps cover the same lines, and logical numbers never decrease
    /// and never pass the running count.
    pub open spec fn wf(&self) -> bool {
        &&& self.line_number_map@.len() == self.source_line_map@.len()
        &&& forall|i: int, j: int|
            0 <= i <= j < self.line_number_map@.len() ==> self.line_number_map@[i]
                <= self.line_number_map@[j]
        &&& forall|i: int| 0 <= i < self.line_number_map@.len() ==> self.line_number_map@[i] <= self.logical
    }

    pub fn new() -> (r: LineMapState)
        ensures
            r.wf(),
            r.line_number_map@.len() == 0,
            r.source_line_map@.len() == 0,
            r.logical == 0,
            r.current_src_line == 1,
    {
        LineMapState { line_number_map: Vec::new(), source_line_map: Vec::new(), logical: 0, current_src_line: 1 }
    }

    /// Records one more rendered line; a new logical line advances the count.
    pub fn push(&mut self, is_new: bool)
        requires
            old(self).wf(),
            is_new ==> old(self).logical < usize::MAX,
        ensures
            final(self).wf(),
            final(self).logical == if is_new { old(self).logical + 1 } else { old(self).logical as int },
            final(self).line_number_map@ == old(self).line_number_map@.push(final(self).logical),
            final(self).source_line_map@ == old(self).source_line_map@.push(old(self).current_src_line),
            final(self).current_src_line == old(self).current_src_line,
    {
        if is_new {
            self.logical = self.logical + 1;
        }
        self.line_number_map.push(self.logical);
        self.source_line_map.push(self.current_src_line);
    }

    /// Records lines up to `to` as new logical lines each.
    pub fn mark_all_new(&mut self, to: usize)
        requires
            old(self).wf(),
            old(self).logical + to <= usize::MAX,
        ensures
            final(self).wf(),
            old(self).line_number_map@.len() >= to ==> *final(self) == *old(self),
            old(self).line_number_map@.len() < to ==> {
                let n = to - old(self).line_number_map@.len();
                &&& final(self).logical == old(self).logical + n
                &&& final(self).line_number_map@ == old(self).line_number_map@ + Seq::new(
                    n as nat,
                    |k: int| (old(self).logical + k + 1) as usize,
                )
                &&& final(self).source_line_map@ == old(self).source_line_map@ + Seq::new(
                    n as nat,
                    |k: int| old(self).current_src_line,
                )
                &&& final(self).current_src_line == old(self).current_src_line
            },
    {
        let ghost start = self.line_number_map@.len();
        let ghost l0 = self.logical;
        while self.line_number_map.len() < to
            invariant
                self.wf(),
                start == old(self).line_number_map@.len(),
                l0 == old(self).logical,
                l0 + to <= usize::MAX,
                start < to ==> start <= self.line_number_map@.len() <= to,
                start >= to ==> *self == *old(self),
                self.logical == l0 + (self.line_number_map@.len() - start),
                self.current_src_line == old(self).current_src_line,
                start <= self.line_number_map@.len() ==> self.line_number_map@ == old(self).line_number_map@ + Seq::new(
                    (self.line_number_map@.len() - start) as nat,
                    |k: int| (l0 + k + 1) as usize,
                ),
                start <= self.line_number_map@.len() ==> self.source_line_map@ == old(self).source_line_map@ + Seq::new(
                    (self.line_number_map@.len() - start) as nat,
                    |k: int| old(self).current_src_line,
                ),
            decreases to - self.line_number_map@.len(),
        {
            let ghost before = *self;
            self.push(true);
            proof {
                let n = (self.line_number_map@.len() - start) as nat;
                assert(self.line_number_map@ =~= old(self).line_number_map@ + Seq::new(
                    n,
                    |k: int| (l0 + k + 1) as usize,
                ));
                assert(self.source_line_map@ =~= old(self).source_line_map@ + Seq::new(
                    n,
                    |k: int| old(self).current_src_line,
                ));
            }
        }
    }

    /// Drops the records of lines from `to` on.
    pub fn truncate(&mut self, to: usize)
        requires
            old(self).wf(),
        ensures
            final(self).wf(),
            final(self).line_number_map@ == if to < old(self).line_number_map@.len() {
                old(self).line_number_map@.take(to as int)
            } else {
                old(self).line_number_map@
            },
            final(self).source_line_map@ == if to < old(self).source_line_map@.len() {
                old(self).source_line_map@.take(to as int)
            } else {
                old(self).source_line_map@
            },
            final(self).logical == old(self).logical,
            final(self).current_src_line == old(self).current_src_line,
    {
        self.line_number_map.truncate(to);
        self.source_line_map.truncate(to);
    }
}

/// Byte offsets at which the lines of `bytes` start: 0 and every offset
/// just after a newline.
pub open spec fn line_starts(bytes: Seq<u8>) -> Seq<usize>
    decreases bytes.len(),
{
    if bytes.len() == 0 {
        seq![0usize]
    } else {
        let r = line_starts(bytes.drop_last());
        if bytes.last() == 10u8 {
            r.push(bytes.len() as usize)
        } else {
            r
        }
    }
}

/// Start offsets of the lines of `s`, in bytes.
pub fn compute_line_starts(s: &str) -> (r: Vec<usize>)
    ensures
        r@ == line_starts(s.spec_bytes()),
{
    let bytes = s.as_bytes();
    let mut starts: Vec<usize> = Vec::new();
    starts.push(0);
    let mut i: usize = 0;
    assert(bytes@.take(0) =~= seq![]);
    while i < bytes.len()
        invariant
            bytes@ == s.spec_bytes(),
            i <= bytes@.len(),
            starts@ == line_starts(bytes@.take(i as int)),
        decreases bytes@.len() - i,
    {
        assert(bytes@.take(i + 1).drop_last() =~= bytes@.take(i as int));
        if bytes[i] == 10u8 {
            starts.push(i + 1);
        }
        i = i + 1;
    }
    assert(bytes@.take(bytes@.len() as int) =~= bytes@);
    starts
}

/// Starts beyond `offset`.
pub open spec fn starts_after(starts: Seq<usize>, offset: usize) -> spec_fn(int) -> bool {
    |i: int| starts[i] > offset
}

/// The 1-based line holding byte `offset`: the number of line starts at or
/// before it, at least 1.
pub open spec fn line_of_offset(starts: Seq<usize>, offset: usize) -> usize {
    let k = first_where(starts.len() as int, starts_after(starts, offset));
    let n = if k >= 0 {
        k
    } else {
        starts.len() as int
    };
    if n > 1 {
        n as usize
    } else {
        1
    }
}

/// The line number of a byte offset, given the sorted line starts.
pub fn byte_to_line(line_starts: &[usize], offset: usize) -> (r: usize)
    requires
        forall|i: int, j: int|
            0 <= i < j < line_starts@.len() && line_starts@[j] <= offset ==> line_starts@[i] <= offset,
    ensures
        r == line_of_offset(line_starts@, offset),
{
    let ghost p = starts_after(line_starts@, offset);
    let mut i: usize = 0;
    while i < line_starts.len()
        invariant
            p == starts_after(line_starts@, offset),
            i <= line_starts@.len(),
            first_where(i as int, p) == -1,
        decreases line_starts@.len() - i,
    {
        if line_starts[i] > offset {
            proof {
                assert(p(i as int));
                lemma_first_where_extend(line_starts@.len() as int, i as int, p);
            }
            return if i > 1 {
                i
            } else {
                1
            };
        }
        i = i + 1;
    }
    proof {
        lemma_first_where(line_starts@.len() as int, p);
    }
    if i > 1 {
        i
    } else {
        1
    }
}

/// What the hasher of `std::collections::hash_map::DefaultHasher` gives for
/// a string.
pub uninterp spec fn default_hash(s: Seq<char>) -> u64;

/// `str::hash` fed to a fresh `DefaultHasher::new()`, then `finish()`. Every
/// `DefaultHasher::new()` starts from the same keys, so the result depends
/// on the text alone within one build; std does not promise it across Rust
/// releases, and the contract only names the result.
#[verifier::external_body]
fn default_hash_of(text: &str) -> (r: u64)
    ensures
        r == default_hash(text@),
{
    let mut hasher = std::collections::hash_map::DefaultHasher::new();
    text.hash(&mut hasher);
    hasher.finish()
}

/// A fingerprint of the document text, to notice real changes on reload.
pub fn hash_str(text: &str) -> (r: u64)
    ensures
        r == default_hash(text@),
{
    default_hash_of(text)
}

/// Width of a horizontal rule: the width left after the indent, at least 8.
pub open spec fn spec_rule_width(render_width: usize, indent: usize) -> usize {
    if render_width >= indent && render_width - indent > 8 {
        (render_width - indent) as usize
    } else {
        8
    }
}

pub fn rule_width(render_width: usize, indent: usize) -> (r: usize)
    ensures
        r == spec_rule_width(render_width, indent),
{
    let rest = if render_width >= indent {
        render_width - indent
    } else {
        0
    };
    if rest > 8 {
        rest
    } else {
        8
    }
}

/// Where a block sits in its rendered line: the prefix before it and its
/// own width.
#[derive(Clone, Copy, Debug, PartialEq, Eq, Structural)]
pub struct BlockLayout {
    pub prefix_width: usize,
    pub rendered_width: usize,
}

/// A rendered code block, for selection and copying.
#[derive(Debug)]
pub struct CodeBlockInfo {
    pub rendered_start: usize,
    pub rendered_end: usize,
    pub rendered_offset: usize,
    pub rendered_width: usize,
    pub raw_content: String,
}

/// Records a code block that occupies at least one rendered line.
pub fn record_code_block(
    code_blocks: &mut Vec<CodeBlockInfo>,
    raw_content: String,
    rendered_start: usize,
    rendered_end: usize,
    layout: BlockLayout,
)
    ensures
        rendered_end < rendered_start ==> final(code_blocks)@ == old(code_blocks)@,
        rendered_end >= rendered_start ==> final(code_blocks)@ == old(code_blocks)@.push(
            CodeBlockInfo {
                rendered_start,
                rendered_end,
                rendered_offset: layout.prefix_width,
                rendered_width: layout.rendered_width,
                raw_content,
            },
        ),
{
    if rendered_end < rendered_start {
        return;
    }
    code_blocks.push(
        CodeBlockInfo {
            rendered_start,
            rendered_end,
            rendered_offset: layout.prefix_width,
            rendered_width: layout.rendered_width,
            raw_content,
        },
    );
}

/// A blockquote gap line: not empty and only bar marks and whitespace.
pub open spec fn blockquote_blank(plain: Seq<char>) -> bool {
    plain.len() > 0 && forall|i: int| 0 <= i < plain.len() ==> (#[trigger] plain[i] == '▏' || is_ws(plain[i]))
}

pub fn is_blockquote_blank_text(plain: &str) -> (r: bool)
    ensures
        r == blockquote_blank(plain@),
{
    let cs = chars_of(plain);
    if cs.len() == 0 {
        return false;
    }
    let mut i: usize = 0;
    while i < cs.len()
        invariant
            cs@ == plain@,
            i <= cs@.len(),
            forall|k: int| 0 <= k < i ==> (#[trigger] cs@[k] == '▏' || is_ws(cs@[k])),
        decreases cs@.len() - i,
    {
        if !(cs[i] == '▏' || crate::text::is_whitespace(cs[i])) {
            return false;
        }
        i = i + 1;
    }
    true
}

/// The rule under a heading: double for level 1, single for level 2, as
/// wide as the title but no wider than a rule; none for other levels.
pub open spec fn heading_underline_spec(level: u8, title: Seq<char>, render_width: usize) -> Option<Seq<char>> {
    let n = if unicode_width_of(title) < spec_rule_width(render_width, 0) {
        unicode_width_of(title)
    } else {
        spec_rule_width(render_width, 0)
    };
    if level == 1 {
        Some(repeated('═', n as nat))
    } else if level == 2 {
        Some(repeated('─', n as nat))
    } else {
        None
    }
}

/// The rule under a heading of `level` titled `title`.
pub fn heading_underline(level: u8, title: &str, render_width: usize) -> (r: Option<String>)
    ensures
        match heading_underline_spec(level, title@, render_width) {
            Some(u) => r matches Some(t) && t@ == u,
            None => r is None,
        },
{
    if level != 1 && level != 2 {
        return None;
    }
    let w = display_width(title);
    let rule = rule_width(render_width, 0);
    let n = if w < rule { w } else { rule };
    Some(repeat_char(if level == 1 { '═' } else { '─' }, n))
}

/// The marker of each enclosing block quote.
pub const BLOCKQUOTE_MARKER: &'static str = "▏ ";

/// The text before a line nested `depth` block quotes deep.
pub open spec fn blockquote_prefix_spec(depth: nat) -> Seq<char>
    decreases depth,
{
    if depth == 0 {
        seq![]
    } else {
        blockquote_prefix_spec((depth - 1) as nat) + BLOCKQUOTE_MARKER@
    }
}

/// The text before a line nested `depth` block quotes deep.
pub fn blockquote_prefix(depth: usize) -> (r: String)
    ensures
        r@ == blockquote_prefix_spec(depth as nat),
{
    let mut out = String::new();
    let mut i: usize = 0;
    while i < depth
        invariant
            i <= depth,
            out@ == blockquote_prefix_spec(i as nat),
        decreases depth - i,
    {
        out.append(BLOCKQUOTE_MARKER);
        i = i + 1;
    }
    out
}

/// The kinds of GitHub alert block quotes.
#[derive(Clone, Copy, Debug, PartialEq, Eq, Structural)]
pub enum AlertKind {
    Note,
    Tip,
    Important,
    Warning,
    Caution,
}

/// The icon and label that open an alert block quote.
pub fn alert_icon_label(kind: AlertKind) -> (r: (&'static str, &'static str))
    ensures
        r.0@ == match kind {
            AlertKind::Note => "[i]"@,
            AlertKind::Tip => "[*]"@,
            AlertKind::Important => "[!]"@,
            AlertKind::Warning => "[!]"@,
            AlertKind::Caution => "[x]"@,
        },
        r.1@ == match kind {
            AlertKind::Note => "Note"@,
            AlertKind::Tip => "Tip"@,
            AlertKind::Important => "Important"@,
            AlertKind::Warning => "Warning"@,
            AlertKind::Caution => "Caution"@,
        },
{
    match kind {
        AlertKind::Note => ("[i]", "Note"),
        AlertKind::Tip => ("[*]", "Tip"),
        AlertKind::Important => ("[!]", "Important"),
        AlertKind::Warning => ("[!]", "Warning"),
        AlertKind::Caution => ("[x]", "Caution"),
    }
}

} // verus!
