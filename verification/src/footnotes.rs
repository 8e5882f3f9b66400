//! Footnote numbering: references are numbered in order of first use,
//! definitions nobody refers to follow them in order of definition. And
//! the text around the notes section: its heading and each note's marker.
use vstd::prelude::*;
use crate::names::{contains_name, distinct_names};
use crate::numbers::{decimal, decimal_chars};
use crate::text::{display_width, string_from_chars, strings_view, unicode_width_of};
use crate::mermaid_block::{repeat_char, repeated};
use crate::width::spaces;

verus! {

/// The superscript form of a decimal digit.
pub open spec fn superscript_digit(c: char) -> char {
    if c == '0' {
        '⁰'
    } else if c == '1' {
        '¹'
    } else if c == '2' {
        '²'
    } else if c == '3' {
        '³'
    } else if c == '4' {
        '⁴'
    } else if c == '5' {
        '⁵'
    } else if c == '6' {
        '⁶'
    } else if c == '7' {
        '⁷'
    } else if c == '8' {
        '⁸'
    } else {
        '⁹'
    }
}

fn superscript_char(c: char) -> (r: char)
    ensures
        r == superscript_digit(c),
{
    if c == '0' {
        '⁰'
    } else if c == '1' {
        '¹'
    } else if c == '2' {
        '²'
    } else if c == '3' {
        '³'
    } else if c == '4' {
        '⁴'
    } else if c == '5' {
        '⁵'
    } else if c == '6' {
        '⁶'
    } else if c == '7' {
        '⁷'
    } else if c == '8' {
        '⁸'
    } else {
        '⁹'
    }
}

/// `n` written with superscript digits.
pub fn to_superscript(n: usize) -> (r: String)
    ensures
        r@ == decimal(n as nat).map_values(|c: char| superscript_digit(c)),
{
    let ds = decimal_chars(n);
    let mut out: Vec<char> = Vec::new();
    let mut i: usize = 0;
    while i < ds.len()
        invariant
            i <= ds@.len(),
            out@ == ds@.take(i as int).map_values(|c: char| superscript_digit(c)),
        decreases ds@.len() - i,
    {
        out.push(superscript_char(ds[i]));
        assert(ds@.take(i + 1).map_values(|c: char| superscript_digit(c)) =~= ds@.take(i as int).map_values(
            |c: char| superscript_digit(c),
        ).push(superscript_digit(ds@[i as int])));
        i = i + 1;
    }
    assert(ds@.take(ds@.len() as int) =~= ds@);
    string_from_chars(out.as_slice())
}

/// Labels in order of first reference, and defined labels in order of
/// first definition.
#[derive(Debug)]
pub struct FootnoteNumbers {
    pub refs_order: Vec<String>,
    pub defs_order: Vec<String>,
}

/// Defined labels that nobody refers to, in order.
pub open spec fn unreferenced(defs: Seq<Seq<char>>, refs: Seq<Seq<char>>) -> Seq<Seq<char>>
    decreases defs.len(),
{
    if defs.len() == 0 {
        seq![]
    } else {
        let rest = unreferenced(defs.drop_last(), refs);
        if refs.contains(defs.last()) {
            rest
        } else {
            rest.push(defs.last())
        }
    }
}

/// The labels in numbering order: the number of `order()[k]` is `k + 1`.
pub open spec fn note_order_spec(refs: Seq<Seq<char>>, defs: Seq<Seq<char>>) -> Seq<Seq<char>> {
    refs + unreferenced(defs, refs)
}

impl FootnoteNumbers {
    /// Each label is listed once in each order.
    pub open spec fn wf(&self) -> bool {
        distinct_names(strings_view(self.refs_order@)) && distinct_names(strings_view(self.defs_order@))
    }

    pub fn new() -> (r: FootnoteNumbers)
        ensures
            r.wf(),
            r.refs_order@.len() == 0,
            r.defs_order@.len() == 0,
    {
        FootnoteNumbers { refs_order: Vec::new(), defs_order: Vec::new() }
    }

    /// The number of a reference: its label's number when already used,
    /// otherwise the next one.
    pub fn register_reference(&mut self, label: &String) -> (n: usize)
        requires
            old(self).wf(),
            old(self).refs_order@.len() < usize::MAX,
        ensures
            final(self).wf(),
            final(self).defs_order == old(self).defs_order,
            strings_view(old(self).refs_order@).contains(label@) ==> {
                &&& final(self).refs_order == old(self).refs_order
                &&& 1 <= n <= old(self).refs_order@.len()
                &&& strings_view(old(self).refs_order@)[n - 1] == label@
            },
            !strings_view(old(self).refs_order@).contains(label@) ==> {
                &&& strings_view(final(self).refs_order@) == strings_view(old(self).refs_order@).push(label@)
                &&& n == old(self).refs_order@.len() + 1
            },
    {
        let ghost view = strings_view(self.refs_order@);
        let mut i: usize = 0;
        while i < self.refs_order.len()
            invariant
                *self == *old(self),
                self.wf(),
                view == strings_view(self.refs_order@),
                i <= view.len(),
                forall|k: int| 0 <= k < i ==> view[k] != label@,
            decreases view.len() - i,
        {
            if self.refs_order[i] == *label {
                assert(view[i as int] == label@);
                return i + 1;
            }
            i = i + 1;
        }
        let ghost before = self.refs_order@;
        self.refs_order.push(label.clone());
        proof {
            assert(strings_view(self.refs_order@) =~= view.push(label@));
            assert(!view.contains(label@));
        }
        self.refs_order.len()
    }

    /// Records a definition of `label`; a repeated label keeps its place.
    pub fn record_definition(&mut self, label: &String)
        requires
            old(self).wf(),
        ensures
            final(self).wf(),
            final(self).refs_order == old(self).refs_order,
            strings_view(final(self).defs_order@) == crate::names::insert_name(
                strings_view(old(self).defs_order@),
                label@,
            ),
    {
        proof {
            crate::names::lemma_insert_name(strings_view(self.defs_order@), label@);
        }
        crate::names::insert_names(&mut self.defs_order, label);
    }

    /// Labels with their numbers, in the order the notes are listed.
    pub fn numbered_notes(&self) -> (r: Vec<(String, usize)>)
        requires
            self.refs_order@.len() + self.defs_order@.len() <= usize::MAX,
        ensures
            r@.len() == note_order_spec(strings_view(self.refs_order@), strings_view(self.defs_order@)).len(),
            forall|k: int|
                0 <= k < r@.len() ==> (#[trigger] r@[k]).0@ == note_order_spec(
                    strings_view(self.refs_order@),
                    strings_view(self.defs_order@),
                )[k] && r@[k].1 == k + 1,
    {
        let ghost refs = strings_view(self.refs_order@);
        let ghost defs = strings_view(self.defs_order@);
        let mut out: Vec<(String, usize)> = Vec::new();
        let mut i: usize = 0;
        while i < self.refs_order.len()
            invariant
                refs == strings_view(self.refs_order@),
                i <= refs.len(),
                out@.len() == i,
                forall|k: int| 0 <= k < i ==> (#[trigger] out@[k]).0@ == refs[k] && out@[k].1 == k + 1,
            decreases refs.len() - i,
        {
            out.push((self.refs_order[i].clone(), i + 1));
            i = i + 1;
        }
        let mut j: usize = 0;
        proof {
            lemma_unreferenced_len(defs, refs);
        }
        while j < self.defs_order.len()
            invariant
                refs == strings_view(self.refs_order@),
                defs == strings_view(self.defs_order@),
                j <= defs.len(),
                refs.len() + defs.len() <= usize::MAX,
                unreferenced(defs.take(j as int), refs).len() <= j,
                out@.len() == refs.len() + unreferenced(defs.take(j as int), refs).len(),
                forall|k: int|
                    0 <= k < out@.len() ==> (#[trigger] out@[k]).0@ == (refs + unreferenced(
                        defs.take(j as int),
                        refs,
                    ))[k] && out@[k].1 == k + 1,
            decreases defs.len() - j,
        {
            assert(defs.take(j + 1).drop_last() =~= defs.take(j as int));
            let referenced = contains_name(&self.refs_order, &self.defs_order[j]);
            if !referenced {
                let n = out.len() + 1;
                out.push((self.defs_order[j].clone(), n));
                assert((refs + unreferenced(defs.take(j + 1), refs)) =~= (refs + unreferenced(
                    defs.take(j as int),
                    refs,
                )).push(defs[j as int]));
            } else {
                assert(unreferenced(defs.take(j + 1), refs) == unreferenced(defs.take(j as int), refs));
            }
            j = j + 1;
        }
        assert(defs.take(defs.len() as int) =~= defs);
        out
    }
}

pub proof fn lemma_unreferenced_len(defs: Seq<Seq<char>>, refs: Seq<Seq<char>>)
    ensures
        unreferenced(defs, refs).len() <= defs.len(),
    decreases defs.len(),
{
    if defs.len() > 0 {
        lemma_unreferenced_len(defs.drop_last(), refs);
    }
}

/// The heading of the notes section.
pub const NOTES_TITLE: &'static str = "Notes";

/// The heading of the notes section and its underline, as wide as the
/// heading.
pub fn notes_heading() -> (r: (String, String))
    ensures
        r.0@ == NOTES_TITLE@,
        r.1@ == repeated('─', unicode_width_of(NOTES_TITLE@) as nat),
{
    let rule = repeat_char('─', display_width(NOTES_TITLE));
    (String::from_str(NOTES_TITLE), rule)
}

/// The marker before a note's first line: its number in superscript and a
/// blank.
pub open spec fn note_marker(number: usize) -> Seq<char> {
    decimal(number as nat).map_values(|c: char| superscript_digit(c)) + " "@
}

/// The marker before note `number`'s first line, and the blanks that
/// indent its other lines by the marker's width.
pub fn note_prefix(number: usize) -> (r: (String, String))
    ensures
        r.0@ == note_marker(number),
        r.1@ == spaces(unicode_width_of(note_marker(number)) as nat),
{
    let mut marker = to_superscript(number);
    marker.append(" ");
    let indent = repeat_char(' ', display_width(marker.as_str()));
    assert(indent@ =~= spaces(unicode_width_of(note_marker(number)) as nat));
    (marker, indent)
}

} // verus!
