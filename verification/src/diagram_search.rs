//! The viewer's incremental search over the full object catalog. A hit
//! that the current view hides is revealed by expanding its groups.
use vstd::prelude::*;
use crate::diagram_model::{CatalogObject, ObjectKind, ViewOptions};
use crate::diagram_nav::{cycle_index, position_of};
use crate::diagrams::{
    centered, entry_matches, first_index, lemma_first_index, matching_indices, query_of, requested,
    same_outside_viewer, App, DiagramState, DiagramViewer,
};
use crate::names::{insert_name, insert_names, remove_name, remove_names};
use crate::text::{byte_len, chars_of, clone_strings, push_char, string_byte_len, string_from_chars, strings_view, sub_chars};
use vstd::string::StringExecFns;

verus! {

/// Feedback when confirming a search that matches nothing.
pub const NO_SEARCH_MATCH: &'static str = "No matching diagram node or group";

/// Longest search query accepted, in bytes.
pub const MAX_QUERY_BYTES: usize = 1024;

/// The application with `v` as its open viewer.
pub open spec fn with_viewer(a: App, v: DiagramViewer) -> App {
    App { diagrams: DiagramState { viewer: Some(v), ..a.diagrams }, ..a }
}

/// The query after typing `c`, or deleting the last character for `None`.
pub open spec fn edited_query(q: Seq<char>, c: Option<char>) -> Seq<char> {
    match c {
        Some(ch) => if byte_len(q) < MAX_QUERY_BYTES {
            q.push(ch)
        } else {
            q
        },
        None => if q.len() > 0 {
            q.drop_last()
        } else {
            q
        },
    }
}

/// The search position after stepping forwards or backwards, wrapping.
pub open spec fn moved_search(v: DiagramViewer, backwards: bool) -> DiagramViewer {
    match v.output {
        Some(o) => {
            let n = matching_indices(o.catalog@, query_of(v.search)).len() as int;
            if n > 0 {
                DiagramViewer {
                    search_index: (if backwards {
                        (v.search_index + n - 1) % n
                    } else {
                        (v.search_index + 1) % n
                    }) as usize,
                    ..v
                }
            } else {
                v
            }
        },
        None => v,
    }
}

/// The catalog entry the current search position points at.
pub open spec fn search_hit(v: DiagramViewer) -> Option<CatalogObject> {
    match v.output {
        Some(o) => {
            let ms = matching_indices(o.catalog@, query_of(v.search));
            if v.search_index < ms.len() {
                Some(o.catalog@[ms[v.search_index as int] as int])
            } else {
                None
            }
        },
        None => None,
    }
}

/// Whether the current view draws the object with the entry's identity.
pub open spec fn hit_visible(v: DiagramViewer, entry: CatalogObject) -> bool {
    match v.output {
        Some(o) => first_index(o.objects@, entry.id@) >= 0,
        None => false,
    }
}

/// Groups to expand to reveal an entry: its ancestors, then itself when it
/// is a group.
pub open spec fn reveal_targets(entry: CatalogObject) -> Seq<Seq<char>> {
    strings_view(entry.ancestors@) + if entry.id.kind == ObjectKind::Subgraph {
        seq![entry.id.id@]
    } else {
        seq![]
    }
}

/// Collapsed and expanded groups after expanding each of `names` in turn.
pub open spec fn reveal_names(c: Seq<Seq<char>>, e: Seq<Seq<char>>, names: Seq<Seq<char>>) -> (
    Seq<Seq<char>>,
    Seq<Seq<char>>,
)
    decreases names.len(),
{
    if names.len() == 0 {
        (c, e)
    } else {
        let (c1, e1) = reveal_names(c, e, names.drop_last());
        (remove_name(c1, names.last()), insert_name(e1, names.last()))
    }
}

/// `new` is `old` with the entry's groups expanded and focus dropped.
pub open spec fn revealed(old: ViewOptions, new: ViewOptions, entry: CatalogObject) -> bool {
    let (c, e) = reveal_names(
        strings_view(old.collapsed@),
        strings_view(old.expanded@),
        reveal_targets(entry),
    );
    &&& new == ViewOptions { collapsed: new.collapsed, expanded: new.expanded, focus: None, ..old }
    &&& strings_view(new.collapsed@) == c
    &&& strings_view(new.expanded@) == e
}

/// The state after confirming a search: no hit leaves feedback; a drawn
/// hit is selected and centred; a hidden hit is selected, its groups are
/// expanded and one new layout is requested.
pub open spec fn search_confirmed(old: App, new: App) -> bool {
    match old.diagrams.viewer {
        None => new == old,
        Some(v) => match search_hit(v) {
            None => {
                &&& new.diagrams.viewer matches Some(f)
                &&& f == DiagramViewer { feedback: f.feedback, ..v }
                &&& (f.feedback matches Some(m) && m@ == NO_SEARCH_MATCH@)
                &&& same_outside_viewer(new, old)
            },
            Some(entry) => {
                let v1 = DiagramViewer { selected: Some(entry.id), search: None, source_mode: false, ..v };
                if hit_visible(v, entry) {
                    &&& new.diagrams.viewer == Some(centered(v1))
                    &&& same_outside_viewer(new, old)
                } else {
                    &&& new.diagrams.viewer matches Some(f)
                    &&& revealed(v.view, f.view, entry)
                    &&& requested(
                        with_viewer(old, DiagramViewer { view: f.view, center_after_render: true, ..v1 }),
                        new,
                    )
                }
            },
        },
    }
}

pub proof fn lemma_matching_indices(catalog: Seq<CatalogObject>, query: Seq<char>)
    ensures
        forall|k: int|
            0 <= k < matching_indices(catalog, query).len() ==> #[trigger] matching_indices(
                catalog,
                query,
            )[k] < catalog.len(),
    decreases catalog.len(),
{
    if catalog.len() > 0 {
        let rest = matching_indices(catalog.drop_last(), query);
        lemma_matching_indices(catalog.drop_last(), query);
        let ms = matching_indices(catalog, query);
        assert forall|k: int| 0 <= k < ms.len() implies #[trigger] ms[k] < catalog.len() by {
            if k < rest.len() {
                assert(ms[k] == rest[k]);
            }
        }
    }
}

/// Expands `names[..]` in order on the two group lists.
fn reveal_groups(collapsed: &mut Vec<String>, expanded: &mut Vec<String>, names: &Vec<String>)
    ensures
        (strings_view(final(collapsed)@), strings_view(final(expanded)@)) == reveal_names(
            strings_view(old(collapsed)@),
            strings_view(old(expanded)@),
            strings_view(names@),
        ),
{
    let ghost c0 = strings_view(collapsed@);
    let ghost e0 = strings_view(expanded@);
    let ghost ns = strings_view(names@);
    let mut i: usize = 0;
    while i < names.len()
        invariant
            ns == strings_view(names@),
            c0 == strings_view(old(collapsed)@),
            e0 == strings_view(old(expanded)@),
            i <= names@.len(),
            (strings_view(collapsed@), strings_view(expanded@)) == reveal_names(c0, e0, ns.take(i as int)),
        decreases names@.len() - i,
    {
        assert(ns.take(i + 1).drop_last() =~= ns.take(i as int));
        assert(ns.take(i + 1).last() == names@[i as int]@);
        remove_names(collapsed, &names[i]);
        insert_names(expanded, &names[i]);
        i = i + 1;
    }
    assert(ns.take(ns.len() as int) =~= ns);
}

impl DiagramViewer {
    /// The current search hit: its identity, its ancestors and whether the
    /// current view draws it.
    fn search_target(&self) -> (r: Option<(crate::diagram_model::ObjectId, Vec<String>, bool)>)
        ensures
            match search_hit(*self) {
                Some(entry) => r matches Some(t) && t.0 == entry.id && t.1@ == entry.ancestors@ && t.2
                    == hit_visible(*self, entry),
                None => r is None,
            },
    {
        let matches = self.search_matches();
        match &self.output {
            Some(o) => if self.search_index < matches.len() {
                proof {
                    lemma_matching_indices(o.catalog@, query_of(self.search));
                }
                let entry = &o.catalog[matches[self.search_index]];
                proof {
                    lemma_first_index(o.objects@, entry.id@);
                }
                let visible = position_of(&o.objects, &entry.id).is_some();
                Some((entry.id.clone(), clone_strings(&entry.ancestors), visible))
            } else {
                None
            },
            None => None,
        }
    }

    /// Expands the hidden hit's groups, drops focus and asks for the new
    /// layout to be centred on the selection.
    fn reveal_entry(
        &mut self,
        entry: Ghost<CatalogObject>,
        ancestors: &Vec<String>,
        is_group: bool,
        name: &String,
    )
        requires
            ancestors@ == entry@.ancestors@,
            is_group == (entry@.id.kind == ObjectKind::Subgraph),
            name@ == entry@.id.id@,
        ensures
            revealed(old(self).view, final(self).view, entry@),
            *final(self) == (DiagramViewer {
                view: final(self).view,
                center_after_render: true,
                ..*old(self)
            }),
    {
        reveal_groups(&mut self.view.collapsed, &mut self.view.expanded, ancestors);
        if is_group {
            remove_names(&mut self.view.collapsed, name);
            insert_names(&mut self.view.expanded, name);
            proof {
                let t = reveal_targets(entry@);
                assert(t.drop_last() =~= strings_view(entry@.ancestors@));
                assert(t.last() == name@);
            }
        } else {
            assert(reveal_targets(entry@) =~= strings_view(entry@.ancestors@));
        }
        self.view.focus = None;
        self.center_after_render = true;
    }
}

impl App {
    /// Opens an empty search at the first match.
    pub fn begin_diagram_search(&mut self)
        ensures
            match old(self).diagrams.viewer {
                Some(v) => {
                    &&& final(self).diagrams.viewer matches Some(f)
                    &&& f == DiagramViewer { search: f.search, search_index: 0, ..v }
                    &&& (f.search matches Some(q) && q@.len() == 0)
                },
                None => final(self).diagrams.viewer is None,
            },
            same_outside_viewer(*final(self), *old(self)),
    {
        if let Some(mut viewer) = self.diagrams.viewer.take() {
            viewer.search = Some(String::new());
            viewer.search_index = 0;
            self.diagrams.viewer = Some(viewer);
        }
    }

    /// Types a character into the open search (up to 1024 bytes), or
    /// deletes its last character for `None`; the position restarts.
    pub fn edit_diagram_search(&mut self, character: Option<char>)
        ensures
            match old(self).diagrams.viewer {
                Some(v) => match v.search {
                    Some(q) => {
                        &&& final(self).diagrams.viewer matches Some(f)
                        &&& f == DiagramViewer { search: f.search, search_index: 0, ..v }
                        &&& (f.search matches Some(q2) && q2@ == edited_query(q@, character))
                    },
                    None => final(self).diagrams.viewer == old(self).diagrams.viewer,
                },
                None => final(self).diagrams.viewer is None,
            },
            same_outside_viewer(*final(self), *old(self)),
    {
        let mut viewer = match self.diagrams.viewer.take() {
            Some(v) => v,
            None => {
                return;
            },
        };
        let query = match viewer.search.take() {
            Some(q) => q,
            None => {
                self.diagrams.viewer = Some(viewer);
                return;
            },
        };
        let mut query = query;
        match character {
            Some(c) => {
                if string_byte_len(&query) < MAX_QUERY_BYTES {
                    push_char(&mut query, c);
                }
            },
            None => {
                let cs = chars_of(query.as_str());
                if cs.len() > 0 {
                    let kept = sub_chars(cs.as_slice(), 0, cs.len() - 1);
                    query = string_from_chars(kept.as_slice());
                    assert(query@ =~= cs@.drop_last());
                }
            },
        }
        viewer.search = Some(query);
        viewer.search_index = 0;
        self.diagrams.viewer = Some(viewer);
    }

    /// Steps to the next (or previous) match, wrapping.
    pub fn move_diagram_search(&mut self, backwards: bool)
        ensures
            match old(self).diagrams.viewer {
                Some(v) => final(self).diagrams.viewer == Some(moved_search(v, backwards)),
                None => final(self).diagrams.viewer is None,
            },
            same_outside_viewer(*final(self), *old(self)),
    {
        if let Some(mut viewer) = self.diagrams.viewer.take() {
            let count = viewer.search_matches().len();
            if count > 0 {
                viewer.search_index = cycle_index(viewer.search_index, count, backwards);
            }
            self.diagrams.viewer = Some(viewer);
        }
    }

    /// Leaves the search, keeping the selection.
    pub fn cancel_diagram_search(&mut self)
        ensures
            match old(self).diagrams.viewer {
                Some(v) => final(self).diagrams.viewer == Some(DiagramViewer { search: None, ..v }),
                None => final(self).diagrams.viewer is None,
            },
            same_outside_viewer(*final(self), *old(self)),
    {
        if let Some(mut viewer) = self.diagrams.viewer.take() {
            viewer.search = None;
            self.diagrams.viewer = Some(viewer);
        }
    }

    /// Selects the current match: a drawn object is centred at once; a
    /// hidden one has its groups expanded and is laid out again once.
    pub fn confirm_diagram_search(&mut self)
        ensures
            search_confirmed(*old(self), *final(self)),
    {
        let mut viewer = match self.diagrams.viewer.take() {
            Some(v) => v,
            None => {
                return;
            },
        };
        let ghost v = viewer;
        let (id, ancestors, visible) = match viewer.search_target() {
            Some(f) => f,
            None => {
                viewer.feedback = Some(String::from_str(NO_SEARCH_MATCH));
                self.diagrams.viewer = Some(viewer);
                return;
            },
        };
        let ghost entry = search_hit(v)->0;
        let is_group = id.kind == ObjectKind::Subgraph;
        let name = id.id.clone();
        viewer.selected = Some(id);
        viewer.search = None;
        viewer.source_mode = false;
        if visible {
            viewer.center_selection();
            self.diagrams.viewer = Some(viewer);
            return;
        }
        viewer.reveal_entry(Ghost(entry), &ancestors, is_group, &name);
        self.diagrams.viewer = Some(viewer);
        self.request_diagram_render();
    }
}

} // verus!
