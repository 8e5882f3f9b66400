//! Single-key controls of the diagram viewer: the source toggle, copying
//! the original Mermaid, and the semantic view changes that lay the
//! diagram out again.
use vstd::prelude::*;
use crate::diagram_model::{Capabilities, ObjectKind, ViewOptions};
use crate::diagram_search::with_viewer;
use crate::diagrams::{clamped, requested, same_outside_viewer, App, DiagramAction, DiagramState, DiagramViewer};
use crate::names::{insert_name, insert_names, remove_name, remove_names, contains_name};
use crate::text::strings_view;
use vstd::string::StringExecFns;

verus! {

pub const FOCUS_NEEDS_NODE: &'static str =
    "Select an original node to focus; groups cannot be focus anchors";

pub const GROUP_NEEDED: &'static str = "Select a group with Tab or / before expanding/collapsing";

pub const CONTROL_UNAVAILABLE: &'static str =
    "This control is unavailable for this diagram family (or while preparing)";

pub const COPY_DONE: &'static str = "Original Mermaid copied";

pub const COPY_FAILED: &'static str = "Could not copy original Mermaid";

/// The viewer after `s`: the other mode comes back at the pan position it
/// had, and the position being left is kept for the return.
pub open spec fn source_toggled(v: DiagramViewer) -> DiagramViewer {
    if v.source_mode {
        clamped(
            DiagramViewer {
                source_offsets: (v.x, v.y),
                x: v.diagram_offsets.0,
                y: v.diagram_offsets.1,
                source_mode: false,
                ..v
            },
        )
    } else {
        clamped(
            DiagramViewer {
                diagram_offsets: (v.x, v.y),
                x: v.source_offsets.0,
                y: v.source_offsets.1,
                source_mode: true,
                ..v
            },
        )
    }
}

/// Controls of the current canvas; none before the first layout.
pub open spec fn caps_of(v: DiagramViewer) -> Capabilities {
    match v.output {
        Some(o) => o.capabilities,
        None => Capabilities { collapse: false, focus: false, direction: false, members: false },
    }
}

pub open spec fn selected_kind_is(v: DiagramViewer, kind: ObjectKind) -> bool {
    v.selected matches Some(s) && s.kind == kind
}

/// Whether `control` changes the requested view (and so lays out again).
pub open spec fn control_relayouts(v: DiagramViewer, control: char) -> bool {
    let caps = caps_of(v);
    ||| control == 'c'
    ||| control == 'd' && caps.direction
    ||| control == 'o' && caps.collapse
    ||| control == 'a' && caps.members
    ||| control == 'f' && caps.focus && selected_kind_is(v, ObjectKind::Node)
    ||| control == ' ' && caps.collapse && selected_kind_is(v, ObjectKind::Subgraph)
}

/// Why a control did nothing.
pub open spec fn control_refusal(v: DiagramViewer, control: char) -> Seq<char> {
    let caps = caps_of(v);
    if control == 'f' && caps.focus {
        FOCUS_NEEDS_NODE@
    } else if control == ' ' && caps.collapse {
        GROUP_NEEDED@
    } else {
        CONTROL_UNAVAILABLE@
    }
}

/// Focus on the selected node, or off again when it already is the focus.
pub open spec fn toggled_focus(focus: Option<String>, selected: Option<crate::diagram_model::ObjectId>) -> Option<String> {
    match selected {
        Some(s) => if (focus matches Some(x) && x@ == s.id@) {
            None
        } else {
            Some(s.id)
        },
        None => focus,
    }
}

/// The group lists after Space on group `g`: a collapsed group (explicitly,
/// or implicitly in an overview) is expanded, otherwise it is collapsed.
pub open spec fn collapse_toggled(view: ViewOptions, new: ViewOptions, g: Seq<char>) -> bool {
    let c = strings_view(view.collapsed@);
    let e = strings_view(view.expanded@);
    let was_collapsed = c.contains(g) || (view.overview && !e.contains(g));
    &&& new == ViewOptions { collapsed: new.collapsed, expanded: new.expanded, ..view }
    &&& if was_collapsed {
        strings_view(new.collapsed@) == remove_name(c, g) && strings_view(new.expanded@)
            == insert_name(e, g)
    } else {
        strings_view(new.expanded@) == remove_name(e, g) && strings_view(new.collapsed@)
            == insert_name(c, g)
    }
}

/// The viewer `f` after a view control on `v`, before any layout request:
/// feedback clears and the automatic overview choice is given up; a
/// relayouting control changes the view and asks to centre the selection;
/// any other control leaves feedback saying why nothing happened.
pub open spec fn view_controlled(v: DiagramViewer, f: DiagramViewer, control: char) -> bool {
    let caps = caps_of(v);
    let v0 = DiagramViewer { feedback: None, auto_overview: false, ..v };
    if control == 'c' {
        f == DiagramViewer {
            view: ViewOptions { compact: !v.view.compact, ..v.view },
            center_after_render: true,
            ..v0
        }
    } else if control == 'd' && caps.direction {
        f == DiagramViewer {
            view: ViewOptions { alternate: !v.view.alternate, ..v.view },
            center_after_render: true,
            ..v0
        }
    } else if control == 'o' && caps.collapse {
        &&& f == DiagramViewer { view: f.view, center_after_render: true, ..v0 }
        &&& f.view == ViewOptions {
            overview: !v.view.overview,
            collapsed: f.view.collapsed,
            expanded: f.view.expanded,
            focus: None,
            ..v.view
        }
        &&& f.view.collapsed@.len() == 0
        &&& f.view.expanded@.len() == 0
    } else if control == 'a' && caps.members {
        f == DiagramViewer {
            view: ViewOptions { members: !v.view.members, ..v.view },
            center_after_render: true,
            ..v0
        }
    } else if control == 'f' && caps.focus && selected_kind_is(v, ObjectKind::Node) {
        f == DiagramViewer {
            view: ViewOptions { focus: toggled_focus(v.view.focus, v.selected), ..v.view },
            center_after_render: true,
            ..v0
        }
    } else if control == ' ' && caps.collapse && selected_kind_is(v, ObjectKind::Subgraph) {
        &&& f == DiagramViewer { view: f.view, center_after_render: true, ..v0 }
        &&& match v.selected {
            Some(s) => collapse_toggled(v.view, f.view, s.id@),
            None => false,
        }
    } else {
        &&& f == DiagramViewer { feedback: f.feedback, ..v0 }
        &&& (f.feedback matches Some(m) && m@ == control_refusal(v, control))
    }
}

/// The state after pressing `control` in the viewer.
pub open spec fn controlled(old: App, new: App, control: char) -> bool {
    match old.diagrams.viewer {
        None => new == old,
        Some(v) => if control == 's' {
            &&& new.diagrams.viewer == Some(source_toggled(v))
            &&& same_outside_viewer(new, old)
        } else if control == 'y' {
            &&& new == App {
                diagrams: DiagramState { actions: new.diagrams.actions, ..old.diagrams },
                ..old
            }
            &&& new.diagrams.actions@ == old.diagrams.actions@.push(DiagramAction::CopySource(v.source))
        } else {
            match new.diagrams.viewer {
                Some(f) => {
                    let m = DiagramViewer {
                        request: v.request,
                        loading: v.loading,
                        error: v.error,
                        resize_started: v.resize_started,
                        ..f
                    };
                    if control_relayouts(v, control) {
                        &&& view_controlled(v, m, control)
                        &&& requested(with_viewer(old, m), new)
                    } else {
                        &&& view_controlled(v, f, control)
                        &&& same_outside_viewer(new, old)
                    }
                },
                None => false,
            }
        },
    }
}

impl DiagramViewer {
    /// Switches between the canvas and the original source, each with its
    /// own pan position.
    pub fn toggle_source(&mut self)
        ensures
            *final(self) == source_toggled(*old(self)),
    {
        if self.source_mode {
            self.source_offsets = (self.x, self.y);
            self.x = self.diagram_offsets.0;
            self.y = self.diagram_offsets.1;
        } else {
            self.diagram_offsets = (self.x, self.y);
            self.x = self.source_offsets.0;
            self.y = self.source_offsets.1;
        }
        self.source_mode = !self.source_mode;
        self.clamp();
    }

    /// Focus on the selected node (or off again); groups are refused.
    fn control_focus(&mut self) -> (ok: bool)
        ensures
            ok == selected_kind_is(*old(self), ObjectKind::Node),
            ok ==> *final(self) == (DiagramViewer {
                view: ViewOptions { focus: toggled_focus(old(self).view.focus, old(self).selected), ..old(self).view },
                ..*old(self)
            }),
            !ok ==> *final(self) == (DiagramViewer { feedback: final(self).feedback, ..*old(self) }),
            !ok ==> (final(self).feedback matches Some(m) && m@ == FOCUS_NEEDS_NODE@),
    {
        let id = match &self.selected {
            Some(s) => if s.kind == ObjectKind::Node {
                Some(s.id.clone())
            } else {
                None
            },
            None => None,
        };
        let id = match id {
            Some(id) => id,
            None => {
                self.feedback = Some(String::from_str(FOCUS_NEEDS_NODE));
                return false;
            },
        };
        let same = match &self.view.focus {
            Some(f) => *f == id,
            None => false,
        };
        self.view.focus = if same {
            None
        } else {
            Some(id)
        };
        true
    }

    /// Expands or collapses the selected group; nodes are refused.
    fn control_group(&mut self) -> (ok: bool)
        ensures
            ok == selected_kind_is(*old(self), ObjectKind::Subgraph),
            ok ==> *final(self) == (DiagramViewer { view: final(self).view, ..*old(self) }),
            ok ==> match old(self).selected {
                Some(s) => collapse_toggled(old(self).view, final(self).view, s.id@),
                None => false,
            },
            !ok ==> *final(self) == (DiagramViewer { feedback: final(self).feedback, ..*old(self) }),
            !ok ==> (final(self).feedback matches Some(m) && m@ == GROUP_NEEDED@),
    {
        let id = match &self.selected {
            Some(s) => if s.kind == ObjectKind::Subgraph {
                Some(s.id.clone())
            } else {
                None
            },
            None => None,
        };
        let id = match id {
            Some(id) => id,
            None => {
                self.feedback = Some(String::from_str(GROUP_NEEDED));
                return false;
            },
        };
        let collapsed = contains_name(&self.view.collapsed, &id) || (self.view.overview
            && !contains_name(&self.view.expanded, &id));
        if collapsed {
            remove_names(&mut self.view.collapsed, &id);
            insert_names(&mut self.view.expanded, &id);
        } else {
            remove_names(&mut self.view.expanded, &id);
            insert_names(&mut self.view.collapsed, &id);
        }
        true
    }

    /// Applies a view control; returns whether the view changed and needs
    /// a new layout.
    #[verifier::rlimit(60)]
    #[verifier::spinoff_prover]
    pub fn apply_view_control(&mut self, control: char) -> (relayout: bool)
        ensures
            relayout == control_relayouts(*old(self), control),
            view_controlled(*old(self), *final(self), control),
    {
        let caps = match &self.output {
            Some(o) => o.capabilities,
            None => Capabilities { collapse: false, focus: false, direction: false, members: false },
        };
        self.feedback = None;
        self.auto_overview = false;
        if control == 'c' {
            self.view.compact = !self.view.compact;
        } else if control == 'd' && caps.direction {
            self.view.alternate = !self.view.alternate;
        } else if control == 'o' && caps.collapse {
            self.view.overview = !self.view.overview;
            self.view.collapsed = Vec::new();
            self.view.expanded = Vec::new();
            self.view.focus = None;
        } else if control == 'a' && caps.members {
            self.view.members = !self.view.members;
        } else if control == 'f' && caps.focus {
            if !self.control_focus() {
                return false;
            }
        } else if control == ' ' && caps.collapse {
            if !self.control_group() {
                return false;
            }
        } else {
            self.feedback = Some(String::from_str(CONTROL_UNAVAILABLE));
            return false;
        }
        self.center_after_render = true;
        true
    }
}

impl App {
    /// Handles a viewer key: `s` toggles the original source, `y` asks the
    /// event loop to copy it, and view controls relayout when the diagram
    /// family supports them.
    pub fn diagram_control(&mut self, control: char)
        ensures
            controlled(*old(self), *final(self), control),
    {
        let mut viewer = match self.diagrams.viewer.take() {
            Some(v) => v,
            None => {
                return;
            },
        };
        if control == 's' {
            viewer.toggle_source();
            self.diagrams.viewer = Some(viewer);
            return;
        }
        if control == 'y' {
            let source = viewer.source.clone();
            self.diagrams.viewer = Some(viewer);
            self.diagrams.actions.push(DiagramAction::CopySource(source));
            return;
        }
        let relayout = viewer.apply_view_control(control);
        self.diagrams.viewer = Some(viewer);
        if relayout {
            self.request_diagram_render();
        }
    }

    /// Reports the outcome of a queued copy of the original source.
    pub fn report_diagram_copy(&mut self, copied: bool)
        ensures
            match old(self).diagrams.viewer {
                Some(v) => {
                    &&& final(self).diagrams.viewer matches Some(f)
                    &&& f == DiagramViewer { feedback: f.feedback, ..v }
                    &&& (f.feedback matches Some(m) && m@ == if copied {
                        COPY_DONE@
                    } else {
                        COPY_FAILED@
                    })
                },
                None => final(self).diagrams.viewer is None,
            },
            same_outside_viewer(*final(self), *old(self)),
    {
        if let Some(mut viewer) = self.diagrams.viewer.take() {
            viewer.feedback = Some(String::from_str(if copied { COPY_DONE } else { COPY_FAILED }));
            self.diagrams.viewer = Some(viewer);
        }
    }
}

} // verus!
