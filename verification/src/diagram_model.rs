//! The data exchanged between the diagram viewer and the layout worker:
//! object identities, rendered canvases and requested views.
use vstd::prelude::*;
use crate::preview::{add_sat, is_preview_origin, spec_preview_origin, CellRect, MermaidPreview};
use crate::text::{clone_strings, join_spec, join_strings, strings_view};

verus! {

#[derive(Clone, Copy, Debug, PartialEq, Eq, Structural)]
pub enum ObjectKind {
    Node,
    Subgraph,
}

/// A node or group identity as authored in the Mermaid source.
#[derive(Debug)]
pub struct ObjectId {
    pub kind: ObjectKind,
    pub id: String,
}

impl View for ObjectId {
    type V = (ObjectKind, Seq<char>);

    open spec fn view(&self) -> (ObjectKind, Seq<char>) {
        (self.kind, self.id@)
    }
}

impl Clone for ObjectId {
    fn clone(&self) -> (r: Self)
        ensures
            r == *self,
    {
        ObjectId { kind: self.kind, id: self.id.clone() }
    }
}

impl ObjectId {
    /// Whether two identities name the same object.
    pub fn same(&self, other: &ObjectId) -> (r: bool)
        ensures
            r == (self@ == other@),
    {
        self.kind == other.kind && self.id == other.id
    }
}

/// Whether an optional selection names `id`.
pub fn selection_is(selected: &Option<ObjectId>, id: &ObjectId) -> (r: bool)
    ensures
        r == (selected matches Some(s) && s@ == id@),
{
    match selected {
        Some(s) => s.same(id),
        None => false,
    }
}

/// One original node or group, whether or not the current view shows it.
#[derive(Debug)]
pub struct CatalogObject {
    pub id: ObjectId,
    pub label: String,
    /// Enclosing group identifiers, innermost first.
    pub ancestors: Vec<String>,
}

/// An object drawn on the current canvas, with the cells it occupies.
#[derive(Debug)]
pub struct VisibleObject {
    pub id: ObjectId,
    pub bounds: CellRect,
}

/// Which semantic controls the diagram family supports.
#[derive(Clone, Copy, Debug, Default, PartialEq, Eq, Structural)]
pub struct Capabilities {
    pub collapse: bool,
    pub focus: bool,
    pub direction: bool,
    pub members: bool,
}

/// The flow direction of a graph layout.
#[derive(Clone, Copy, Debug, PartialEq, Eq, Structural)]
pub enum Direction {
    TopDown,
    BottomTop,
    LeftRight,
    RightLeft,
}

/// Spacing in engine layout units, each value held as the bit pattern of
/// the `f64` the engine receives.
#[derive(Clone, Copy, Debug, PartialEq, Eq, Structural)]
pub struct MermaidOptions {
    pub node_spacing_bits: u64,
    pub rank_spacing_bits: u64,
    pub edge_spacing_bits: u64,
}

impl MermaidOptions {
    /// `50 / 50 / 20`.
    pub open spec fn spec_configured_default() -> MermaidOptions {
        MermaidOptions {
            node_spacing_bits: 0x4049000000000000u64,
            rank_spacing_bits: 0x4049000000000000u64,
            edge_spacing_bits: 0x4034000000000000u64,
        }
    }

    /// `8 / 15 / 8`.
    pub open spec fn spec_compact() -> MermaidOptions {
        MermaidOptions {
            node_spacing_bits: 0x4020000000000000u64,
            rank_spacing_bits: 0x402e000000000000u64,
            edge_spacing_bits: 0x4020000000000000u64,
        }
    }

    pub fn configured_default() -> (r: MermaidOptions)
        ensures
            r == Self::spec_configured_default(),
    {
        MermaidOptions {
            node_spacing_bits: 0x4049000000000000u64,
            rank_spacing_bits: 0x4049000000000000u64,
            edge_spacing_bits: 0x4034000000000000u64,
        }
    }

    pub fn compact() -> (r: MermaidOptions)
        ensures
            r == Self::spec_compact(),
    {
        MermaidOptions {
            node_spacing_bits: 0x4020000000000000u64,
            rank_spacing_bits: 0x402e000000000000u64,
            edge_spacing_bits: 0x4020000000000000u64,
        }
    }
}

/// A laid-out diagram: canvas rows, the full object catalog and the
/// objects visible in this view.
#[derive(Debug)]
pub struct DiagramOutput {
    pub rows: Vec<String>,
    pub width: usize,
    pub height: usize,
    pub catalog: Vec<CatalogObject>,
    pub objects: Vec<VisibleObject>,
    pub capabilities: Capabilities,
    pub direction: Option<Direction>,
    pub summary: String,
    pub visible_nodes: usize,
    pub original_nodes: usize,
    pub hidden_nodes: usize,
    pub boundary_edges: usize,
    pub warnings: Vec<String>,
    pub overview: bool,
}

/// The bounds of the visible graph nodes, in order.
pub open spec fn node_rects(objects: Seq<VisibleObject>) -> Seq<CellRect>
    decreases objects.len(),
{
    if objects.len() == 0 {
        seq![]
    } else {
        let rest = node_rects(objects.drop_last());
        if objects.last().id.kind == ObjectKind::Node {
            rest.push(objects.last().bounds)
        } else {
            rest
        }
    }
}

/// The bounds a preview frames on: every visible object in an overview,
/// otherwise only nodes; nothing when the family has no focusable objects.
pub open spec fn framing_rects(objects: Seq<VisibleObject>, focus: bool, overview: bool) -> Seq<
    CellRect,
>
    decreases objects.len(),
{
    if objects.len() == 0 {
        seq![]
    } else {
        let rest = framing_rects(objects.drop_last(), focus, overview);
        if focus && (overview || objects.last().id.kind == ObjectKind::Node) {
            rest.push(objects.last().bounds)
        } else {
            rest
        }
    }
}

/// A node lying wholly inside the window at `(x, y)`.
pub open spec fn node_inside(o: VisibleObject, x: usize, y: usize, width: usize, height: usize) -> bool {
    &&& o.id.kind == ObjectKind::Node
    &&& o.bounds.x >= x
    &&& o.bounds.y >= y
    &&& o.bounds.x + o.bounds.width <= x + width
    &&& o.bounds.y + o.bounds.height <= y + height
}

pub open spec fn abs_diff(a: int, b: int) -> int {
    if a >= b {
        a - b
    } else {
        b - a
    }
}

/// Manhattan distance from a node's centre to the window centre.
pub open spec fn center_distance(o: VisibleObject, x: usize, y: usize, width: usize, height: usize) -> int {
    abs_diff(o.bounds.x + o.bounds.width / 2, x + width / 2) + abs_diff(
        o.bounds.y + o.bounds.height / 2,
        y + height / 2,
    )
}

/// Object `k` is the first of the inside nodes nearest the window centre.
pub open spec fn is_nearest_inside(objects: Seq<VisibleObject>, k: int, x: usize, y: usize, width: usize, height: usize) -> bool {
    &&& 0 <= k < objects.len()
    &&& node_inside(objects[k], x, y, width, height)
    &&& forall|j: int|
        0 <= j < objects.len() && node_inside(#[trigger] objects[j], x, y, width, height)
            ==> center_distance(objects[k], x, y, width, height) <= center_distance(
            objects[j],
            x,
            y,
            width,
            height,
        )
    &&& forall|j: int|
        0 <= j < k && node_inside(#[trigger] objects[j], x, y, width, height) ==> center_distance(
            objects[k],
            x,
            y,
            width,
            height,
        ) < center_distance(objects[j], x, y, width, height)
}

/// The populated starting frame `initial_view` chooses: the identity of the
/// selected node and the window origin.
pub open spec fn spec_initial_view(o: DiagramOutput, width: usize, height: usize) -> Option<
    (ObjectId, usize, usize),
> {
    if !o.wants_initial_view(width, height) {
        None
    } else {
        let (x, y) = spec_preview_origin(node_rects(o.objects@), o.width, o.height, false, width, height);
        if forall|j: int|
            0 <= j < o.objects@.len() ==> !node_inside(#[trigger] o.objects@[j], x, y, width, height) {
            None
        } else {
            let k = choose|k: int| is_nearest_inside(o.objects@, k, x, y, width, height);
            Some((o.objects@[k].id, x, y))
        }
    }
}

pub proof fn lemma_nearest_unique(objects: Seq<VisibleObject>, k1: int, k2: int, x: usize, y: usize, width: usize, height: usize)
    requires
        is_nearest_inside(objects, k1, x, y, width, height),
        is_nearest_inside(objects, k2, x, y, width, height),
    ensures
        k1 == k2,
{
    if k1 < k2 {
        assert(center_distance(objects[k2], x, y, width, height) < center_distance(objects[k1], x, y, width, height));
    } else if k2 < k1 {
        assert(center_distance(objects[k1], x, y, width, height) < center_distance(objects[k2], x, y, width, height));
    }
}

fn object_rects(objects: &Vec<VisibleObject>, focus: bool, overview: bool, nodes_only: bool) -> (r: Vec<CellRect>)
    ensures
        nodes_only ==> r@ == node_rects(objects@),
        !nodes_only ==> r@ == framing_rects(objects@, focus, overview),
{
    let mut out: Vec<CellRect> = Vec::new();
    let mut i: usize = 0;
    while i < objects.len()
        invariant
            i <= objects@.len(),
            nodes_only ==> out@ == node_rects(objects@.take(i as int)),
            !nodes_only ==> out@ == framing_rects(objects@.take(i as int), focus, overview),
        decreases objects@.len() - i,
    {
        proof {
            assert(objects@.take(i + 1).drop_last() =~= objects@.take(i as int));
        }
        let o = &objects[i];
        let keep = if nodes_only {
            o.id.kind == ObjectKind::Node
        } else {
            focus && (overview || o.id.kind == ObjectKind::Node)
        };
        if keep {
            out.push(o.bounds);
        }
        i = i + 1;
    }
    assert(objects@.take(objects@.len() as int) =~= objects@);
    out
}

fn inside_at(o: &VisibleObject, x: usize, y: usize, width: usize, height: usize) -> (r: bool)
    ensures
        r == node_inside(*o, x, y, width, height),
{
    o.id.kind == ObjectKind::Node && o.bounds.x >= x && o.bounds.y >= y && (o.bounds.x as u128)
        + (o.bounds.width as u128) <= (x as u128) + (width as u128) && (o.bounds.y as u128) + (
    o.bounds.height as u128) <= (y as u128) + (height as u128)
}

fn u128_abs_diff(a: u128, b: u128) -> (r: u128)
    ensures
        r == abs_diff(a as int, b as int),
{
    if a >= b {
        a - b
    } else {
        b - a
    }
}

fn distance_at(o: &VisibleObject, x: usize, y: usize, width: usize, height: usize) -> (r: u128)
    ensures
        r == center_distance(*o, x, y, width, height),
{
    let dx = u128_abs_diff(
        (o.bounds.x as u128) + (o.bounds.width as u128) / 2,
        (x as u128) + (width as u128) / 2,
    );
    let dy = u128_abs_diff(
        (o.bounds.y as u128) + (o.bounds.height as u128) / 2,
        (y as u128) + (height as u128) / 2,
    );
    assert(dx < 0x2_0000_0000_0000_0000u128);
    assert(dy < 0x2_0000_0000_0000_0000u128);
    dx + dy
}

impl DiagramOutput {
    /// Whether the viewer should open on a populated window rather than the
    /// canvas origin: a focusable, uncollapsible family larger than the area.
    pub open spec fn wants_initial_view(&self, width: usize, height: usize) -> bool {
        self.capabilities.focus && !self.capabilities.collapse && !(self.width <= width
            && self.height <= height)
    }

    /// A populated starting frame for an oversized canvas: the window a
    /// document preview of the nodes would choose, and the node inside it
    /// nearest its centre.
    pub fn initial_view(&self, width: usize, height: usize) -> (r: Option<(ObjectId, usize, usize)>)
        ensures
            !self.wants_initial_view(width, height) ==> r is None,
            self.wants_initial_view(width, height) ==> exists|x: usize, y: usize|
                {
                    &&& is_preview_origin(
                        node_rects(self.objects@),
                        self.width,
                        self.height,
                        false,
                        width,
                        height,
                        (x, y),
                    )
                    &&& (r is None <==> forall|j: int|
                        0 <= j < self.objects@.len() ==> !node_inside(
                            #[trigger] self.objects@[j],
                            x,
                            y,
                            width,
                            height,
                        ))
                    &&& (r matches Some((id, rx, ry)) ==> rx == x && ry == y && exists|k: int|
                        #[trigger] is_nearest_inside(self.objects@, k, x, y, width, height)
                            && id@ == self.objects@[k].id@)
                },
            r == spec_initial_view(*self, width, height),
    {
        if !self.capabilities.focus || self.capabilities.collapse || (self.width <= width
            && self.height <= height) {
            return None;
        }
        let geometry = MermaidPreview {
            text: String::new(),
            width: self.width,
            height: self.height,
            warning: None,
            nodes: object_rects(&self.objects, false, false, true),
            overview: false,
            hidden_nodes: 0,
        };
        let (x, y) = geometry.preview_origin(width, height);
        let mut best: Option<(usize, u128)> = None;
        let mut i: usize = 0;
        while i < self.objects.len()
            invariant
                i <= self.objects@.len(),
                best is None ==> forall|j: int|
                    0 <= j < i ==> !node_inside(#[trigger] self.objects@[j], x, y, width, height),
                best matches Some(b) ==> {
                    &&& b.0 < i
                    &&& node_inside(self.objects@[b.0 as int], x, y, width, height)
                    &&& b.1 == center_distance(self.objects@[b.0 as int], x, y, width, height)
                    &&& forall|j: int|
                        0 <= j < i && node_inside(#[trigger] self.objects@[j], x, y, width, height)
                            ==> b.1 <= center_distance(self.objects@[j], x, y, width, height)
                    &&& forall|j: int|
                        0 <= j < b.0 && node_inside(#[trigger] self.objects@[j], x, y, width, height)
                            ==> b.1 < center_distance(self.objects@[j], x, y, width, height)
                },
            decreases self.objects@.len() - i,
        {
            let o = &self.objects[i];
            if inside_at(o, x, y, width, height) {
                let d = distance_at(o, x, y, width, height);
                match best {
                    None => {
                        best = Some((i, d));
                    },
                    Some(b) => {
                        if d < b.1 {
                            best = Some((i, d));
                        }
                    },
                }
            }
            i = i + 1;
        }
        match best {
            None => None,
            Some(b) => {
                proof {
                    assert(is_nearest_inside(self.objects@, b.0 as int, x, y, width, height));
                    let c = choose|k: int| is_nearest_inside(self.objects@, k, x, y, width, height);
                    lemma_nearest_unique(self.objects@, c, b.0 as int, x, y, width, height);
                }
                Some((self.objects[b.0].id.clone(), x, y))
            },
        }
    }

    /// The document preview of this canvas as plain values.
    pub open spec fn preview_view(&self) -> crate::preview::PreviewView {
        (
            join_spec(strings_view(self.rows@), "\n"@),
            self.width,
            self.height,
            if self.warnings@.len() == 0 {
                None
            } else {
                Some(join_spec(strings_view(self.warnings@), "; "@))
            },
            framing_rects(self.objects@, self.capabilities.focus, self.overview),
            self.overview,
            self.hidden_nodes,
        )
    }

    /// The document preview of this canvas: rows joined by newlines, the
    /// warnings joined by `"; "`, and the framing rectangles.
    pub fn preview(&self) -> (r: MermaidPreview)
        ensures
            r@ == self.preview_view(),
            r.text@ == join_spec(strings_view(self.rows@), "\n"@),
            r.width == self.width,
            r.height == self.height,
            self.warnings@.len() == 0 ==> r.warning is None,
            self.warnings@.len() > 0 ==> (r.warning matches Some(w) && w@ == join_spec(
                strings_view(self.warnings@),
                "; "@,
            )),
            r.nodes@ == framing_rects(self.objects@, self.capabilities.focus, self.overview),
            r.overview == self.overview,
            r.hidden_nodes == self.hidden_nodes,
    {
        MermaidPreview {
            text: join_strings(&self.rows, "\n"),
            width: self.width,
            height: self.height,
            warning: if self.warnings.len() == 0 {
                None
            } else {
                Some(join_strings(&self.warnings, "; "))
            },
            nodes: object_rects(&self.objects, self.capabilities.focus, self.overview, false),
            overview: self.overview,
            hidden_nodes: self.hidden_nodes,
        }
    }
}

/// How many catalog entries are nodes.
pub open spec fn count_nodes(catalog: Seq<CatalogObject>) -> nat
    decreases catalog.len(),
{
    if catalog.len() == 0 {
        0
    } else {
        count_nodes(catalog.drop_last()) + if catalog.last().id.kind == ObjectKind::Node {
            1nat
        } else {
            0nat
        }
    }
}

/// How many catalog entries are top-level groups.
pub open spec fn count_top_groups(catalog: Seq<CatalogObject>) -> nat
    decreases catalog.len(),
{
    if catalog.len() == 0 {
        0
    } else {
        count_top_groups(catalog.drop_last()) + if catalog.last().id.kind == ObjectKind::Subgraph
            && catalog.last().ancestors@.len() == 0 {
            1nat
        } else {
            0nat
        }
    }
}

/// A grouped overview is useful before a large authored graph is expanded:
/// the family can collapse, has at least fifty nodes and two top-level groups.
/// Never infer groups or change the authored direction to manufacture one.
pub fn use_overview(collapse: bool, catalog: &Vec<CatalogObject>) -> (r: bool)
    ensures
        r == (collapse && count_nodes(catalog@) >= 50 && count_top_groups(catalog@) >= 2),
{
    let mut nodes: usize = 0;
    let mut groups: usize = 0;
    let mut i: usize = 0;
    while i < catalog.len()
        invariant
            i <= catalog@.len(),
            nodes == count_nodes(catalog@.take(i as int)),
            groups == count_top_groups(catalog@.take(i as int)),
            nodes <= i,
            groups <= i,
        decreases catalog@.len() - i,
    {
        proof {
            assert(catalog@.take(i + 1).drop_last() =~= catalog@.take(i as int));
        }
        if catalog[i].id.kind == ObjectKind::Node {
            nodes = nodes + 1;
        } else if catalog[i].ancestors.len() == 0 {
            groups = groups + 1;
        }
        i = i + 1;
    }
    assert(catalog@.take(catalog@.len() as int) =~= catalog@);
    collapse && nodes >= 50 && groups >= 2
}

/// The viewer's requested semantic view of one diagram.
#[derive(Debug)]
pub struct ViewOptions {
    pub compact: bool,
    pub alternate: bool,
    pub authored_direction: Option<Direction>,
    pub overview: bool,
    /// Groups collapsed on request (no duplicates).
    pub collapsed: Vec<String>,
    /// Groups expanded on request (no duplicates).
    pub expanded: Vec<String>,
    pub focus: Option<String>,
    pub members: bool,
    pub width: usize,
}

impl ViewOptions {
    /// The default view (configured spacing, authored direction, full
    /// graph, class members shown) at the given width.
    pub open spec fn is_default_at(&self, width: usize) -> bool {
        &&& !self.compact
        &&& !self.alternate
        &&& self.authored_direction is None
        &&& !self.overview
        &&& self.collapsed@.len() == 0
        &&& self.expanded@.len() == 0
        &&& self.focus is None
        &&& self.members
        &&& self.width == width
    }

    /// The same view, comparing lists and names by content.
    pub open spec fn same_view(&self, other: &ViewOptions) -> bool {
        &&& self.compact == other.compact
        &&& self.alternate == other.alternate
        &&& self.authored_direction == other.authored_direction
        &&& self.overview == other.overview
        &&& self.collapsed@ == other.collapsed@
        &&& self.expanded@ == other.expanded@
        &&& match (self.focus, other.focus) {
            (Some(a), Some(b)) => a@ == b@,
            (None, None) => true,
            _ => false,
        }
        &&& self.members == other.members
        &&& self.width == other.width
    }

    /// A copy with the same contents.
    pub fn duplicate(&self) -> (r: ViewOptions)
        ensures
            r.same_view(self),
    {
        ViewOptions {
            compact: self.compact,
            alternate: self.alternate,
            authored_direction: self.authored_direction,
            overview: self.overview,
            collapsed: clone_strings(&self.collapsed),
            expanded: clone_strings(&self.expanded),
            focus: match &self.focus {
                Some(f) => Some(f.clone()),
                None => None,
            },
            members: self.members,
            width: self.width,
        }
    }

    pub fn default_at(width: usize) -> (r: ViewOptions)
        ensures
            r.is_default_at(width),
    {
        ViewOptions {
            compact: false,
            alternate: false,
            authored_direction: None,
            overview: false,
            collapsed: Vec::new(),
            expanded: Vec::new(),
            focus: None,
            members: true,
            width,
        }
    }
}

/// A layout request for the worker. `view: None` is a configured document
/// preview, not a viewer variant.
#[derive(Debug)]
pub struct DiagramJob {
    pub document: u64,
    pub request: u64,
    pub ordinal: usize,
    pub source: String,
    pub options: MermaidOptions,
    pub view: Option<ViewOptions>,
}

/// A finished layout request.
#[derive(Debug)]
pub struct DiagramCompletion {
    pub job: DiagramJob,
    pub result: Result<DiagramOutput, String>,
}

} // verus!
