//! Rendered Mermaid canvases as the document sees them, and the choice of a
//! populated window when the canvas is larger than the space it gets.
use vstd::prelude::*;
use crate::width::sat_add;

verus! {

/// A rectangle of terminal cells on a rendered canvas.
#[derive(Clone, Copy, Debug, PartialEq, Eq, Structural, Default)]
pub struct CellRect {
    pub x: usize,
    pub y: usize,
    pub width: usize,
    pub height: usize,
}

/// A rendered diagram canvas for the document preview.
#[derive(Debug)]
pub struct MermaidPreview {
    pub text: String,
    pub width: usize,
    pub height: usize,
    pub warning: Option<String>,
    /// Framing candidates for graph views only. Sequence participant boxes do
    /// not bound the messages below them and must not truncate their timeline.
    pub nodes: Vec<CellRect>,
    pub overview: bool,
    pub hidden_nodes: usize,
}

/// A preview as plain values: (text, width, height, warning, framing
/// rectangles, overview, hidden nodes).
pub type PreviewView = (Seq<char>, usize, usize, Option<Seq<char>>, Seq<CellRect>, bool, usize);

impl View for MermaidPreview {
    type V = PreviewView;

    open spec fn view(&self) -> PreviewView {
        (
            self.text@,
            self.width,
            self.height,
            match self.warning {
                Some(w) => Some(w@),
                None => None,
            },
            self.nodes@,
            self.overview,
            self.hidden_nodes,
        )
    }
}

pub fn add_sat(a: usize, b: usize) -> (r: usize)
    ensures
        r == sat_add(a, b),
{
    if a <= usize::MAX - b {
        a + b
    } else {
        usize::MAX
    }
}

pub open spec fn sat_sub(a: usize, b: usize) -> usize {
    if a >= b {
        (a - b) as usize
    } else {
        0
    }
}

/// Whether `node` lies wholly inside the window at `(x, y)`.
pub open spec fn rect_complete(node: CellRect, x: usize, y: usize, width: usize, height: usize) -> bool {
    node.x >= x && sat_add(node.x, node.width) <= sat_add(x, width) && node.y >= y && sat_add(
        node.y,
        node.height,
    ) <= sat_add(y, height)
}

/// Whether `node` touches the window at `(x, y)` without lying inside it.
pub open spec fn rect_partial(node: CellRect, x: usize, y: usize, width: usize, height: usize) -> bool {
    !rect_complete(node, x, y, width, height) && node.x < sat_add(x, width) && sat_add(
        node.x,
        node.width,
    ) > x && node.y < sat_add(y, height) && sat_add(node.y, node.height) > y
}

pub open spec fn count_complete(nodes: Seq<CellRect>, x: usize, y: usize, width: usize, height: usize) -> nat
    decreases nodes.len(),
{
    if nodes.len() == 0 {
        0
    } else {
        count_complete(nodes.drop_last(), x, y, width, height) + if rect_complete(
            nodes.last(),
            x,
            y,
            width,
            height,
        ) {
            1nat
        } else {
            0nat
        }
    }
}

pub open spec fn count_partial(nodes: Seq<CellRect>, x: usize, y: usize, width: usize, height: usize) -> nat
    decreases nodes.len(),
{
    if nodes.len() == 0 {
        0
    } else {
        count_partial(nodes.drop_last(), x, y, width, height) + if rect_partial(
            nodes.last(),
            x,
            y,
            width,
            height,
        ) {
            1nat
        } else {
            0nat
        }
    }
}

/// The window origin proposed by an anchor node: two columns of margin on the
/// left (but no further right than the last full window) and one row above.
pub open spec fn anchor_origin(anchor: CellRect, canvas_width: usize, width: usize) -> (usize, usize) {
    let x = sat_sub(anchor.x, 2);
    let limit = sat_sub(canvas_width, width);
    (if x < limit { x } else { limit }, sat_sub(anchor.y, 1))
}

/// The score of a candidate window: (complete nodes, cut nodes, y, x).
pub open spec fn anchor_score(nodes: Seq<CellRect>, k: int, canvas_width: usize, width: usize, height: usize) -> (nat, nat, usize, usize) {
    let (x, y) = anchor_origin(nodes[k], canvas_width, width);
    (
        count_complete(nodes, x, y, width, height),
        count_partial(nodes, x, y, width, height),
        y,
        x,
    )
}

/// Candidate `a` is better than `b`: more complete nodes, then fewer cut
/// nodes, then nearer the top, then nearer the left.
pub open spec fn score_better(a: (nat, nat, usize, usize), b: (nat, nat, usize, usize)) -> bool {
    ||| a.0 > b.0
    ||| (a.0 == b.0 && a.1 < b.1)
    ||| (a.0 == b.0 && a.1 == b.1 && a.2 < b.2)
    ||| (a.0 == b.0 && a.1 == b.1 && a.2 == b.2 && a.3 < b.3)
}

/// Whether candidate `k` is the first best-scoring anchor.
pub open spec fn is_first_best(nodes: Seq<CellRect>, k: int, canvas_width: usize, width: usize, height: usize) -> bool {
    &&& 0 <= k < nodes.len()
    &&& forall|j: int|
        0 <= j < nodes.len() ==> !score_better(
            #[trigger] anchor_score(nodes, j, canvas_width, width, height),
            anchor_score(nodes, k, canvas_width, width, height),
        )
    &&& forall|j: int|
        0 <= j < k ==> score_better(
            anchor_score(nodes, k, canvas_width, width, height),
            #[trigger] anchor_score(nodes, j, canvas_width, width, height),
        )
}

/// A canvas that fits (or an overview narrower than its height limit) needs no framing.
pub open spec fn preview_fits(p: &MermaidPreview, width: usize, height: usize) -> bool {
    (p.width <= width || p.overview) && p.height <= height
}

fn complete_at(node: CellRect, x: usize, y: usize, width: usize, height: usize) -> (r: bool)
    ensures
        r == rect_complete(node, x, y, width, height),
{
    node.x >= x && add_sat(node.x, node.width) <= add_sat(x, width) && node.y >= y && add_sat(
        node.y,
        node.height,
    ) <= add_sat(y, height)
}

fn partial_at(node: CellRect, x: usize, y: usize, width: usize, height: usize) -> (r: bool)
    ensures
        r == rect_partial(node, x, y, width, height),
{
    !complete_at(node, x, y, width, height) && node.x < add_sat(x, width) && add_sat(
        node.x,
        node.width,
    ) > x && node.y < add_sat(y, height) && add_sat(node.y, node.height) > y
}

/// Counts of complete and cut nodes for one window.
fn window_counts(nodes: &Vec<CellRect>, x: usize, y: usize, width: usize, height: usize) -> (r: (
    usize,
    usize,
))
    ensures
        r.0 == count_complete(nodes@, x, y, width, height),
        r.1 == count_partial(nodes@, x, y, width, height),
{
    let mut complete: usize = 0;
    let mut partial: usize = 0;
    let mut j: usize = 0;
    while j < nodes.len()
        invariant
            j <= nodes@.len(),
            complete == count_complete(nodes@.take(j as int), x, y, width, height),
            partial == count_partial(nodes@.take(j as int), x, y, width, height),
            complete <= j,
            partial <= j,
        decreases nodes@.len() - j,
    {
        let node = nodes[j];
        proof {
            let t = nodes@.take(j + 1);
            assert(t.drop_last() =~= nodes@.take(j as int));
            assert(t.last() == node);
        }
        if complete_at(node, x, y, width, height) {
            complete = complete + 1;
        } else if partial_at(node, x, y, width, height) {
            partial = partial + 1;
        }
        j = j + 1;
    }
    assert(nodes@.take(nodes@.len() as int) =~= nodes@);
    (complete, partial)
}

fn origin_of(anchor: CellRect, canvas_width: usize, width: usize) -> (r: (usize, usize))
    ensures
        r == anchor_origin(anchor, canvas_width, width),
{
    let x = if anchor.x >= 2 {
        anchor.x - 2
    } else {
        0
    };
    let limit = if canvas_width >= width {
        canvas_width - width
    } else {
        0
    };
    let y = if anchor.y >= 1 {
        anchor.y - 1
    } else {
        0
    };
    (if x < limit {
        x
    } else {
        limit
    }, y)
}

fn better(a: (usize, usize, usize, usize), b: (usize, usize, usize, usize)) -> (r: bool)
    ensures
        r == score_better((a.0 as nat, a.1 as nat, a.2, a.3), (b.0 as nat, b.1 as nat, b.2, b.3)),
{
    a.0 > b.0 || (a.0 == b.0 && a.1 < b.1) || (a.0 == b.0 && a.1 == b.1 && a.2 < b.2) || (a.0
        == b.0 && a.1 == b.1 && a.2 == b.2 && a.3 < b.3)
}

proof fn lemma_score_better_total(a: (nat, nat, usize, usize), b: (nat, nat, usize, usize))
    ensures
        !score_better(a, b) ==> (a == b || score_better(b, a)),
        score_better(a, b) ==> !score_better(b, a),
{
}

proof fn lemma_score_better_trans(a: (nat, nat, usize, usize), b: (nat, nat, usize, usize), c: (nat, nat, usize, usize))
    ensures
        score_better(a, b) && score_better(b, c) ==> score_better(a, c),
        score_better(a, b) && !score_better(c, b) ==> score_better(a, c),
{
}

/// The window origin `preview_origin` chooses.
pub open spec fn spec_preview_origin(
    nodes: Seq<CellRect>,
    canvas_width: usize,
    canvas_height: usize,
    overview: bool,
    width: usize,
    height: usize,
) -> (usize, usize) {
    if (canvas_width <= width || overview) && canvas_height <= height {
        (0usize, 0usize)
    } else if nodes.len() == 0 {
        (0usize, 0usize)
    } else {
        anchor_origin(
            nodes[choose|k: int| is_first_best(nodes, k, canvas_width, width, height)],
            canvas_width,
            width,
        )
    }
}

pub proof fn lemma_first_best_unique(nodes: Seq<CellRect>, k1: int, k2: int, canvas_width: usize, width: usize, height: usize)
    requires
        is_first_best(nodes, k1, canvas_width, width, height),
        is_first_best(nodes, k2, canvas_width, width, height),
    ensures
        k1 == k2,
{
    if k1 < k2 {
        assert(score_better(
            anchor_score(nodes, k2, canvas_width, width, height),
            anchor_score(nodes, k1, canvas_width, width, height),
        ));
    } else if k2 < k1 {
        assert(score_better(
            anchor_score(nodes, k1, canvas_width, width, height),
            anchor_score(nodes, k2, canvas_width, width, height),
        ));
    }
}

/// What `preview_origin` returns for a canvas of the given size and nodes.
pub open spec fn is_preview_origin(
    nodes: Seq<CellRect>,
    canvas_width: usize,
    canvas_height: usize,
    overview: bool,
    width: usize,
    height: usize,
    r: (usize, usize),
) -> bool {
    if (canvas_width <= width || overview) && canvas_height <= height {
        r == (0usize, 0usize)
    } else if nodes.len() == 0 {
        r == (0usize, 0usize)
    } else {
        exists|k: int|
            #[trigger] is_first_best(nodes, k, canvas_width, width, height) && r == anchor_origin(
                nodes[k],
                canvas_width,
                width,
            )
    }
}

impl MermaidPreview {
    /// Choose a window containing complete nodes, not the potentially empty
    /// canvas origin. Ties prefer fewer cut boxes, then normal reading order.
    pub fn preview_origin(&self, width: usize, height: usize) -> (r: (usize, usize))
        ensures
            preview_fits(self, width, height) ==> r == (0usize, 0usize),
            !preview_fits(self, width, height) && self.nodes@.len() == 0 ==> r == (0usize, 0usize),
            !preview_fits(self, width, height) && self.nodes@.len() > 0 ==> exists|k: int|
                #[trigger] is_first_best(self.nodes@, k, self.width, width, height) && r
                    == anchor_origin(self.nodes@[k], self.width, width),
            is_preview_origin(self.nodes@, self.width, self.height, self.overview, width, height, r),
            r == spec_preview_origin(self.nodes@, self.width, self.height, self.overview, width, height),
    {
        if (self.width <= width || self.overview) && self.height <= height {
            return (0, 0);
        }
        let ghost nodes = self.nodes@;
        let mut best: Option<(usize, usize, usize, usize)> = None;
        let ghost mut best_k: int = 0;
        let mut k: usize = 0;
        while k < self.nodes.len()
            invariant
                nodes == self.nodes@,
                k <= nodes.len(),
                best is None <==> k == 0,
                best matches Some(b) ==> {
                    &&& 0 <= best_k < k
                    &&& (b.0 as nat, b.1 as nat, b.2, b.3) == anchor_score(nodes, best_k, self.width, width, height)
                    &&& forall|j: int|
                        0 <= j < k ==> !score_better(
                            #[trigger] anchor_score(nodes, j, self.width, width, height),
                            anchor_score(nodes, best_k, self.width, width, height),
                        )
                    &&& forall|j: int|
                        0 <= j < best_k ==> score_better(
                            anchor_score(nodes, best_k, self.width, width, height),
                            #[trigger] anchor_score(nodes, j, self.width, width, height),
                        )
                },
            decreases nodes.len() - k,
        {
            let (x, y) = origin_of(self.nodes[k], self.width, width);
            let (complete, partial) = window_counts(&self.nodes, x, y, width, height);
            let score = (complete, partial, y, x);
            assert((score.0 as nat, score.1 as nat, score.2, score.3) == anchor_score(nodes, k as int, self.width, width, height));
            match best {
                None => {
                    best = Some(score);
                    proof {
                        best_k = k as int;
                    }
                },
                Some(b) => {
                    if better(score, b) {
                        proof {
                            let sk = anchor_score(nodes, k as int, self.width, width, height);
                            let sb = anchor_score(nodes, best_k, self.width, width, height);
                            assert forall|j: int|
                                0 <= j < k + 1 implies !score_better(
                                #[trigger] anchor_score(nodes, j, self.width, width, height),
                                sk,
                            ) by {
                                let sj = anchor_score(nodes, j, self.width, width, height);
                                if j < k {
                                    lemma_score_better_total(sj, sb);
                                    lemma_score_better_trans(sk, sb, sj);
                                    lemma_score_better_total(sk, sj);
                                } else {
                                    lemma_score_better_total(sk, sk);
                                }
                            }
                            assert forall|j: int| 0 <= j < k implies score_better(
                                sk,
                                #[trigger] anchor_score(nodes, j, self.width, width, height),
                            ) by {
                                let sj = anchor_score(nodes, j, self.width, width, height);
                                lemma_score_better_total(sj, sb);
                                lemma_score_better_trans(sk, sb, sj);
                            }
                            best_k = k as int;
                        }
                        best = Some(score);
                    } else {
                        proof {
                            let sk = anchor_score(nodes, k as int, self.width, width, height);
                            let sb = anchor_score(nodes, best_k, self.width, width, height);
                            lemma_score_better_total(sk, sb);
                        }
                    }
                },
            }
            k = k + 1;
        }
        match best {
            None => (0, 0),
            Some(b) => {
                proof {
                    assert(is_first_best(nodes, best_k, self.width, width, height));
                    let c = choose|k: int| is_first_best(nodes, k, self.width, width, height);
                    lemma_first_best_unique(nodes, c, best_k, self.width, width, height);
                }
                (b.3, b.2)
            },
        }
    }
}

} // verus!
