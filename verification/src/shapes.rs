//! The shape model: transient, in-progress drawing operations.  Each shape
//! recomputes its full preview footprint on the grid while a gesture is in
//! progress and bakes it into content on commit.  The shapes form a closed
//! tagged union dispatched by pattern matching.

pub mod block;
pub mod line;
pub mod rect;
pub mod text;

use vstd::prelude::*;
use vstd::pervasive::VecAdditionalExecFns;

use crate::grid_list::{commit_cells, commit_edits, GridList};
use crate::history::History;
use crate::shapes::block::{block_draw_post, block_draw_req, BlockShape};
use crate::shapes::line::{line_draw_post, line_draw_req, LineShape};
use crate::shapes::rect::{rect_draw_post, rect_draw_req, RectShape};
use crate::shapes::text::{text_draw_post, text_draw_req, TextShape};
use crate::tools::DrawingTools;

verus! {

/// One in-progress drawing operation.
pub enum Shape {
    Line(LineShape),
    Rect(RectShape),
    Block(BlockShape),
    Text(TextShape),
}

impl Shape {
    /// Whether the shape is still previewing.
    pub open spec fn spec_preview(self) -> bool {
        match self {
            Shape::Line(l) => l.preview,
            Shape::Rect(r) => r.preview,
            Shape::Block(b) => b.preview,
            Shape::Text(t) => t.preview,
        }
    }

    /// Whether the shape's commit is driven by explicit user action rather
    /// than mouse-up: true only for text runs.
    pub open spec fn spec_manual(self) -> bool {
        self is Text
    }

    /// The tool tag the shape's commit records on its edits.
    pub open spec fn spec_tool(self) -> DrawingTools {
        match self {
            Shape::Line(_) => DrawingTools::Line,
            Shape::Rect(_) => DrawingTools::Rect,
            Shape::Block(_) => DrawingTools::Select,
            Shape::Text(_) => DrawingTools::Text,
        }
    }

    /// The shape's two anchor grid positions.
    pub open spec fn spec_points(self) -> ((usize, usize), (usize, usize)) {
        match self {
            Shape::Line(l) => (l.start, l.end),
            Shape::Rect(r) => (r.start, r.end),
            Shape::Block(b) => (b.start, b.end),
            Shape::Text(t) => (t.position, t.position),
        }
    }

    /// The same shape with its preview flag lowered.
    pub open spec fn spec_committed(self) -> Shape {
        match self {
            Shape::Line(l) => Shape::Line(LineShape { preview: false, ..l }),
            Shape::Rect(r) => Shape::Rect(RectShape { preview: false, ..r }),
            Shape::Block(b) => Shape::Block(BlockShape { preview: false, ..b }),
            Shape::Text(t) => Shape::Text(TextShape { preview: false, ..t }),
        }
    }

    /// What the shape's redraw needs of the grid.
    pub open spec fn draw_req(self, g: GridList) -> bool {
        match self {
            Shape::Line(l) => line_draw_req(l, g),
            Shape::Rect(r) => rect_draw_req(r, g),
            Shape::Block(b) => block_draw_req(b, g),
            Shape::Text(t) => text_draw_req(t, g),
        }
    }

    /// What the shape's redraw leaves behind.
    pub open spec fn draw_post(self, og: GridList, ng: GridList) -> bool {
        match self {
            Shape::Line(l) => line_draw_post(l, og, ng),
            Shape::Rect(r) => rect_draw_post(r, og, ng),
            Shape::Block(b) => block_draw_post(b, og, ng),
            Shape::Text(t) => text_draw_post(t, og, ng),
        }
    }

    /// Recompute the shape's full preview footprint on the grid.
    pub fn draw(&self, grid_list: &mut GridList)
        requires
            self.draw_req(*old(grid_list)),
        ensures
            self.draw_post(*old(grid_list), *final(grid_list)),
    {
        match self {
            Shape::Line(l) => l.draw(grid_list),
            Shape::Rect(r) => r.draw(grid_list),
            Shape::Block(b) => b.draw(grid_list),
            Shape::Text(t) => t.draw(grid_list),
        }
    }

    /// Commit the shape: every shape but a text run bakes the grid's staged
    /// previews into content (recording one version tagged with its tool);
    /// a text run's characters are already content, so it only leaves
    /// preview mode.
    pub fn commit(&mut self, grid_list: &mut GridList, history: &mut History)
        requires
            old(history).wf(),
        ensures
            *final(self) == old(self).spec_committed(),
            final(history).wf(),
            (*old(self)) is Text ==> *final(grid_list) == *old(grid_list)
                && *final(history) == *old(history),
            !((*old(self)) is Text) ==> {
                &&& final(grid_list).wf() == old(grid_list).wf()
                &&& final(grid_list).grid_size == old(grid_list).grid_size
                &&& final(grid_list).current_selection == old(grid_list).current_selection
                &&& final(grid_list).data@ == commit_cells(old(grid_list).data@)
                &&& commit_edits(old(grid_list).data@, old(self).spec_tool()).len() == 0
                    ==> *final(history) == *old(history)
                &&& commit_edits(old(grid_list).data@, old(self).spec_tool()).len() > 0 ==> {
                    &&& final(history).versions@.len() == old(history).index + 1
                    &&& final(history).versions@[old(history).index as int].edits@ == commit_edits(
                        old(grid_list).data@,
                        old(self).spec_tool(),
                    )
                    &&& final(history).index == old(history).index + 1
                }
            },
    {
        match self {
            Shape::Line(l) => l.commit(grid_list, history),
            Shape::Rect(r) => r.commit(grid_list, history),
            Shape::Block(b) => b.commit(grid_list, history),
            Shape::Text(t) => t.commit(grid_list),
        }
    }

    pub fn is_preview(&self) -> (r: bool)
        ensures
            r == self.spec_preview(),
    {
        match self {
            Shape::Line(l) => l.is_preview(),
            Shape::Rect(r) => r.is_preview(),
            Shape::Block(b) => b.is_preview(),
            Shape::Text(t) => t.is_preview(),
        }
    }

    pub fn is_manual_commit(&self) -> (r: bool)
        ensures
            r == self.spec_manual(),
    {
        match self {
            Shape::Line(l) => l.is_manual_commit(),
            Shape::Rect(r) => r.is_manual_commit(),
            Shape::Block(b) => b.is_manual_commit(),
            Shape::Text(t) => t.is_manual_commit(),
        }
    }

    pub fn get_points(&self) -> (r: ((usize, usize), (usize, usize)))
        ensures
            r == self.spec_points(),
    {
        match self {
            Shape::Line(l) => (l.start, l.end),
            Shape::Rect(r) => (r.start, r.end),
            Shape::Block(b) => (b.start, b.end),
            Shape::Text(t) => (t.position, t.position),
        }
    }
}

/// A shape whose preview is committed automatically on mouse-up.
pub open spec fn shape_pending(sh: Shape) -> bool {
    sh.spec_preview() && !sh.spec_manual()
}

/// The first index at or past `k` holding a pending shape.
pub open spec fn first_pending_from(shapes: Seq<Shape>, k: int) -> Option<int>
    decreases shapes.len() - k,
{
    if k < 0 || k >= shapes.len() {
        None
    } else if shape_pending(shapes[k]) {
        Some(k)
    } else {
        first_pending_from(shapes, k + 1)
    }
}

/// The first index at or past `k` holding a shape whose commit touches the
/// grid (everything but a text run).
pub open spec fn first_grid_committer_from(shapes: Seq<Shape>, k: int) -> Option<int>
    decreases shapes.len() - k,
{
    if k < 0 || k >= shapes.len() {
        None
    } else if !(shapes[k] is Text) {
        Some(k)
    } else {
        first_grid_committer_from(shapes, k + 1)
    }
}

proof fn lemma_first_pending_from_props(shapes: Seq<Shape>, k: int)
    requires
        0 <= k <= shapes.len(),
    ensures
        match first_pending_from(shapes, k) {
            None => forall|j: int| k <= j < shapes.len() ==> !shape_pending(#[trigger] shapes[j]),
            Some(k0) => k <= k0 < shapes.len() && shape_pending(shapes[k0]) && forall|j: int|
                k <= j < k0 ==> !shape_pending(#[trigger] shapes[j]),
        },
    decreases shapes.len() - k,
{
    if k < shapes.len() && !shape_pending(shapes[k]) {
        lemma_first_pending_from_props(shapes, k + 1);
    }
}

proof fn lemma_first_grid_committer_from_props(shapes: Seq<Shape>, k: int)
    requires
        0 <= k <= shapes.len(),
    ensures
        match first_grid_committer_from(shapes, k) {
            None => forall|j: int| k <= j < shapes.len() ==> (#[trigger] shapes[j]) is Text,
            Some(k0) => k <= k0 < shapes.len() && !(shapes[k0] is Text) && forall|j: int|
                k <= j < k0 ==> (#[trigger] shapes[j]) is Text,
        },
    decreases shapes.len() - k,
{
    if k < shapes.len() && shapes[k] is Text {
        lemma_first_grid_committer_from_props(shapes, k + 1);
    }
}

/// The log of shapes plus the one being drawn (always last while a gesture
/// is in progress).
pub struct ShapeList {
    pub data: Vec<Shape>,
}

impl ShapeList {
    pub fn new() -> (r: Self)
        ensures
            r.data@.len() == 0,
    {
        Self { data: Vec::new() }
    }

    pub fn add_shape(&mut self, shape: Shape)
        ensures
            final(self).data@ == old(self).data@.push(shape),
    {
        self.data.push(shape);
    }

    /// Redraw the preview of the in-progress (last) shape, if it is still
    /// previewing.
    pub fn draw(&self, grid_list: &mut GridList)
        requires
            self.data@.len() > 0 && self.data@.last().spec_preview() ==> self.data@.last().draw_req(
                *old(grid_list),
            ),
        ensures
            self.data@.len() > 0 && self.data@.last().spec_preview() ==> self.data@.last().draw_post(
                *old(grid_list),
                *final(grid_list),
            ),
            !(self.data@.len() > 0 && self.data@.last().spec_preview()) ==> *final(grid_list)
                == *old(grid_list),
    {
        let n = self.data.len();
        if n > 0 {
            let shape = &self.data[n - 1];
            if shape.is_preview() {
                shape.draw(grid_list);
            }
        }
    }

    /// Commit every shape that is still previewing and commits automatically
    /// on mouse-up.  The first such shape bakes the grid's staged previews
    /// into one recorded version; later ones find nothing left to commit.
    pub fn commit(&mut self, grid_list: &mut GridList, history: &mut History)
        requires
            old(history).wf(),
        ensures
            final(self).data@.len() == old(self).data@.len(),
            forall|j: int|
                0 <= j < old(self).data@.len() ==> final(self).data@[j] == (if shape_pending(
                    #[trigger] old(self).data@[j],
                ) {
                    old(self).data@[j].spec_committed()
                } else {
                    old(self).data@[j]
                }),
            final(history).wf(),
            first_pending_from(old(self).data@, 0) is None ==> *final(grid_list) == *old(grid_list)
                && *final(history) == *old(history),
            first_pending_from(old(self).data@, 0) is Some ==> {
                &&& final(grid_list).wf() == old(grid_list).wf()
                &&& final(grid_list).grid_size == old(grid_list).grid_size
                &&& final(grid_list).current_selection == old(grid_list).current_selection
                &&& final(grid_list).data@ == commit_cells(old(grid_list).data@)
                &&& ({
                    let tool = old(self).data@[first_pending_from(
                        old(self).data@,
                        0,
                    )->0].spec_tool();
                    let edits = commit_edits(old(grid_list).data@, tool);
                    &&& (edits.len() == 0 ==> *final(history) == *old(history))
                    &&& (edits.len() > 0 ==> {
                        &&& final(history).versions@.len() == old(history).index + 1
                        &&& final(history).versions@[old(history).index as int].edits@ == edits
                        &&& final(history).index == old(history).index + 1
                    })
                })
            },
    {
        let ghost shapes0 = self.data@;
        let ghost fp = first_pending_from(shapes0, 0);
        proof {
            lemma_first_pending_from_props(shapes0, 0);
        }
        let n = self.data.len();
        let mut k: usize = 0;
        while k < n
            invariant
                k <= n,
                n == self.data@.len(),
                shapes0.len() == n,
                old(history).wf(),
                history.wf(),
                fp == first_pending_from(shapes0, 0),
                forall|j: int|
                    0 <= j < k ==> self.data@[j] == (if shape_pending(#[trigger] shapes0[j]) {
                        shapes0[j].spec_committed()
                    } else {
                        shapes0[j]
                    }),
                forall|j: int| k <= j < n ==> self.data@[j] == shapes0[j],
                (fp is None || fp->0 >= k) ==> *grid_list == *old(grid_list) && *history == *old(
                    history,
                ),
                (fp is Some && fp->0 < k) ==> {
                    &&& grid_list.wf() == old(grid_list).wf()
                    &&& grid_list.grid_size == old(grid_list).grid_size
                    &&& grid_list.current_selection == old(grid_list).current_selection
                    &&& grid_list.data@ == commit_cells(old(grid_list).data@)
                    &&& ({
                        let tool = shapes0[fp->0].spec_tool();
                        let edits = commit_edits(old(grid_list).data@, tool);
                        &&& (edits.len() == 0 ==> *history == *old(history))
                        &&& (edits.len() > 0 ==> {
                            &&& history.versions@.len() == old(history).index + 1
                            &&& history.versions@[old(history).index as int].edits@ == edits
                            &&& history.index == old(history).index + 1
                        })
                    })
                },
            decreases n - k,
        {
            proof {
                lemma_first_pending_from_props(shapes0, 0);
            }
            let is_p = self.data[k].is_preview();
            let is_m = self.data[k].is_manual_commit();
            if is_p && !is_m {
                proof {
                    lemma_first_pending_from_props(shapes0, 0);
                    assert(shape_pending(shapes0[k as int]));
                }
                let mut sh = Shape::Line(LineShape::new(0, 0));
                self.data.set_and_swap(k, &mut sh);
                let ghost grid_before = *grid_list;
                sh.commit(grid_list, history);
                self.data.set(k, sh);
                proof {
                    if fp is Some && fp->0 < k as int {
                        crate::grid_list::lemma_commit_all_idempotent(
                            old(grid_list).data@,
                            shapes0[k as int].spec_tool(),
                        );
                    }
                }
            }
            k = k + 1;
        }
    }

    /// Commit every shape, the manual ones included.
    pub fn commit_all(&mut self, grid_list: &mut GridList, history: &mut History)
        requires
            old(history).wf(),
        ensures
            final(self).data@.len() == old(self).data@.len(),
            forall|j: int|
                0 <= j < old(self).data@.len() ==> final(self).data@[j] == #[trigger] old(
                    self,
                ).data@[j].spec_committed(),
            final(history).wf(),
            first_grid_committer_from(old(self).data@, 0) is None ==> *final(grid_list) == *old(
                grid_list,
            ) && *final(history) == *old(history),
            first_grid_committer_from(old(self).data@, 0) is Some ==> {
                &&& final(grid_list).wf() == old(grid_list).wf()
                &&& final(grid_list).grid_size == old(grid_list).grid_size
                &&& final(grid_list).current_selection == old(grid_list).current_selection
                &&& final(grid_list).data@ == commit_cells(old(grid_list).data@)
                &&& ({
                    let tool = old(self).data@[first_grid_committer_from(
                        old(self).data@,
                        0,
                    )->0].spec_tool();
                    let edits = commit_edits(old(grid_list).data@, tool);
                    &&& (edits.len() == 0 ==> *final(history) == *old(history))
                    &&& (edits.len() > 0 ==> {
                        &&& final(history).versions@.len() == old(history).index + 1
                        &&& final(history).versions@[old(history).index as int].edits@ == edits
                        &&& final(history).index == old(history).index + 1
                    })
                })
            },
    {
        let ghost shapes0 = self.data@;
        let ghost fg = first_grid_committer_from(shapes0, 0);
        proof {
            lemma_first_grid_committer_from_props(shapes0, 0);
        }
        let n = self.data.len();
        let mut k: usize = 0;
        while k < n
            invariant
                k <= n,
                n == self.data@.len(),
                shapes0.len() == n,
                old(history).wf(),
                history.wf(),
                fg == first_grid_committer_from(shapes0, 0),
                forall|j: int|
                    0 <= j < k ==> self.data@[j] == #[trigger] shapes0[j].spec_committed(),
                forall|j: int| k <= j < n ==> self.data@[j] == shapes0[j],
                (fg is None || fg->0 >= k) ==> *grid_list == *old(grid_list) && *history == *old(
                    history,
                ),
                (fg is Some && fg->0 < k) ==> {
                    &&& grid_list.wf() == old(grid_list).wf()
                    &&& grid_list.grid_size == old(grid_list).grid_size
                    &&& grid_list.current_selection == old(grid_list).current_selection
                    &&& grid_list.data@ == commit_cells(old(grid_list).data@)
                    &&& ({
                        let tool = shapes0[fg->0].spec_tool();
                        let edits = commit_edits(old(grid_list).data@, tool);
                        &&& (edits.len() == 0 ==> *history == *old(history))
                        &&& (edits.len() > 0 ==> {
                            &&& history.versions@.len() == old(history).index + 1
                            &&& history.versions@[old(history).index as int].edits@ == edits
                            &&& history.index == old(history).index + 1
                        })
                    })
                },
            decreases n - k,
        {
            proof {
                lemma_first_grid_committer_from_props(shapes0, 0);
            }
            let mut sh = Shape::Line(LineShape::new(0, 0));
            self.data.set_and_swap(k, &mut sh);
            sh.commit(grid_list, history);
            self.data.set(k, sh);
            proof {
                if fg is Some && fg->0 < k as int && !(shapes0[k as int] is Text) {
                    crate::grid_list::lemma_commit_all_idempotent(
                        old(grid_list).data@,
                        shapes0[k as int].spec_tool(),
                    );
                }
            }
            k = k + 1;
        }
    }

    /// Whether the shape's normalized bounding box contains `(row, col)`,
    /// with half-open upper bounds.
    pub open spec fn spec_contains_point(sh: Shape, row: int, col: int) -> bool {
        let ((ar, ac), (br, bc)) = sh.spec_points();
        let min_r: int = if ar <= br { ar as int } else { br as int };
        let max_r: int = if ar <= br { br as int } else { ar as int };
        let min_c: int = if ac <= bc { ac as int } else { bc as int };
        let max_c: int = if ac <= bc { bc as int } else { ac as int };
        min_r <= row < max_r && min_c <= col < max_c
    }

    /// Find the first shape whose normalized bounding box contains the
    /// given grid position.
    pub fn find_shape_in_point(&self, row: usize, col: usize) -> (r: Option<usize>)
        ensures
            match r {
                Some(k) => k < self.data@.len() && Self::spec_contains_point(
                    self.data@[k as int],
                    row as int,
                    col as int,
                ) && forall|j: int|
                    0 <= j < k ==> !Self::spec_contains_point(
                        #[trigger] self.data@[j],
                        row as int,
                        col as int,
                    ),
                None => forall|j: int|
                    0 <= j < self.data@.len() ==> !Self::spec_contains_point(
                        #[trigger] self.data@[j],
                        row as int,
                        col as int,
                    ),
            },
    {
        let n = self.data.len();
        let mut k: usize = 0;
        while k < n
            invariant
                k <= n,
                n == self.data@.len(),
                forall|j: int|
                    0 <= j < k ==> !Self::spec_contains_point(
                        #[trigger] self.data@[j],
                        row as int,
                        col as int,
                    ),
            decreases n - k,
        {
            let ((ar, ac), (br, bc)) = self.data[k].get_points();
            let min_r = if ar <= br { ar } else { br };
            let max_r = if ar <= br { br } else { ar };
            let min_c = if ac <= bc { ac } else { bc };
            let max_c = if ac <= bc { bc } else { ac };
            if min_r <= row && row < max_r && min_c <= col && col < max_c {
                return Some(k);
            }
            k = k + 1;
        }
        None
    }

    /// Whether both of the shape's anchor points fall inside the given
    /// (already ordered) rectangle, with half-open upper bounds.
    pub open spec fn spec_in_rect(sh: Shape, r0: int, c0: int, r1: int, c1: int) -> bool {
        let ((ar, ac), (br, bc)) = sh.spec_points();
        r0 <= ar < r1 && c0 <= ac < c1 && r0 <= br < r1 && c0 <= bc < c1
    }

    /// The indices of the shapes lying in the rectangle, among the first `n`.
    pub open spec fn rect_matches_up_to(
        shapes: Seq<Shape>,
        r0: int,
        c0: int,
        r1: int,
        c1: int,
        n: int,
    ) -> Seq<usize>
        decreases n,
    {
        if n <= 0 {
            Seq::empty()
        } else {
            Self::rect_matches_up_to(shapes, r0, c0, r1, c1, n - 1) + (if Self::spec_in_rect(
                shapes[n - 1],
                r0,
                c0,
                r1,
                c1,
            ) {
                seq![(n - 1) as usize]
            } else {
                Seq::empty()
            })
        }
    }

    /// Find every shape lying entirely inside the given rectangle, in order.
    pub fn find_shape_in_rect(&self, r0: usize, c0: usize, r1: usize, c1: usize) -> (r: Vec<usize>)
        ensures
            r@ == Self::rect_matches_up_to(
                self.data@,
                r0 as int,
                c0 as int,
                r1 as int,
                c1 as int,
                self.data@.len() as int,
            ),
    {
        let n = self.data.len();
        let mut result: Vec<usize> = Vec::new();
        let mut k: usize = 0;
        while k < n
            invariant
                k <= n,
                n == self.data@.len(),
                result@ == Self::rect_matches_up_to(
                    self.data@,
                    r0 as int,
                    c0 as int,
                    r1 as int,
                    c1 as int,
                    k as int,
                ),
            decreases n - k,
        {
            let ((ar, ac), (br, bc)) = self.data[k].get_points();
            if r0 <= ar && ar < r1 && c0 <= ac && ac < c1 && r0 <= br && br < r1 && c0 <= bc && bc
                < c1 {
                result.push(k);
                proof {
                    assert(result@ =~= Self::rect_matches_up_to(
                        self.data@,
                        r0 as int,
                        c0 as int,
                        r1 as int,
                        c1 as int,
                        k as int,
                    ) + seq![k]);
                }
            }
            k = k + 1;
        }
        result
    }
}

} // verus!
