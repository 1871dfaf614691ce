//! Uniform-grid spatial hash for neighbour queries.
//!
//! Built fresh each tick: `clear()` and a stream of `insert` calls at
//! the start of a frame, then any number of queries during it. The grid
//! works on cell coordinates; the caller maps world positions to cells
//! (a position `p` lies in cell `floor(p / cell_size)`) and sizes the
//! cells to about twice the largest hit radius, so an overlap spans at
//! most the entry's own cell and one ring of neighbours.
use vstd::prelude::*;

verus! {

/// Cell payload: entry indices (typically enemy indices).
pub type Entry = u32;

/// `cols` × `rows` cells, row-major, each holding the entries inserted
/// into it in insertion order.
pub struct SpatialGrid {
    cols: i32,
    rows: i32,
    cells: Vec<Vec<Entry>>,
}

/// Row-major index of an in-grid cell, and that distinct cells have
/// distinct indices.
proof fn lemma_cell_index(x: int, y: int, cols: int, rows: int)
    requires
        0 <= x < cols,
        0 <= y < rows,
    ensures
        0 <= y * cols + x < cols * rows,
{
    assert(0 <= y * cols) by (nonlinear_arith)
        requires
            0 <= y,
            0 <= cols,
    ;
    assert(y * cols + x < cols * rows) by (nonlinear_arith)
        requires
            0 <= x < cols,
            0 <= y < rows,
    ;
}

proof fn lemma_cell_index_distinct(x: int, y: int, a: int, b: int, cols: int)
    requires
        0 <= x < cols,
        0 <= a < cols,
        0 <= y,
        0 <= b,
        !(x == a && y == b),
    ensures
        y * cols + x != b * cols + a,
{
    if y == b {
    } else if y < b {
        assert(y * cols + x < b * cols + a) by (nonlinear_arith)
            requires
                0 <= x < cols,
                0 <= a,
                y < b,
        ;
    } else {
        assert(b * cols + a < y * cols + x) by (nonlinear_arith)
            requires
                0 <= a < cols,
                0 <= x,
                b < y,
        ;
    }
}

pub open spec fn max0(a: int, b: int) -> int {
    if a >= b {
        a
    } else {
        b
    }
}

pub open spec fn min0(a: int, b: int) -> int {
    if a <= b {
        a
    } else {
        b
    }
}

impl SpatialGrid {
    #[verifier::type_invariant]
    spec fn inv(self) -> bool {
        &&& self.cols >= 1
        &&& self.rows >= 1
        &&& self.cells@.len() == self.cols as int * self.rows as int
        &&& self.cols as int * self.rows as int <= i32::MAX
    }

    pub closed spec fn spec_cols(self) -> int {
        self.cols as int
    }

    pub closed spec fn spec_rows(self) -> int {
        self.rows as int
    }

    pub open spec fn in_grid(self, x: int, y: int) -> bool {
        0 <= x < self.spec_cols() && 0 <= y < self.spec_rows()
    }

    /// The entries of cell `(x, y)`, in insertion order.
    pub closed spec fn cell(self, x: int, y: int) -> Seq<Entry> {
        self.cells@[y * self.cols + x]@
    }

    /// Cells `x0..=x1` of row `y`, concatenated left to right.
    pub open spec fn row_run(self, y: int, x0: int, x1: int) -> Seq<Entry>
        decreases x1 - x0 + 1,
    {
        if x1 < x0 {
            Seq::empty()
        } else {
            self.row_run(y, x0, x1 - 1) + self.cell(x1, y)
        }
    }

    /// The cells of the block `x0..=x1` × `y0..=y1`, row by row from the
    /// top, each row left to right.
    pub open spec fn block(self, x0: int, x1: int, y0: int, y1: int) -> Seq<Entry>
        decreases y1 - y0 + 1,
    {
        if y1 < y0 {
            Seq::empty()
        } else {
            self.block(x0, x1, y0, y1 - 1) + self.row_run(y1, x0, x1)
        }
    }

    /// What a query with reach `span` cells from cell `(cx, cy)` visits:
    /// nothing when the cell is off the grid, otherwise the block of
    /// cells within `span` of it in both directions, clipped to the grid.
    pub open spec fn span_block(self, cx: int, cy: int, span: int) -> Seq<Entry> {
        if !self.in_grid(cx, cy) {
            Seq::empty()
        } else {
            self.block(
                max0(cx - span, 0),
                min0(cx + span, self.spec_cols() - 1),
                max0(cy - span, 0),
                min0(cy + span, self.spec_rows() - 1),
            )
        }
    }

    /// A grid of `cols` × `rows` empty cells (each at least one).
    pub fn new(cols: i32, rows: i32) -> (g: Self)
        requires
            max0(cols as int, 1) * max0(rows as int, 1) <= i32::MAX,
        ensures
            g.spec_cols() == max0(cols as int, 1),
            g.spec_rows() == max0(rows as int, 1),
            forall|x: int, y: int| g.in_grid(x, y) ==> #[trigger] g.cell(x, y) == Seq::<Entry>::empty(),
    {
        let c: i32 = if cols >= 1 {
            cols
        } else {
            1
        };
        let r: i32 = if rows >= 1 {
            rows
        } else {
            1
        };
        let n: usize = (c * r) as usize;
        let mut cells: Vec<Vec<Entry>> = Vec::new();
        let mut i: usize = 0;
        while i < n
            invariant
                i <= n,
                cells@.len() == i,
                forall|j: int| 0 <= j < i ==> (#[trigger] cells@[j])@ == Seq::<Entry>::empty(),
            decreases n - i,
        {
            cells.push(Vec::new());
            i = i + 1;
        }
        let g = SpatialGrid { cols: c, rows: r, cells };
        assert forall|x: int, y: int| g.in_grid(x, y) implies #[trigger] g.cell(x, y) == Seq::<Entry>::empty() by {
            lemma_cell_index(x, y, c as int, r as int);
        }
        g
    }

    /// Empty every cell; the grid keeps its size.
    pub fn clear(&mut self)
        ensures
            final(self).spec_cols() == old(self).spec_cols(),
            final(self).spec_rows() == old(self).spec_rows(),
            forall|x: int, y: int| final(self).in_grid(x, y) ==> #[trigger] final(self).cell(x, y) == Seq::<Entry>::empty(),
    {
        proof {
            use_type_invariant(&*self);
        }
        let mut taken = SpatialGrid { cols: 1, rows: 1, cells: vec![Vec::new()] };
        core::mem::swap(self, &mut taken);
        let SpatialGrid { cols, rows, mut cells } = taken;
        let n = cells.len();
        let mut i: usize = 0;
        while i < n
            invariant
                i <= n,
                cells@.len() == n,
                forall|j: int| 0 <= j < i ==> (#[trigger] cells@[j])@ == Seq::<Entry>::empty(),
            decreases n - i,
        {
            cells[i].clear();
            i = i + 1;
        }
        *self = SpatialGrid { cols, rows, cells };
        assert forall|x: int, y: int| self.in_grid(x, y) implies #[trigger] self.cell(x, y) == Seq::<Entry>::empty() by {
            lemma_cell_index(x, y, cols as int, rows as int);
        }
    }

    /// Add `idx` to cell `(cx, cy)`; a cell off the grid is ignored.
    pub fn insert(&mut self, idx: Entry, cx: i32, cy: i32)
        ensures
            final(self).spec_cols() == old(self).spec_cols(),
            final(self).spec_rows() == old(self).spec_rows(),
            old(self).in_grid(cx as int, cy as int) ==> final(self).cell(cx as int, cy as int) == old(
                self,
            ).cell(cx as int, cy as int).push(idx),
            forall|x: int, y: int|
                final(self).in_grid(x, y) && !(x == cx && y == cy) ==> #[trigger] final(self).cell(x, y)
                    == old(self).cell(x, y),
            !old(self).in_grid(cx as int, cy as int) ==> forall|x: int, y: int|
                final(self).in_grid(x, y) ==> #[trigger] final(self).cell(x, y) == old(self).cell(x, y),
    {
        proof {
            use_type_invariant(&*self);
        }
        if cx < 0 || cy < 0 || cx >= self.cols || cy >= self.rows {
            return;
        }
        proof {
            lemma_cell_index(cx as int, cy as int, self.cols as int, self.rows as int);
        }
        let i = (cy * self.cols + cx) as usize;
        let mut taken = SpatialGrid { cols: 1, rows: 1, cells: vec![Vec::new()] };
        core::mem::swap(self, &mut taken);
        let SpatialGrid { cols, rows, mut cells } = taken;
        cells[i].push(idx);
        *self = SpatialGrid { cols, rows, cells };
        assert forall|x: int, y: int|
            self.in_grid(x, y) && !(x == cx && y == cy) implies #[trigger] self.cell(x, y) == old(self).cell(
                x,
                y,
            ) by {
            lemma_cell_index(x, y, cols as int, rows as int);
            lemma_cell_index_distinct(x, y, cx as int, cy as int, cols as int);
        }
    }

    /// The entries of the block `x0..=x1` × `y0..=y1`, in visiting order.
    fn collect_block(&self, x0: i32, x1: i32, y0: i32, y1: i32) -> (out: Vec<Entry>)
        requires
            0 <= x0 <= x1 < self.spec_cols(),
            0 <= y0 <= y1 < self.spec_rows(),
        ensures
            out@ == self.block(x0 as int, x1 as int, y0 as int, y1 as int),
    {
        proof {
            use_type_invariant(self);
        }
        let mut out: Vec<Entry> = Vec::new();
        let mut yy = y0;
        while yy <= y1
            invariant
                0 <= x0 <= x1 < self.cols,
                0 <= y0 <= yy <= y1 + 1,
                y1 < self.rows,
                self.cols >= 1,
                self.cells@.len() == self.cols as int * self.rows as int,
                self.cols as int * self.rows as int <= i32::MAX,
                out@ == self.block(x0 as int, x1 as int, y0 as int, yy - 1),
            decreases y1 + 1 - yy,
        {
            let ghost before = out@;
            let mut xx = x0;
            while xx <= x1
                invariant
                    0 <= x0 <= xx <= x1 + 1,
                    x1 < self.cols,
                    0 <= y0 <= yy <= y1,
                    y1 < self.rows,
                    self.cells@.len() == self.cols as int * self.rows as int,
                    self.cols as int * self.rows as int <= i32::MAX,
                    out@ == before + self.row_run(yy as int, x0 as int, xx - 1),
                decreases x1 + 1 - xx,
            {
                proof {
                    lemma_cell_index(xx as int, yy as int, self.cols as int, self.rows as int);
                }
                let i = (yy * self.cols + xx) as usize;
                let cell = &self.cells[i];
                let ghost mid = out@;
                let mut k: usize = 0;
                while k < cell.len()
                    invariant
                        k <= cell@.len(),
                        out@ == mid + cell@.take(k as int),
                    decreases cell@.len() - k,
                {
                    out.push(cell[k]);
                    assert(cell@.take(k + 1) =~= cell@.take(k as int).push(cell@[k as int]));
                    k = k + 1;
                }
                assert(cell@.take(cell@.len() as int) =~= cell@);
                assert(self.cell(xx as int, yy as int) == cell@);
                assert(out@ =~= before + self.row_run(yy as int, x0 as int, xx as int));
                xx = xx + 1;
            }
            assert(out@ =~= self.block(x0 as int, x1 as int, y0 as int, yy as int));
            yy = yy + 1;
        }
        out
    }

    /// The entries of the 3×3 block of cells centred on `(cx, cy)`
    /// (clipped to the grid), row by row, in the order a visit sees
    /// them; none when `(cx, cy)` is off the grid. The caller applies
    /// the actual distance check to each candidate.
    pub fn for_each_near(&self, cx: i32, cy: i32) -> (out: Vec<Entry>)
        ensures
            out@ == self.span_block(cx as int, cy as int, 1),
    {
        self.for_each_in_radius(cx, cy, 1)
    }

    /// The entries of the cells within `cells` of `(cx, cy)` in both
    /// directions (at least one; clipped to the grid), row by row; none
    /// when `(cx, cy)` is off the grid. For a radius `r` the caller
    /// passes `ceil(r / cell_size)`.
    pub fn for_each_in_radius(&self, cx: i32, cy: i32, cells: i32) -> (out: Vec<Entry>)
        ensures
            out@ == self.span_block(cx as int, cy as int, max0(cells as int, 1)),
    {
        proof {
            use_type_invariant(self);
        }
        if cx < 0 || cy < 0 || cx >= self.cols || cy >= self.rows {
            return Vec::new();
        }
        let span: i32 = if cells >= 1 {
            cells
        } else {
            1
        };
        let x0: i32 = if cx >= span {
            cx - span
        } else {
            0
        };
        let y0: i32 = if cy >= span {
            cy - span
        } else {
            0
        };
        let x1: i32 = if span >= self.cols - 1 - cx {
            self.cols - 1
        } else {
            cx + span
        };
        let y1: i32 = if span >= self.rows - 1 - cy {
            self.rows - 1
        } else {
            cy + span
        };
        self.collect_block(x0, x1, y0, y1)
    }
}

proof fn lemma_concat_has<A>(s: Seq<A>, t: Seq<A>, e: A)
    requires
        s.contains(e) || t.contains(e),
    ensures
        (s + t).contains(e),
{
    if s.contains(e) {
        let i = choose|i: int| 0 <= i < s.len() && s[i] == e;
        assert((s + t)[i] == e);
    } else {
        let i = choose|i: int| 0 <= i < t.len() && t[i] == e;
        assert((s + t)[s.len() + i] == e);
    }
}

proof fn lemma_concat_from<A>(s: Seq<A>, t: Seq<A>, e: A)
    requires
        (s + t).contains(e),
    ensures
        s.contains(e) || t.contains(e),
{
    let i = choose|i: int| 0 <= i < (s + t).len() && (s + t)[i] == e;
    if i < s.len() {
        assert(s[i] == e);
    } else {
        assert(t[i - s.len()] == e);
    }
}

proof fn lemma_row_has(g: SpatialGrid, y: int, x0: int, x1: int, x: int, e: Entry)
    requires
        x0 <= x <= x1,
        g.cell(x, y).contains(e),
    ensures
        g.row_run(y, x0, x1).contains(e),
    decreases x1 - x0,
{
    if x < x1 {
        lemma_row_has(g, y, x0, x1 - 1, x, e);
    }
    lemma_concat_has(g.row_run(y, x0, x1 - 1), g.cell(x1, y), e);
}

proof fn lemma_block_has(g: SpatialGrid, x0: int, x1: int, y0: int, y1: int, x: int, y: int, e: Entry)
    requires
        x0 <= x <= x1,
        y0 <= y <= y1,
        g.cell(x, y).contains(e),
    ensures
        g.block(x0, x1, y0, y1).contains(e),
    decreases y1 - y0,
{
    if y < y1 {
        lemma_block_has(g, x0, x1, y0, y1 - 1, x, y, e);
    } else {
        lemma_row_has(g, y, x0, x1, x, e);
    }
    lemma_concat_has(g.block(x0, x1, y0, y1 - 1), g.row_run(y1, x0, x1), e);
}

proof fn lemma_row_from(g: SpatialGrid, y: int, x0: int, x1: int, e: Entry) -> (x: int)
    requires
        g.row_run(y, x0, x1).contains(e),
    ensures
        x0 <= x <= x1,
        g.cell(x, y).contains(e),
    decreases x1 - x0 + 1,
{
    if x1 < x0 {
        assert(false);
        x0
    } else {
        lemma_concat_from(g.row_run(y, x0, x1 - 1), g.cell(x1, y), e);
        if g.cell(x1, y).contains(e) {
            x1
        } else {
            lemma_row_from(g, y, x0, x1 - 1, e)
        }
    }
}

proof fn lemma_block_from(g: SpatialGrid, x0: int, x1: int, y0: int, y1: int, e: Entry) -> (p: (int, int))
    requires
        g.block(x0, x1, y0, y1).contains(e),
    ensures
        x0 <= p.0 <= x1,
        y0 <= p.1 <= y1,
        g.cell(p.0, p.1).contains(e),
    decreases y1 - y0 + 1,
{
    if y1 < y0 {
        assert(false);
        (x0, y0)
    } else {
        lemma_concat_from(g.block(x0, x1, y0, y1 - 1), g.row_run(y1, x0, x1), e);
        if g.row_run(y1, x0, x1).contains(e) {
            let x = lemma_row_from(g, y1, x0, x1, e);
            (x, y1)
        } else {
            lemma_block_from(g, x0, x1, y0, y1 - 1, e)
        }
    }
}

/// A query reaches exactly the nearby cells: an entry of an in-grid cell
/// within `span` (at least one) of the query cell in both directions is
/// among the results, and every result comes from such a cell.
pub proof fn lemma_query_reach(g: SpatialGrid, cx: int, cy: int, span: int, e: Entry)
    requires
        g.in_grid(cx, cy),
        span >= 1,
    ensures
        g.span_block(cx, cy, span).contains(e) <==> exists|x: int, y: int|
            #![trigger g.cell(x, y)]
            g.in_grid(x, y) && cx - span <= x <= cx + span && cy - span <= y <= cy + span && g.cell(
                x,
                y,
            ).contains(e),
{
    let x0 = max0(cx - span, 0);
    let x1 = min0(cx + span, g.spec_cols() - 1);
    let y0 = max0(cy - span, 0);
    let y1 = min0(cy + span, g.spec_rows() - 1);
    if g.span_block(cx, cy, span).contains(e) {
        let p = lemma_block_from(g, x0, x1, y0, y1, e);
        assert(g.in_grid(p.0, p.1) && cx - span <= p.0 <= cx + span && cy - span <= p.1 <= cy + span
            && g.cell(p.0, p.1).contains(e));
    }
    if exists|x: int, y: int|
        #![trigger g.cell(x, y)]
        g.in_grid(x, y) && cx - span <= x <= cx + span && cy - span <= y <= cy + span && g.cell(
            x,
            y,
        ).contains(e) {
        let (x, y) = choose|x: int, y: int|
            #![trigger g.cell(x, y)]
            g.in_grid(x, y) && cx - span <= x <= cx + span && cy - span <= y <= cy + span && g.cell(
                x,
                y,
            ).contains(e);
        lemma_block_has(g, x0, x1, y0, y1, x, y, e);
    }
}

/// A grid whose cells are all empty (as `clear` leaves it) answers
/// every query with nothing.
pub proof fn lemma_empty_grid_queries(g: SpatialGrid, cx: int, cy: int, span: int)
    requires
        span >= 1,
        forall|x: int, y: int| g.in_grid(x, y) ==> #[trigger] g.cell(x, y) == Seq::<Entry>::empty(),
    ensures
        g.span_block(cx, cy, span) == Seq::<Entry>::empty(),
{
    if g.in_grid(cx, cy) {
        let s = g.span_block(cx, cy, span);
        if s.len() > 0 {
            lemma_query_reach(g, cx, cy, span, s[0]);
            assert(s.contains(s[0]));
            let (x, y) = choose|x: int, y: int|
                #![trigger g.cell(x, y)]
                g.in_grid(x, y) && cx - span <= x <= cx + span && cy - span <= y <= cy + span
                    && g.cell(x, y).contains(s[0]);
            assert(g.cell(x, y) == Seq::<Entry>::empty());
        }
        assert(s =~= Seq::<Entry>::empty());
    }
}

} // verus!
