//! The drawing area: a clipped rectangular pixel region that owns the
//! backend sink, delegates coordinate mapping to its coordinate
//! specification, forwards semantic-context notifications, and splits
//! into contained sub-rectangles.

use vstd::arithmetic::div_mod::{
    lemma_div_is_ordered, lemma_div_multiples_vanish, lemma_div_pos_is_pos,
};
use vstd::arithmetic::mul::{lemma_mul_inequality, lemma_mul_nonnegative, lemma_mul_upper_bound};
use vstd::pervasive::unreached;
use vstd::prelude::*;

use crate::backend::{BackendOp, BackendSink, DrawingAreaErrorKind, ElementContext, OpModel};
use crate::cartesian::Cartesian2d;
use crate::element::{mapped_points_spec, Element};

verus! {

/// The coordinate specification of a drawing area: either plain pixel
/// shifting (no guest coordinates) or a Cartesian transform.
#[derive(Clone, Copy)]
pub enum CoordSpec {
    /// Pixel coordinates only.
    Shift,
    /// A full 2-D guest-coordinate transform.
    Cartesian(Cartesian2d),
}

impl CoordSpec {
    /// Well-formedness of the carried transform, if any.
    pub open spec fn wf(self) -> bool {
        match self {
            CoordSpec::Shift => true,
            CoordSpec::Cartesian(c) => c.wf(),
        }
    }
}

/// A rectangular pixel region bound to a backend sink and a coordinate
/// specification.  Sub-areas produced from it are always contained in
/// it.
pub struct DrawingArea {
    /// Absolute backend pixel position of the upper-left corner.
    pub base: (i32, i32),
    /// Width and height in pixels.
    pub dim: (u32, u32),
    /// The coordinate specification mapping guest values into the
    /// region.
    pub coord: CoordSpec,
    /// The backend sink; owned by this area, written strictly
    /// sequentially.
    pub sink: BackendSink,
}

impl DrawingArea {
    /// Well-formedness: the rectangle stays within pixel-coordinate
    /// range and the sink and coordinate spec are well formed.
    pub open spec fn wf(self) -> bool {
        &&& self.base.0 + self.dim.0 <= i32::MAX
        &&& self.base.1 + self.dim.1 <= i32::MAX
        &&& self.coord.wf()
        &&& self.sink.wf()
    }

    /// The Cartesian transform of the area; meaningful only when the
    /// coordinate spec is `Cartesian`.
    pub open spec fn cart(self) -> Cartesian2d {
        match self.coord {
            CoordSpec::Cartesian(c) => c,
            CoordSpec::Shift => Cartesian2d {
                x: crate::ranged::AxisSpec::Linear { from: 0, to: 0 },
                y: crate::ranged::AxisSpec::Linear { from: 0, to: 0 },
                back_x: (0, 0),
                back_y: (0, 0),
            },
        }
    }

    /// The recorded operation stream.
    pub open spec fn stream(self) -> Seq<OpModel> {
        self.sink.stream()
    }

    /// A fresh root area over a `width` by `height` canvas, with a
    /// fresh sink and no guest coordinates.
    pub fn new(width: u32, height: u32) -> (r: Self)
        requires
            width <= i32::MAX,
            height <= i32::MAX,
        ensures
            r.wf(),
            r.base == (0i32, 0i32),
            r.dim == (width, height),
            r.coord == CoordSpec::Shift,
            r.stream() == Seq::<OpModel>::empty(),
            r.sink.open_stack@.len() == 0,
    {
        DrawingArea { base: (0, 0), dim: (width, height), coord: CoordSpec::Shift, sink: BackendSink::new() }
    }

    /// Absolute pixel position of the upper-left corner.
    pub fn get_base_pixel(&self) -> (r: (i32, i32))
        ensures
            r == self.base,
    {
        self.base
    }

    /// Width and height in pixels.
    pub fn dim_in_pixel(&self) -> (r: (u32, u32))
        ensures
            r == self.dim,
    {
        self.dim
    }

    /// Consumes the area and returns the contained sub-area at `offset`
    /// of size `size`, keeping the sink and the coordinate spec.
    pub fn shrink(self, offset: (u32, u32), size: (u32, u32)) -> (r: Self)
        requires
            self.wf(),
            offset.0 + size.0 <= self.dim.0,
            offset.1 + size.1 <= self.dim.1,
        ensures
            r.wf(),
            r.base == (
                (self.base.0 + offset.0) as i32,
                (self.base.1 + offset.1) as i32,
            ),
            r.dim == size,
            r.coord == self.coord,
            r.sink == self.sink,
    {
        DrawingArea {
            base: (
                (self.base.0 as i64 + offset.0 as i64) as i32,
                (self.base.1 as i64 + offset.1 as i64) as i32,
            ),
            dim: size,
            coord: self.coord,
            sink: self.sink,
        }
    }

    /// Replaces the coordinate specification, keeping rectangle and
    /// sink.
    pub fn apply_coord_spec(self, cart: Cartesian2d) -> (r: Self)
        requires
            self.wf(),
            cart.wf(),
        ensures
            r.wf(),
            r.base == self.base,
            r.dim == self.dim,
            r.coord == CoordSpec::Cartesian(cart),
            r.sink == self.sink,
    {
        DrawingArea { base: self.base, dim: self.dim, coord: CoordSpec::Cartesian(cart), sink: self.sink }
    }

    /// The sub-rectangle of the `(row, col)` cell when the area is cut
    /// into `rows` by `cols` even cells: `(base, dim)`.
    pub open spec fn even_cell_spec(self, rows: int, cols: int, row: int, col: int) -> (
        (int, int),
        (int, int),
    ) {
        let x0 = self.base.0 + (col * self.dim.0) / cols;
        let x1 = self.base.0 + ((col + 1) * self.dim.0) / cols;
        let y0 = self.base.1 + (row * self.dim.1) / rows;
        let y1 = self.base.1 + ((row + 1) * self.dim.1) / rows;
        ((x0, y0), (x1 - x0, y1 - y0))
    }

    /// Partitions the rectangle into `rows * cols` sibling cells, in
    /// row-major order; their union is exactly the parent rectangle and
    /// no two overlap (each cell spans from its own break offset to the
    /// next one).
    pub fn split_evenly(&self, rows_cols: (usize, usize)) -> (r: Vec<((i32, i32), (u32, u32))>)
        requires
            self.wf(),
            1 <= rows_cols.0 <= 0x10000,
            1 <= rows_cols.1 <= 0x10000,
        ensures
            r@.len() == rows_cols.0 * rows_cols.1,
            forall|row: int, col: int|
                0 <= row < rows_cols.0 && 0 <= col < rows_cols.1 ==> {
                    let cell = self.even_cell_spec(
                        rows_cols.0 as int,
                        rows_cols.1 as int,
                        row,
                        col,
                    );
                    {
                        let got = #[trigger] r@[row * rows_cols.1 + col];
                        got.0.0 == cell.0.0 && got.0.1 == cell.0.1 && got.1.0 == cell.1.0
                            && got.1.1 == cell.1.1
                    }
                },
    {
        let (rows, cols) = rows_cols;
        let mut r: Vec<((i32, i32), (u32, u32))> = Vec::new();
        let mut row: usize = 0;
        while row < rows
            invariant
                self.wf(),
                1 <= rows <= 0x10000,
                1 <= cols <= 0x10000,
                row <= rows,
                r@.len() == row * cols,
                forall|rr: int, cc: int|
                    0 <= rr < row && 0 <= cc < cols ==> {
                        let cell = self.even_cell_spec(rows as int, cols as int, rr, cc);
                        {
                            let got = #[trigger] r@[rr * cols as int + cc];
                            got.0.0 == cell.0.0 && got.0.1 == cell.0.1 && got.1.0 == cell.1.0
                                && got.1.1 == cell.1.1
                        }
                    },
            decreases rows - row,
        {
            let mut col: usize = 0;
            while col < cols
                invariant
                    self.wf(),
                    1 <= rows <= 0x10000,
                    1 <= cols <= 0x10000,
                    row < rows,
                    col <= cols,
                    r@.len() == row * cols + col,
                    forall|rr: int, cc: int|
                        (0 <= rr < row && 0 <= cc < cols) || (rr == row && 0 <= cc < col) ==> {
                            let cell = self.even_cell_spec(rows as int, cols as int, rr, cc);
                            {
                                let got = #[trigger] r@[rr * cols as int + cc];
                                got.0.0 == cell.0.0 && got.0.1 == cell.0.1 && got.1.0 == cell.1.0
                                    && got.1.1 == cell.1.1
                            }
                        },
                decreases cols - col,
            {
                proof {
                    lemma_even_cell_bounds(*self, rows as int, cols as int, row as int, col as int);
                    lemma_mul_upper_bound(col as int, 0x10000, self.dim.0 as int, 0xffff_ffff);
                    lemma_mul_upper_bound(col as int + 1, 0x10000, self.dim.0 as int, 0xffff_ffff);
                    lemma_mul_upper_bound(row as int, 0x10000, self.dim.1 as int, 0xffff_ffff);
                    lemma_mul_upper_bound(row as int + 1, 0x10000, self.dim.1 as int, 0xffff_ffff);
                    lemma_mul_nonnegative(col as int, self.dim.0 as int);
                    lemma_mul_nonnegative(row as int, self.dim.1 as int);
                }
                let x0: i64 = self.base.0 as i64 + ((col as u64 * self.dim.0 as u64) / cols as u64) as i64;
                let x1: i64 = self.base.0 as i64 + (((col as u64 + 1) * self.dim.0 as u64) / cols as u64) as i64;
                let y0: i64 = self.base.1 as i64 + ((row as u64 * self.dim.1 as u64) / rows as u64) as i64;
                let y1: i64 = self.base.1 as i64 + (((row as u64 + 1) * self.dim.1 as u64) / rows as u64) as i64;
                proof {
                    let c = cols as int;
                    assert forall|rr: int, cc: int|
                        (0 <= rr < row && 0 <= cc < c) || (rr == row as int && 0 <= cc
                            < col as int) implies #[trigger] (rr * c + cc) < row as int * c
                            + col as int by {
                        if rr < row as int {
                            assert(rr * c + cc < row as int * c + col as int) by (nonlinear_arith)
                                requires
                                    0 <= cc,
                                    cc < c,
                                    rr < row as int,
                                    0 <= col as int,
                                    1 <= c,
                            ;
                        }
                    };
                }
                r.push(((x0 as i32, y0 as i32), ((x1 - x0) as u32, (y1 - y0) as u32)));
                col = col + 1;
            }
            row = row + 1;
            proof {
                assert(row * cols as int == (row - 1) * cols as int + cols as int) by (nonlinear_arith);
            }
        }
        proof {
            assert(rows as int * cols as int == rows_cols.0 * rows_cols.1);
        }
        r
    }

    /// The split offset of column (or row) boundary `c` for the given
    /// relative breakpoints: `0` before the first breakpoint, the
    /// breakpoints in order, then the full extent.
    pub open spec fn break_offset_spec(breaks: Seq<u32>, extent: int, c: int) -> int {
        if c <= 0 {
            0
        } else if c <= breaks.len() {
            breaks[c - 1] as int
        } else {
            extent
        }
    }

    /// The sub-rectangle of the `(row, col)` cell when the area is cut
    /// at the given relative breakpoints: `(base, dim)`.
    pub open spec fn break_cell_spec(
        self,
        x_breaks: Seq<u32>,
        y_breaks: Seq<u32>,
        row: int,
        col: int,
    ) -> ((int, int), (int, int)) {
        let x0 = self.base.0 + Self::break_offset_spec(x_breaks, self.dim.0 as int, col);
        let x1 = self.base.0 + Self::break_offset_spec(x_breaks, self.dim.0 as int, col + 1);
        let y0 = self.base.1 + Self::break_offset_spec(y_breaks, self.dim.1 as int, row);
        let y1 = self.base.1 + Self::break_offset_spec(y_breaks, self.dim.1 as int, row + 1);
        ((x0, y0), (x1 - x0, y1 - y0))
    }

    /// Whether a breakpoint sequence is usable for an extent: sorted
    /// and contained in `[0, extent]`.
    pub open spec fn breaks_wf(breaks: Seq<u32>, extent: int) -> bool {
        &&& forall|i: int, j: int|
            0 <= i < j < breaks.len() ==> #[trigger] breaks[i] <= #[trigger] breaks[j]
        &&& forall|i: int| 0 <= i < breaks.len() ==> #[trigger] breaks[i] <= extent
    }

    /// Partitions the rectangle at the given relative breakpoints into
    /// `(y_breaks + 1) * (x_breaks + 1)` cells in row-major order; each
    /// cell spans from one break offset to the next, so the union is
    /// the parent rectangle and no two cells overlap.
    pub fn split_by_breakpoints(&self, x_breaks: &Vec<u32>, y_breaks: &Vec<u32>) -> (r: Vec<
        ((i32, i32), (u32, u32)),
    >)
        requires
            self.wf(),
            Self::breaks_wf(x_breaks@, self.dim.0 as int),
            Self::breaks_wf(y_breaks@, self.dim.1 as int),
            x_breaks@.len() < 0x10000,
            y_breaks@.len() < 0x10000,
        ensures
            r@.len() == (y_breaks@.len() + 1) * (x_breaks@.len() + 1),
            forall|row: int, col: int|
                0 <= row <= y_breaks@.len() && 0 <= col <= x_breaks@.len() ==> {
                    let cell = self.break_cell_spec(x_breaks@, y_breaks@, row, col);
                    {
                        let got = #[trigger] r@[row * (x_breaks@.len() + 1) + col];
                        got.0.0 == cell.0.0 && got.0.1 == cell.0.1 && got.1.0 == cell.1.0
                            && got.1.1 == cell.1.1
                    }
                },
    {
        let rows: usize = y_breaks.len() + 1;
        let cols: usize = x_breaks.len() + 1;
        let mut r: Vec<((i32, i32), (u32, u32))> = Vec::new();
        let mut row: usize = 0;
        while row < rows
            invariant
                self.wf(),
                Self::breaks_wf(x_breaks@, self.dim.0 as int),
                Self::breaks_wf(y_breaks@, self.dim.1 as int),
                rows == y_breaks@.len() + 1,
                cols == x_breaks@.len() + 1,
                rows <= 0x10000,
                cols <= 0x10000,
                row <= rows,
                r@.len() == row * cols,
                forall|rr: int, cc: int|
                    0 <= rr < row && 0 <= cc < cols ==> {
                        let cell = self.break_cell_spec(x_breaks@, y_breaks@, rr, cc);
                        {
                            let got = #[trigger] r@[rr * cols as int + cc];
                            got.0.0 == cell.0.0 && got.0.1 == cell.0.1 && got.1.0 == cell.1.0
                                && got.1.1 == cell.1.1
                        }
                    },
            decreases rows - row,
        {
            let y0: u32 = if row == 0 {
                0
            } else {
                y_breaks[row - 1]
            };
            let y1: u32 = if row < y_breaks.len() {
                y_breaks[row]
            } else {
                self.dim.1
            };
            let mut col: usize = 0;
            while col < cols
                invariant
                    self.wf(),
                    Self::breaks_wf(x_breaks@, self.dim.0 as int),
                    Self::breaks_wf(y_breaks@, self.dim.1 as int),
                    rows == y_breaks@.len() + 1,
                    cols == x_breaks@.len() + 1,
                    rows <= 0x10000,
                    cols <= 0x10000,
                    row < rows,
                    col <= cols,
                    y0 as int == Self::break_offset_spec(y_breaks@, self.dim.1 as int, row as int),
                    y1 as int == Self::break_offset_spec(
                        y_breaks@,
                        self.dim.1 as int,
                        row as int + 1,
                    ),
                    y0 <= y1 <= self.dim.1,
                    r@.len() == row * cols + col,
                    forall|rr: int, cc: int|
                        (0 <= rr < row && 0 <= cc < cols) || (rr == row && 0 <= cc < col) ==> {
                            let cell = self.break_cell_spec(x_breaks@, y_breaks@, rr, cc);
                            {
                                let got = #[trigger] r@[rr * cols as int + cc];
                                got.0.0 == cell.0.0 && got.0.1 == cell.0.1 && got.1.0 == cell.1.0
                                    && got.1.1 == cell.1.1
                            }
                        },
                decreases cols - col,
            {
                let x0: u32 = if col == 0 {
                    0
                } else {
                    x_breaks[col - 1]
                };
                let x1: u32 = if col < x_breaks.len() {
                    x_breaks[col]
                } else {
                    self.dim.0
                };
                proof {
                    let c = cols as int;
                    assert forall|rr: int, cc: int|
                        (0 <= rr < row && 0 <= cc < c) || (rr == row as int && 0 <= cc
                            < col as int) implies #[trigger] (rr * c + cc) < row as int * c
                            + col as int by {
                        if rr < row as int {
                            assert(rr * c + cc < row as int * c + col as int) by (nonlinear_arith)
                                requires
                                    0 <= cc,
                                    cc < c,
                                    rr < row as int,
                                    0 <= col as int,
                                    1 <= c,
                            ;
                        }
                    };
                }
                let bx: i32 = (self.base.0 as i64 + x0 as i64) as i32;
                let by: i32 = (self.base.1 as i64 + y0 as i64) as i32;
                r.push(((bx, by), (x1 - x0, y1 - y0)));
                col = col + 1;
            }
            row = row + 1;
            proof {
                assert(row * cols as int == (row - 1) * cols as int + cols as int)
                    by (nonlinear_arith);
            }
        }
        r
    }

    /// Opens a semantic context, forwarding the notification to the
    /// sink.
    pub fn begin_context(&mut self, ctx: ElementContext) -> (r: Result<(), DrawingAreaErrorKind>)
        requires
            old(self).wf(),
        ensures
            r is Ok,
            final(self).wf(),
            final(self).stream() == old(self).stream().push(OpModel::BeginContext { ctx: ctx@ }),
            final(self).sink.open_stack@ == old(self).sink.open_stack@.push(
                old(self).sink.ops@.len() as usize,
            ),
            final(self).base == old(self).base,
            final(self).dim == old(self).dim,
            final(self).coord == old(self).coord,
    {
        self.sink.begin_context(ctx)
    }

    /// Closes the most recently opened context; fails, changing
    /// nothing, exactly when no context is open.
    pub fn end_context(&mut self) -> (r: Result<(), DrawingAreaErrorKind>)
        requires
            old(self).wf(),
        ensures
            final(self).wf(),
            old(self).sink.open_stack@.len() > 0 ==> {
                &&& r is Ok
                &&& final(self).stream() == old(self).stream().push(OpModel::EndContext)
                &&& final(self).sink.open_stack@ == old(self).sink.open_stack@.drop_last()
            },
            old(self).sink.open_stack@.len() == 0 ==> {
                &&& r == Result::<(), DrawingAreaErrorKind>::Err(
                    DrawingAreaErrorKind::UnbalancedContext,
                )
                &&& *final(self) == *old(self)
            },
            final(self).base == old(self).base,
            final(self).dim == old(self).dim,
            final(self).coord == old(self).coord,
    {
        self.sink.end_context()
    }

    /// Maps a guest point through the area's Cartesian transform.
    pub fn map_coordinate(&self, p: &(i64, i64)) -> (r: (i32, i32))
        requires
            self.wf(),
            self.coord is Cartesian,
            self.cart().in_domain((p.0 as int, p.1 as int)),
        ensures
            (r.0 as int, r.1 as int) == self.cart().map_point_spec((p.0 as int, p.1 as int)),
    {
        match &self.coord {
            CoordSpec::Cartesian(c) => c.map_coordinate(p),
            CoordSpec::Shift => unreached(),
        }
    }

    /// Renders an element against the area's own coordinate spec and
    /// forwards the primitive draw commands to the sink.
    pub fn draw(&mut self, e: &Element) -> (r: Result<(), DrawingAreaErrorKind>)
        requires
            old(self).wf(),
            old(self).coord is Cartesian,
            e.fits_domain(old(self).cart()),
        ensures
            r is Ok,
            final(self).wf(),
            final(self).stream() == old(self).stream() + e.render_spec(
                mapped_points_spec(old(self).cart(), e.guest_points()),
            ),
            final(self).sink.open_stack@ == old(self).sink.open_stack@,
            final(self).base == old(self).base,
            final(self).dim == old(self).dim,
            final(self).coord == old(self).coord,
    {
        let cart = match &self.coord {
            CoordSpec::Cartesian(c) => *c,
            CoordSpec::Shift => unreached(),
        };
        draw_element_with(self, &cart, e)
    }
}

/// Renders `e` against an explicitly chosen transform (which need not
/// be the area's own), forwarding the primitive commands to the area's
/// sink.
pub fn draw_element_with(area: &mut DrawingArea, cart: &Cartesian2d, e: &Element) -> (r: Result<
    (),
    DrawingAreaErrorKind,
>)
    requires
        old(area).wf(),
        cart.wf(),
        e.fits_domain(*cart),
    ensures
        r is Ok,
        final(area).wf(),
        final(area).stream() == old(area).stream() + e.render_spec(
            mapped_points_spec(*cart, e.guest_points()),
        ),
        final(area).sink.open_stack@ == old(area).sink.open_stack@,
        final(area).base == old(area).base,
        final(area).dim == old(area).dim,
        final(area).coord == old(area).coord,
{
    let ghost pts = e.guest_points();
    let ghost mapped_spec = mapped_points_spec(*cart, pts);
    let n = e.point_count();
    let mut mapped: Vec<(i32, i32)> = Vec::new();
    let mut j: usize = 0;
    while j < n
        invariant
            cart.wf(),
            e.fits_domain(*cart),
            n == pts.len(),
            pts == e.guest_points(),
            mapped_spec == mapped_points_spec(*cart, pts),
            j <= n,
            mapped@.len() == j,
            forall|k: int|
                0 <= k < j ==> ((#[trigger] mapped@[k]).0 as int, mapped@[k].1 as int)
                    == mapped_spec[k],
        decreases n - j,
    {
        let pt = e.point_at(j);
        let c = cart.map_coordinate(&pt);
        mapped.push(c);
        j = j + 1;
    }
    match e {
        Element::Circle { radius, color, .. } => {
            let center = mapped[0];
            area.sink.draw_op(BackendOp::DrawCircle { center, radius: *radius, color: *color });
            proof {
                assert(final(area).stream() =~= old(area).stream() + e.render_spec(mapped_spec));
            }
        },
        Element::PathLine { color, .. } => {
            area.sink.draw_op(BackendOp::DrawPath { points: mapped, color: *color });
            proof {
                assert(Seq::new(mapped@.len(), |i: int| (mapped@[i].0 as int, mapped@[i].1 as int))
                    =~= mapped_spec);
                assert(final(area).stream() =~= old(area).stream() + e.render_spec(mapped_spec));
            }
        },
    }
    Ok(())
}

/// The even cells tile the parent rectangle: the first cell of a row
/// or column starts at the parent's edge, the last one ends at the
/// opposite edge, and each next cell starts exactly where the previous
/// one ends -- the union is the whole parent and no two cells overlap.
pub proof fn lemma_split_evenly_tiles(a: DrawingArea, rows: int, cols: int, row: int, col: int)
    requires
        a.wf(),
        1 <= rows,
        1 <= cols,
        0 <= row < rows,
        0 <= col < cols,
    ensures
        ({
            let cell = a.even_cell_spec(rows, cols, row, col);
            {
                &&& col == 0 ==> cell.0.0 == a.base.0
                &&& row == 0 ==> cell.0.1 == a.base.1
                &&& col == cols - 1 ==> cell.0.0 + cell.1.0 == a.base.0 + a.dim.0
                &&& row == rows - 1 ==> cell.0.1 + cell.1.1 == a.base.1 + a.dim.1
                &&& col < cols - 1 ==> a.even_cell_spec(rows, cols, row, col + 1).0.0 == cell.0.0
                    + cell.1.0
                &&& row < rows - 1 ==> a.even_cell_spec(rows, cols, row + 1, col).0.1 == cell.0.1
                    + cell.1.1
            }
        }),
{
    assert((0 * a.dim.0 as int) / cols == 0) by (nonlinear_arith)
        requires
            1 <= cols,
    ;
    assert((0 * a.dim.1 as int) / rows == 0) by (nonlinear_arith)
        requires
            1 <= rows,
    ;
    lemma_div_multiples_vanish(a.dim.0 as int, cols);
    lemma_div_multiples_vanish(a.dim.1 as int, rows);
    assert(cols * a.dim.0 as int == ((cols - 1) + 1) * a.dim.0 as int);
    assert(rows * a.dim.1 as int == ((rows - 1) + 1) * a.dim.1 as int);
}

/// Each even cell's extents are non-negative and bounded by the parent
/// rectangle: the break offsets grow monotonically from `0` to the full
/// extent.
proof fn lemma_even_cell_bounds(a: DrawingArea, rows: int, cols: int, row: int, col: int)
    requires
        a.wf(),
        1 <= rows,
        1 <= cols,
        0 <= row < rows,
        0 <= col < cols,
    ensures
        ({
            let cell = a.even_cell_spec(rows, cols, row, col);
            {
                &&& a.base.0 <= cell.0.0
                &&& a.base.1 <= cell.0.1
                &&& 0 <= cell.1.0
                &&& 0 <= cell.1.1
                &&& cell.0.0 + cell.1.0 <= a.base.0 + a.dim.0
                &&& cell.0.1 + cell.1.1 <= a.base.1 + a.dim.1
            }
        }),
{
    lemma_break_monotone(a.dim.0 as int, cols, col);
    lemma_break_monotone(a.dim.1 as int, rows, row);
}

/// The break offset `(k * extent) / parts` is monotone in `k` and stays
/// within `[0, extent]` for `0 <= k` and `k + 1 <= parts`.
proof fn lemma_break_monotone(extent: int, parts: int, k: int)
    requires
        0 <= extent,
        1 <= parts,
        0 <= k < parts,
    ensures
        0 <= (k * extent) / parts,
        (k * extent) / parts <= ((k + 1) * extent) / parts,
        ((k + 1) * extent) / parts <= extent,
{
    lemma_mul_nonnegative(k, extent);
    lemma_div_pos_is_pos(k * extent, parts);
    lemma_mul_inequality(k, k + 1, extent);
    lemma_div_is_ordered(k * extent, (k + 1) * extent, parts);
    lemma_mul_inequality(k + 1, parts, extent);
    lemma_div_is_ordered((k + 1) * extent, parts * extent, parts);
    lemma_div_multiples_vanish(extent, parts);
}

} // verus!
