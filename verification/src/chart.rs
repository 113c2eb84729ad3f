//! The chart context: the user-facing orchestration layer bound to one
//! drawing area and one Cartesian coordinate system.
//!
//! Series drawing wraps every series in a `DataSeries` semantic context
//! and every element in a `DataPoint` (single point) or `DataLine`
//! (two or more points) context, eagerly computing each point's mapped
//! backend coordinate and formatted axis labels, so an interactive
//! backend needs no knowledge of coordinates or formatting.

use vstd::pervasive::unreached;
use vstd::prelude::*;

use crate::backend::{
    BackendOp, ContextModel, DrawingAreaErrorKind, ElementContext, Interpolation,
    InterpolationModel, OpModel, RGBAColorSpec,
};
use crate::cartesian::Cartesian2d;
use crate::drawing::{draw_element_with, CoordSpec, DrawingArea};
use crate::element::{mapped_points_spec, Element};
use crate::ranged::AxisSpec;

verus! {

/// The accumulating legend record of one drawn series.
pub struct SeriesAnno {
    pub label: Option<String>,
}

impl SeriesAnno {
    /// The label by value.
    pub open spec fn label_model(self) -> Option<Seq<char>> {
        match self.label {
            Option::Some(s) => Option::Some(s@),
            Option::None => Option::None,
        }
    }

    /// A fresh record with no label.
    pub fn new() -> (r: Self)
        ensures
            r.label_model() is None,
    {
        SeriesAnno { label: None }
    }

    /// Attaches the legend label text.
    pub fn set_label(&mut self, text: &str)
        ensures
            final(self).label_model() == Option::Some(text@),
    {
        self.label = Some(text.to_owned());
    }

    /// The attached label, if any.
    pub fn label_text(&self) -> (r: Option<&String>)
        ensures
            match r {
                Option::Some(s) => self.label_model() == Option::Some(s@),
                Option::None => self.label_model() is None,
            },
    {
        match &self.label {
            Some(s) => Some(s),
            None => None,
        }
    }
}

/// The legend records by value.
pub open spec fn annos_model(s: Seq<SeriesAnno>) -> Seq<Option<Seq<char>>> {
    Seq::new(s.len(), |i: int| s[i].label_model())
}

/// The semantic operations one element contributes to the stream: its
/// nested context (none for zero points, `DataPoint` for one,
/// `DataLine` with per-vertex labels for two or more) around its
/// rendered primitives.
pub open spec fn elem_context_ops(cart: Cartesian2d, series_id: int, e: Element) -> Seq<OpModel> {
    let pts = e.guest_points();
    let mapped = mapped_points_spec(cart, pts);
    let render = e.render_spec(mapped);
    if pts.len() == 0 {
        render
    } else if pts.len() == 1 {
        seq![
            OpModel::BeginContext {
                ctx: ContextModel::DataPoint {
                    coord: mapped[0],
                    x_label: cart.x.format_spec(pts[0].0 as int),
                    y_label: cart.y.format_spec(pts[0].1 as int),
                    series_id,
                },
            },
        ] + render + seq![OpModel::EndContext]
    } else {
        seq![
            OpModel::BeginContext {
                ctx: ContextModel::DataLine {
                    x_interpolation: InterpolationModel::Discrete {
                        points: Seq::new(
                            pts.len(),
                            |i: int| (mapped[i].0, cart.x.format_spec(pts[i].0 as int)),
                        ),
                    },
                    y_interpolation: InterpolationModel::Discrete {
                        points: Seq::new(
                            pts.len(),
                            |i: int| (mapped[i].1, cart.y.format_spec(pts[i].1 as int)),
                        ),
                    },
                    series_id,
                },
            },
        ] + render + seq![OpModel::EndContext]
    }
}

/// The concatenated per-element operations of a whole input sequence.
pub open spec fn elements_ops(cart: Cartesian2d, series_id: int, elems: Seq<Element>) -> Seq<
    OpModel,
>
    decreases elems.len(),
{
    if elems.len() == 0 {
        Seq::empty()
    } else {
        elements_ops(cart, series_id, elems.drop_last()) + elem_context_ops(
            cart,
            series_id,
            elems.last(),
        )
    }
}

/// The full stream of one series-drawing call: a `DataSeries` context
/// around every element's operations.
pub open spec fn series_ops(
    cart: Cartesian2d,
    series_id: int,
    color: RGBAColorSpec,
    label: Seq<char>,
    elems: Seq<Element>,
) -> Seq<OpModel> {
    seq![
        OpModel::BeginContext { ctx: (ContextModel::DataSeries { id: series_id, color, label }) },
    ] + elements_ops(cart, series_id, elems) + seq![OpModel::EndContext]
}

/// Whether every element's points lie in the transform's domain.
pub open spec fn series_fits(cart: Cartesian2d, elems: Seq<Element>) -> bool {
    forall|i: int| 0 <= i < elems.len() ==> (#[trigger] elems[i]).fits_domain(cart)
}

/// Extending the input by one element appends exactly that element's
/// operations.
proof fn lemma_elements_ops_snoc(cart: Cartesian2d, series_id: int, elems: Seq<Element>, i: int)
    requires
        0 <= i < elems.len(),
    ensures
        elements_ops(cart, series_id, elems.take(i + 1)) == elements_ops(
            cart,
            series_id,
            elems.take(i),
        ) + elem_context_ops(cart, series_id, elems[i]),
{
    let s = elems.take(i + 1);
    assert(s.drop_last() =~= elems.take(i));
    assert(s.last() == elems[i]);
}

/// Emits one whole series through an explicitly chosen transform:
/// opens the `DataSeries` context, emits every element's nested
/// context and primitives, and closes the series context again.
fn draw_series_ops(
    area: &mut DrawingArea,
    cart: &Cartesian2d,
    series_id: u32,
    series: &Vec<Element>,
    series_color: &RGBAColorSpec,
    series_label: &str,
) -> (r: Result<(), DrawingAreaErrorKind>)
    requires
        old(area).wf(),
        cart.wf(),
        series_fits(*cart, series@),
    ensures
        r is Ok,
        final(area).wf(),
        final(area).stream() == old(area).stream() + series_ops(
            *cart,
            series_id as int,
            *series_color,
            series_label@,
            series@,
        ),
        final(area).sink.open_stack@ == old(area).sink.open_stack@,
        final(area).base == old(area).base,
        final(area).dim == old(area).dim,
        final(area).coord == old(area).coord,
{
    let ghost stream0 = area.stream();
    let ghost stack0 = area.sink.open_stack@;
    let ghost base0 = area.base;
    let ghost dim0 = area.dim;
    let ghost coord0 = area.coord;
    let ghost sctx = OpModel::BeginContext {
        ctx: ContextModel::DataSeries {
            id: series_id as int,
            color: *series_color,
            label: series_label@,
        },
    };
    let rb = area.begin_context(
        ElementContext::DataSeries {
            id: series_id,
            color: *series_color,
            label: series_label.to_owned(),
        },
    );
    match rb {
        Ok(_) => {},
        Err(e) => {
            return Err(e);
        },
    }
    let ghost stack1 = area.sink.open_stack@;
    proof {
        assert(area.stream() =~= stream0 + seq![sctx] + elements_ops(
            *cart,
            series_id as int,
            series@.take(0),
        ));
    }
    let n = series.len();
    let mut i: usize = 0;
    while i < n
        invariant
            area.wf(),
            cart.wf(),
            series_fits(*cart, series@),
            n == series@.len(),
            i <= n,
            area.stream() == stream0 + seq![sctx] + elements_ops(
                *cart,
                series_id as int,
                series@.take(i as int),
            ),
            area.sink.open_stack@ == stack1,
            stack1.len() > 0,
            stack1.drop_last() == stack0,
            area.base == base0,
            area.dim == dim0,
            area.coord == coord0,
        decreases n - i,
    {
        let ghost stream_iter = area.stream();
        let elem = &series[i];
        let ghost epts = elem.guest_points();
        let ghost mapped = mapped_points_spec(*cart, epts);
        proof {
            assert(series@[i as int].fits_domain(*cart));
        }
        let m = elem.point_count();
        let mut coords: Vec<(i32, i32)> = Vec::new();
        let mut xls: Vec<String> = Vec::new();
        let mut yls: Vec<String> = Vec::new();
        let mut j: usize = 0;
        while j < m
            invariant
                cart.wf(),
                elem.fits_domain(*cart),
                m == epts.len(),
                epts == elem.guest_points(),
                mapped == mapped_points_spec(*cart, epts),
                j <= m,
                coords@.len() == j,
                xls@.len() == j,
                yls@.len() == j,
                forall|k: int|
                    0 <= k < j ==> ((#[trigger] coords@[k]).0 as int, coords@[k].1 as int)
                        == mapped[k],
                forall|k: int| 0 <= k < j ==> (#[trigger] xls@[k])@ == cart.x.format_spec(
                    epts[k].0 as int,
                ),
                forall|k: int| 0 <= k < j ==> (#[trigger] yls@[k])@ == cart.y.format_spec(
                    epts[k].1 as int,
                ),
            decreases m - j,
        {
            let pt = elem.point_at(j);
            proof {
                assert(cart.in_domain((epts[j as int].0 as int, epts[j as int].1 as int)));
            }
            let xl = cart.x.format_ext(pt.0);
            let yl = cart.y.format_ext(pt.1);
            let c = cart.map_coordinate(&pt);
            coords.push(c);
            xls.push(xl);
            yls.push(yl);
            j = j + 1;
        }
        if m == 0 {
            let rd = draw_element_with(area, cart, elem);
            match rd {
                Ok(_) => {},
                Err(e) => {
                    return Err(e);
                },
            }
            proof {
                assert(elem_context_ops(*cart, series_id as int, series@[i as int])
                    == elem.render_spec(mapped));
            }
        } else if m == 1 {
            let coord = coords[0];
            let xl = match xls.pop() {
                Some(v) => v,
                None => unreached(),
            };
            let yl = match yls.pop() {
                Some(v) => v,
                None => unreached(),
            };
            let rb2 = area.begin_context(
                ElementContext::DataPoint { coord, x_label: xl, y_label: yl, series_id },
            );
            match rb2 {
                Ok(_) => {},
                Err(e) => {
                    return Err(e);
                },
            }
            let rd = draw_element_with(area, cart, elem);
            match rd {
                Ok(_) => {},
                Err(e) => {
                    return Err(e);
                },
            }
            let re = area.end_context();
            match re {
                Ok(_) => {},
                Err(e) => {
                    return Err(e);
                },
            }
        } else {
            let mut x_points: Vec<(i32, String)> = Vec::new();
            let mut y_points: Vec<(i32, String)> = Vec::new();
            let mut k: usize = 0;
            while k < m
                invariant
                    m == coords@.len(),
                    m == xls@.len(),
                    m == yls@.len(),
                    k <= m,
                    x_points@.len() == k,
                    y_points@.len() == k,
                    forall|t: int|
                        0 <= t < k ==> (#[trigger] x_points@[t]).0 == coords@[t].0
                            && x_points@[t].1@ == xls@[t]@,
                    forall|t: int|
                        0 <= t < k ==> (#[trigger] y_points@[t]).0 == coords@[t].1
                            && y_points@[t].1@ == yls@[t]@,
                decreases m - k,
            {
                x_points.push((coords[k].0, xls[k].clone()));
                y_points.push((coords[k].1, yls[k].clone()));
                k = k + 1;
            }
            let ictx = ElementContext::DataLine {
                x_interpolation: Interpolation::Discrete { points: x_points },
                y_interpolation: Interpolation::Discrete { points: y_points },
                series_id,
            };
            proof {
                let want = elem_context_ops(*cart, series_id as int, series@[i as int])[0];
                assert(ictx@ matches ContextModel::DataLine { x_interpolation, .. }
                    ==> x_interpolation matches InterpolationModel::Discrete { .. });
                match ictx@ {
                    ContextModel::DataLine { x_interpolation, y_interpolation, series_id: sid } => {
                        match x_interpolation {
                            InterpolationModel::Discrete { points } => {
                                assert(points =~= Seq::new(
                                    epts.len(),
                                    |t: int| (mapped[t].0, cart.x.format_spec(epts[t].0 as int)),
                                ));
                            },
                        }
                        match y_interpolation {
                            InterpolationModel::Discrete { points } => {
                                assert(points =~= Seq::new(
                                    epts.len(),
                                    |t: int| (mapped[t].1, cart.y.format_spec(epts[t].1 as int)),
                                ));
                            },
                        }
                    },
                    _ => {},
                }
            }
            let rb2 = area.begin_context(ictx);
            match rb2 {
                Ok(_) => {},
                Err(e) => {
                    return Err(e);
                },
            }
            let rd = draw_element_with(area, cart, elem);
            match rd {
                Ok(_) => {},
                Err(e) => {
                    return Err(e);
                },
            }
            let re = area.end_context();
            match re {
                Ok(_) => {},
                Err(e) => {
                    return Err(e);
                },
            }
        }
        proof {
            lemma_elements_ops_snoc(*cart, series_id as int, series@, i as int);
            assert(area.stream() =~= stream_iter + elem_context_ops(
                *cart,
                series_id as int,
                series@[i as int],
            ));
            assert(area.stream() =~= stream0 + seq![sctx] + elements_ops(
                *cart,
                series_id as int,
                series@.take(i + 1),
            ));
        }
        i = i + 1;
    }
    proof {
        assert(series@.take(n as int) =~= series@);
    }
    let re = area.end_context();
    match re {
        Ok(_) => {},
        Err(e) => {
            return Err(e);
        },
    }
    proof {
        assert(stack1.drop_last() =~= stack0);
        assert(area.stream() =~= stream0 + series_ops(
            *cart,
            series_id as int,
            *series_color,
            series_label@,
            series@,
        ));
    }
    Ok(())
}

/// The orchestration layer bound to one drawing area and one Cartesian
/// coordinate system.
pub struct ChartContext {
    /// The plotting drawing area, carrying the Cartesian transform.
    pub drawing_area: DrawingArea,
    /// The next series identifier to allocate; identifiers are handed
    /// out strictly increasing and never reused.
    pub next_series_id: u32,
    /// One legend record per drawn series, in draw order.
    pub annotations: Vec<SeriesAnno>,
}

impl ChartContext {
    /// Well-formedness: the drawing area is well formed and carries a
    /// Cartesian transform.
    pub open spec fn wf(self) -> bool {
        &&& self.drawing_area.wf()
        &&& self.drawing_area.coord is Cartesian
    }

    /// The chart's Cartesian transform.
    pub open spec fn cart(self) -> Cartesian2d {
        self.drawing_area.cart()
    }

    /// The recorded operation stream.
    pub open spec fn stream(self) -> Seq<OpModel> {
        self.drawing_area.stream()
    }

    /// The legend records by value.
    pub open spec fn annos(self) -> Seq<Option<Seq<char>>> {
        annos_model(self.annotations@)
    }

    /// The chart's Cartesian transform, by copy.
    fn cart_exec(&self) -> (r: Cartesian2d)
        requires
            self.wf(),
        ensures
            r == self.cart(),
    {
        match &self.drawing_area.coord {
            CoordSpec::Cartesian(c) => *c,
            CoordSpec::Shift => unreached(),
        }
    }

    /// Draws a series while emitting semantic contexts for every
    /// element: allocates a fresh series identifier, wraps the whole
    /// series in a `DataSeries` context, wraps each single-point
    /// element in a `DataPoint` context and each multi-point element
    /// in a `DataLine` context with one `(pixel, label)` entry per
    /// vertex on each axis (an element with no points opens no nested
    /// context but is still drawn), and allocates one fresh legend
    /// record, returning its index.
    pub fn draw_series_with_tooltips(
        &mut self,
        series: &Vec<Element>,
        series_color: &RGBAColorSpec,
        series_label: &str,
    ) -> (r: Result<usize, DrawingAreaErrorKind>)
        requires
            old(self).wf(),
            old(self).next_series_id < u32::MAX,
            series_fits(old(self).cart(), series@),
        ensures
            r == Ok::<usize, DrawingAreaErrorKind>(old(self).annotations@.len() as usize),
            final(self).wf(),
            final(self).next_series_id == old(self).next_series_id + 1,
            final(self).stream() == old(self).stream() + series_ops(
                old(self).cart(),
                old(self).next_series_id as int,
                *series_color,
                series_label@,
                series@,
            ),
            final(self).annos() == old(self).annos().push(Option::<Seq<char>>::None),
            final(self).drawing_area.sink.open_stack@ == old(self).drawing_area.sink.open_stack@,
            final(self).drawing_area.base == old(self).drawing_area.base,
            final(self).drawing_area.dim == old(self).drawing_area.dim,
            final(self).drawing_area.coord == old(self).drawing_area.coord,
    {
        let series_id = self.next_series_id;
        self.next_series_id = self.next_series_id + 1;
        let cart = self.cart_exec();
        let rs = draw_series_ops(
            &mut self.drawing_area,
            &cart,
            series_id,
            series,
            series_color,
            series_label,
        );
        match rs {
            Ok(_) => {},
            Err(e) => {
                return Err(e);
            },
        }
        let idx = self.annotations.len();
        self.annotations.push(SeriesAnno::new());
        proof {
            assert(final(self).annos() =~= old(self).annos().push(Option::<Seq<char>>::None));
        }
        Ok(idx)
    }

    /// The attached legend record at `index`.
    pub fn series_anno(&self, index: usize) -> (r: &SeriesAnno)
        requires
            index < self.annotations@.len(),
        ensures
            r.label_model() == self.annos()[index as int],
    {
        &self.annotations[index]
    }

    /// Attaches a legend label to the series drawn as `index`.
    pub fn set_series_label(&mut self, index: usize, text: &str)
        requires
            index < old(self).annotations@.len(),
        ensures
            final(self).annos() == old(self).annos().update(
                index as int,
                Option::Some(text@),
            ),
            final(self).drawing_area == old(self).drawing_area,
            final(self).next_series_id == old(self).next_series_id,
    {
        let anno = &mut self.annotations[index];
        anno.set_label(text);
        proof {
            assert(final(self).annos() =~= old(self).annos().update(
                index as int,
                Option::Some(text@),
            ));
        }
    }

    /// Initializes a mesh configuration; gridlines can then be drawn
    /// with [`ChartContext::draw_mesh`].
    pub fn configure_mesh(&self) -> (r: MeshStyle)
        ensures
            r.x_tick_count == 10usize,
            r.y_tick_count == 10usize,
            r.line_color == (RGBAColorSpec { r: 200u8, g: 200u8, b: 200u8, alpha_millis: 1000u16 }),
    {
        MeshStyle {
            x_tick_count: 10,
            y_tick_count: 10,
            line_color: RGBAColorSpec { r: 200, g: 200, b: 200, alpha_millis: 1000 },
        }
    }

    /// The guest-value range of the X axis, `(low, high)` inclusive.
    pub fn x_range(&self) -> (r: (i64, i64))
        requires
            self.wf(),
        ensures
            r.0 as int == self.cart().x.low(),
            r.1 as int == self.cart().x.high(),
    {
        let cart = self.cart_exec();
        cart.get_x_range()
    }

    /// The guest-value range of the Y axis, `(low, high)` inclusive.
    pub fn y_range(&self) -> (r: (i64, i64))
        requires
            self.wf(),
        ensures
            r.0 as int == self.cart().y.low(),
            r.1 as int == self.cart().y.high(),
    {
        let cart = self.cart_exec();
        cart.get_y_range()
    }

    /// Maps a guest coordinate to the backend coordinate; typically
    /// used with an interactive chart.
    pub fn backend_coord(&self, coord: &(i64, i64)) -> (r: (i32, i32))
        requires
            self.wf(),
            self.cart().in_domain((coord.0 as int, coord.1 as int)),
        ensures
            (r.0 as int, r.1 as int) == self.cart().map_point_spec(
                (coord.0 as int, coord.1 as int),
            ),
    {
        self.drawing_area.map_coordinate(coord)
    }

    /// Whether another drawing area's rectangle strictly overlaps the
    /// chart's own plotting rectangle.
    pub fn is_overlapping_drawing_area(&self, area: Option<&DrawingArea>) -> (r: bool)
        ensures
            r == match area {
                Option::Some(a) => rects_overlap(
                    (a.base.0 as int, a.base.1 as int),
                    (a.dim.0 as int, a.dim.1 as int),
                    (self.drawing_area.base.0 as int, self.drawing_area.base.1 as int),
                    (self.drawing_area.dim.0 as int, self.drawing_area.dim.1 as int),
                ),
                Option::None => false,
            },
    {
        if let Some(area) = area {
            let (x0, y0) = area.get_base_pixel();
            let (w, h) = area.dim_in_pixel();
            let (x1, y1) = (x0 as i64 + w as i64, y0 as i64 + h as i64);
            let (dx0, dy0) = self.drawing_area.get_base_pixel();
            let (w, h) = self.drawing_area.dim_in_pixel();
            let (dx1, dy1) = (dx0 as i64 + w as i64, dy0 as i64 + h as i64);
            let ox0 = if x0 as i64 > dx0 as i64 {
                x0 as i64
            } else {
                dx0 as i64
            };
            let ox1 = if x1 < dx1 {
                x1
            } else {
                dx1
            };
            let oy0 = if y0 as i64 > dy0 as i64 {
                y0 as i64
            } else {
                dy0 as i64
            };
            let oy1 = if y1 < dy1 {
                y1
            } else {
                dy1
            };
            ox1 > ox0 && oy1 > oy0
        } else {
            false
        }
    }

    /// Converts the chart context into a dual-coordinate chart context,
    /// attaching a second, independent coordinate system over the same
    /// pixel rectangle; the primary system is carried over unchanged.
    pub fn set_secondary_coord(self, x_axis: AxisSpec, y_axis: AxisSpec) -> (r:
        DualCoordChartContext)
        requires
            self.wf(),
            x_axis.wf(),
            y_axis.wf(),
        ensures
            r.primary.drawing_area.base == self.drawing_area.base,
            r.primary.drawing_area.dim == self.drawing_area.dim,
            r.primary.drawing_area.coord == self.drawing_area.coord,
            r.primary.stream() == self.stream(),
            r.primary.drawing_area.sink.open_stack@ == self.drawing_area.sink.open_stack@,
            r.primary.next_series_id == self.next_series_id,
            r.primary.annos() == self.annos(),
            r.primary.wf(),
            r.secondary.wf(),
            r.secondary == (Cartesian2d {
                x: x_axis,
                y: y_axis,
                back_x: self.cart().back_x,
                back_y: self.cart().back_y,
            }),
    {
        let cart = self.cart_exec();
        let pr = cart.get_pixel_range();
        let secondary = Cartesian2d::new(x_axis, y_axis, (pr.0, (pr.1.1, pr.1.0)));
        DualCoordChartContext { primary: self, secondary }
    }
}

/// Whether two pixel rectangles, given as `(base, dim)`, strictly
/// overlap: each axis's intervals intersect in a region of positive
/// extent.
pub open spec fn rects_overlap(b1: (int, int), d1: (int, int), b2: (int, int), d2: (int, int)) -> bool {
    &&& b2.0 < b1.0 + d1.0
    &&& b1.0 < b2.0 + d2.0
    &&& b2.1 < b1.1 + d1.1
    &&& b1.1 < b2.1 + d2.1
    &&& 0 < d1.0 && 0 < d1.1
    &&& 0 < d2.0 && 0 < d2.1
}

/// A mesh (gridline) configuration: how many ticks to request on each
/// axis, and the gridline color.
pub struct MeshStyle {
    pub x_tick_count: usize,
    pub y_tick_count: usize,
    pub line_color: RGBAColorSpec,
}

impl MeshStyle {
    /// Requests at most `n` gridlines on the X axis.
    pub fn x_labels(self, n: usize) -> (r: Self)
        ensures
            r.x_tick_count == n,
            r.y_tick_count == self.y_tick_count,
            r.line_color == self.line_color,
    {
        MeshStyle { x_tick_count: n, y_tick_count: self.y_tick_count, line_color: self.line_color }
    }

    /// Requests at most `n` gridlines on the Y axis.
    pub fn y_labels(self, n: usize) -> (r: Self)
        ensures
            r.x_tick_count == self.x_tick_count,
            r.y_tick_count == n,
            r.line_color == self.line_color,
    {
        MeshStyle { x_tick_count: self.x_tick_count, y_tick_count: n, line_color: self.line_color }
    }
}

/// The vertical gridlines of the X-axis key points: one full-height
/// line at each mapped key value.
pub open spec fn mesh_ops_x(cart: Cartesian2d, kps: Seq<int>, color: RGBAColorSpec) -> Seq<
    OpModel,
> {
    Seq::new(
        kps.len(),
        |i: int| OpModel::DrawLine {
            from: (
                cart.x.map_spec(kps[i], cart.back_x.0 as int, cart.back_x.1 as int),
                cart.back_y.1 as int,
            ),
            to: (
                cart.x.map_spec(kps[i], cart.back_x.0 as int, cart.back_x.1 as int),
                cart.back_y.0 as int,
            ),
            color,
        },
    )
}

/// The horizontal gridlines of the Y-axis key points: one full-width
/// line at each mapped key value.
pub open spec fn mesh_ops_y(cart: Cartesian2d, kps: Seq<int>, color: RGBAColorSpec) -> Seq<
    OpModel,
> {
    Seq::new(
        kps.len(),
        |i: int| OpModel::DrawLine {
            from: (
                cart.back_x.0 as int,
                cart.y.map_spec(kps[i], cart.back_y.0 as int, cart.back_y.1 as int),
            ),
            to: (
                cart.back_x.1 as int,
                cart.y.map_spec(kps[i], cart.back_y.0 as int, cart.back_y.1 as int),
            ),
            color,
        },
    )
}

/// The whole mesh stream: all vertical gridlines, then all horizontal
/// ones.
pub open spec fn mesh_ops(cart: Cartesian2d, style: MeshStyle) -> Seq<OpModel> {
    mesh_ops_x(cart, cart.x.key_points_spec(style.x_tick_count as int), style.line_color)
        + mesh_ops_y(cart, cart.y.key_points_spec(style.y_tick_count as int), style.line_color)
}

impl ChartContext {
    /// Draws the configured mesh: one gridline per key point of each
    /// axis, placed by the chart's own coordinate transform.
    pub fn draw_mesh(&mut self, style: &MeshStyle) -> (r: Result<(), DrawingAreaErrorKind>)
        requires
            old(self).wf(),
        ensures
            r is Ok,
            final(self).wf(),
            final(self).stream() == old(self).stream() + mesh_ops(old(self).cart(), *style),
            final(self).drawing_area.sink.open_stack@ == old(self).drawing_area.sink.open_stack@,
            final(self).drawing_area.base == old(self).drawing_area.base,
            final(self).drawing_area.dim == old(self).drawing_area.dim,
            final(self).drawing_area.coord == old(self).drawing_area.coord,
            final(self).next_series_id == old(self).next_series_id,
            final(self).annos() == old(self).annos(),
    {
        let ghost stream0 = self.stream();
        let cart = self.cart_exec();
        let color = style.line_color;
        let xs = cart.x.key_points(style.x_tick_count);
        let ghost gxs = cart.x.key_points_spec(style.x_tick_count as int);
        let ghost xops = mesh_ops_x(cart, gxs, color);
        let mut i: usize = 0;
        while i < xs.len()
            invariant
                self.wf(),
                cart == self.cart(),
                color == style.line_color,
                xs@.len() == gxs.len(),
                forall|k: int| 0 <= k < xs@.len() ==> xs@[k] as int == gxs[k],
                forall|k: int| 0 <= k < xs@.len() ==> cart.x.in_domain(#[trigger] xs@[k] as int),
                xops == mesh_ops_x(cart, gxs, color),
                i <= xs@.len(),
                self.stream() == stream0 + xops.take(i as int),
                self.drawing_area.sink.open_stack@ == old(self).drawing_area.sink.open_stack@,
                self.drawing_area.base == old(self).drawing_area.base,
                self.drawing_area.dim == old(self).drawing_area.dim,
                self.drawing_area.coord == old(self).drawing_area.coord,
                self.next_series_id == old(self).next_series_id,
                self.annotations@ == old(self).annotations@,
            decreases xs@.len() - i,
        {
            let px = cart.x.map(xs[i], cart.back_x);
            self.drawing_area.sink.draw_op(
                BackendOp::DrawLine {
                    from: (px, cart.back_y.1),
                    to: (px, cart.back_y.0),
                    color,
                },
            );
            proof {
                assert(xops.take(i + 1) =~= xops.take(i as int).push(xops[i as int]));
                assert(self.stream() =~= stream0 + xops.take(i + 1));
            }
            i = i + 1;
        }
        proof {
            assert(xops.take(xs@.len() as int) =~= xops);
        }
        let ys = cart.y.key_points(style.y_tick_count);
        let ghost gys = cart.y.key_points_spec(style.y_tick_count as int);
        let ghost yops = mesh_ops_y(cart, gys, color);
        let mut j: usize = 0;
        while j < ys.len()
            invariant
                self.wf(),
                cart == self.cart(),
                color == style.line_color,
                ys@.len() == gys.len(),
                forall|k: int| 0 <= k < ys@.len() ==> ys@[k] as int == gys[k],
                forall|k: int| 0 <= k < ys@.len() ==> cart.y.in_domain(#[trigger] ys@[k] as int),
                yops == mesh_ops_y(cart, gys, color),
                j <= ys@.len(),
                self.stream() == stream0 + mesh_ops_x(cart, gxs, color) + yops.take(j as int),
                self.drawing_area.sink.open_stack@ == old(self).drawing_area.sink.open_stack@,
                self.drawing_area.base == old(self).drawing_area.base,
                self.drawing_area.dim == old(self).drawing_area.dim,
                self.drawing_area.coord == old(self).drawing_area.coord,
                self.next_series_id == old(self).next_series_id,
                self.annotations@ == old(self).annotations@,
            decreases ys@.len() - j,
        {
            let py = cart.y.map(ys[j], cart.back_y);
            self.drawing_area.sink.draw_op(
                BackendOp::DrawLine {
                    from: (cart.back_x.0, py),
                    to: (cart.back_x.1, py),
                    color,
                },
            );
            proof {
                assert(yops.take(j + 1) =~= yops.take(j as int).push(yops[j as int]));
                assert(self.stream() =~= stream0 + mesh_ops_x(cart, gxs, color) + yops.take(
                    j + 1,
                ));
            }
            j = j + 1;
        }
        proof {
            assert(yops.take(ys@.len() as int) =~= yops);
            assert(self.stream() =~= stream0 + mesh_ops(old(self).cart(), *style));
            assert(final(self).annos() =~= old(self).annos());
        }
        Ok(())
    }
}

/// Builds a chart context over a drawing area: applies the margins and
/// label-area insets, composes the Cartesian transform over the
/// remaining plotting rectangle, and rejects a degenerate (zero-size)
/// plotting area.
pub struct ChartBuilder {
    pub area: DrawingArea,
    pub margin: u32,
    pub x_label_area: u32,
    pub y_label_area: u32,
}

impl ChartBuilder {
    /// Starts building on a drawing area, with no margins and no label
    /// areas.
    pub fn on_drawing_area(area: DrawingArea) -> (r: Self)
        requires
            area.wf(),
        ensures
            r.area == area,
            r.margin == 0u32,
            r.x_label_area == 0u32,
            r.y_label_area == 0u32,
    {
        ChartBuilder { area, margin: 0, x_label_area: 0, y_label_area: 0 }
    }

    /// Sets the margin on all four sides.
    pub fn margin(self, m: u32) -> (r: Self)
        ensures
            r.area == self.area,
            r.margin == m,
            r.x_label_area == self.x_label_area,
            r.y_label_area == self.y_label_area,
    {
        ChartBuilder { area: self.area, margin: m, x_label_area: self.x_label_area, y_label_area: self.y_label_area }
    }

    /// Reserves `n` pixels below the plot for X-axis labels.
    pub fn x_label_area_size(self, n: u32) -> (r: Self)
        ensures
            r.area == self.area,
            r.margin == self.margin,
            r.x_label_area == n,
            r.y_label_area == self.y_label_area,
    {
        ChartBuilder { area: self.area, margin: self.margin, x_label_area: n, y_label_area: self.y_label_area }
    }

    /// Reserves `n` pixels left of the plot for Y-axis labels.
    pub fn y_label_area_size(self, n: u32) -> (r: Self)
        ensures
            r.area == self.area,
            r.margin == self.margin,
            r.x_label_area == self.x_label_area,
            r.y_label_area == n,
    {
        ChartBuilder { area: self.area, margin: self.margin, x_label_area: self.x_label_area, y_label_area: n }
    }

    /// Composes the two axis descriptors over the plotting rectangle
    /// that remains inside the margins and label areas.  Fails with a
    /// layout error exactly when that rectangle is degenerate (zero
    /// width or height); construction itself is infallible.
    pub fn build_cartesian_2d(self, x_axis: AxisSpec, y_axis: AxisSpec) -> (r: Result<
        ChartContext,
        DrawingAreaErrorKind,
    >)
        requires
            self.area.wf(),
            x_axis.wf(),
            y_axis.wf(),
        ensures
            ({
                let left = self.margin as int + self.y_label_area as int;
                let top = self.margin as int;
                let right = self.margin as int;
                let bottom = self.margin as int + self.x_label_area as int;
                let px0 = self.area.base.0 + left;
                let py0 = self.area.base.1 + top;
                let px1 = self.area.base.0 + self.area.dim.0 - right;
                let py1 = self.area.base.1 + self.area.dim.1 - bottom;
                match r {
                    Result::Ok(c) => {
                        &&& px0 < px1 && py0 < py1
                        &&& c.wf()
                        &&& c.next_series_id == 0u32
                        &&& c.annotations@.len() == 0
                        &&& c.stream() == self.area.stream()
                        &&& c.drawing_area.sink.open_stack@ == self.area.sink.open_stack@
                        &&& c.drawing_area.base.0 == px0 && c.drawing_area.base.1 == py0
                        &&& c.drawing_area.dim.0 == px1 - px0 && c.drawing_area.dim.1 == py1
                            - py0
                        &&& c.cart() == (Cartesian2d {
                            x: x_axis,
                            y: y_axis,
                            back_x: (px0 as i32, px1 as i32),
                            back_y: (py1 as i32, py0 as i32),
                        })
                    },
                    Result::Err(e) => {
                        &&& e == DrawingAreaErrorKind::LayoutError
                        &&& (px0 >= px1 || py0 >= py1)
                    },
                }
            }),
    {
        let (w, h) = self.area.dim_in_pixel();
        let left: u64 = self.margin as u64 + self.y_label_area as u64;
        let top: u64 = self.margin as u64;
        let right: u64 = self.margin as u64;
        let bottom: u64 = self.margin as u64 + self.x_label_area as u64;
        if left + right >= w as u64 || top + bottom >= h as u64 {
            return Err(DrawingAreaErrorKind::LayoutError);
        }
        let pw: u32 = (w as u64 - left - right) as u32;
        let ph: u32 = (h as u64 - top - bottom) as u32;
        let area = self.area.shrink((left as u32, top as u32), (pw, ph));
        let px0: i32 = area.get_base_pixel().0;
        let py0: i32 = area.get_base_pixel().1;
        let px1: i32 = (px0 as i64 + pw as i64) as i32;
        let py1: i32 = (py0 as i64 + ph as i64) as i32;
        let cart = Cartesian2d::new(x_axis, y_axis, ((px0, px1), (py0, py1)));
        let area = area.apply_coord_spec(cart);
        Ok(ChartContext { drawing_area: area, next_series_id: 0, annotations: Vec::new() })
    }
}

/// A dual-coordinate chart context: the primary chart plus a second,
/// independent Cartesian system sharing the same pixel rectangle but
/// with its own data ranges.  Each draw call is routed to the system
/// the caller names explicitly.
pub struct DualCoordChartContext {
    pub primary: ChartContext,
    pub secondary: Cartesian2d,
}

impl DualCoordChartContext {
    /// Maps a guest coordinate through the primary system.
    pub fn backend_coord(&self, coord: &(i64, i64)) -> (r: (i32, i32))
        requires
            self.primary.wf(),
            self.primary.cart().in_domain((coord.0 as int, coord.1 as int)),
        ensures
            (r.0 as int, r.1 as int) == self.primary.cart().map_point_spec(
                (coord.0 as int, coord.1 as int),
            ),
    {
        self.primary.backend_coord(coord)
    }

    /// Maps a guest coordinate through the secondary system.
    pub fn backend_coord_secondary(&self, coord: &(i64, i64)) -> (r: (i32, i32))
        requires
            self.secondary.wf(),
            self.secondary.in_domain((coord.0 as int, coord.1 as int)),
        ensures
            (r.0 as int, r.1 as int) == self.secondary.map_point_spec(
                (coord.0 as int, coord.1 as int),
            ),
    {
        self.secondary.map_coordinate(coord)
    }

    /// Draws a series through the primary coordinate system.
    pub fn draw_series_with_tooltips(
        &mut self,
        series: &Vec<Element>,
        series_color: &RGBAColorSpec,
        series_label: &str,
    ) -> (r: Result<usize, DrawingAreaErrorKind>)
        requires
            old(self).primary.wf(),
            old(self).primary.next_series_id < u32::MAX,
            series_fits(old(self).primary.cart(), series@),
        ensures
            r == Ok::<usize, DrawingAreaErrorKind>(
                old(self).primary.annotations@.len() as usize,
            ),
            final(self).primary.wf(),
            final(self).secondary == old(self).secondary,
            final(self).primary.next_series_id == old(self).primary.next_series_id + 1,
            final(self).primary.stream() == old(self).primary.stream() + series_ops(
                old(self).primary.cart(),
                old(self).primary.next_series_id as int,
                *series_color,
                series_label@,
                series@,
            ),
            final(self).primary.annos() == old(self).primary.annos().push(
                Option::<Seq<char>>::None,
            ),
            final(self).primary.drawing_area.coord == old(self).primary.drawing_area.coord,
            final(self).primary.drawing_area.sink.open_stack@ == old(
                self,
            ).primary.drawing_area.sink.open_stack@,
    {
        self.primary.draw_series_with_tooltips(series, series_color, series_label)
    }

    /// Draws a series through the secondary coordinate system: the
    /// same semantic stream, with every coordinate and label computed
    /// by the secondary system, emitted into the same sink; the
    /// primary system is not consulted and not changed.
    pub fn draw_secondary_series_with_tooltips(
        &mut self,
        series: &Vec<Element>,
        series_color: &RGBAColorSpec,
        series_label: &str,
    ) -> (r: Result<usize, DrawingAreaErrorKind>)
        requires
            old(self).primary.wf(),
            old(self).secondary.wf(),
            old(self).primary.next_series_id < u32::MAX,
            series_fits(old(self).secondary, series@),
        ensures
            r == Ok::<usize, DrawingAreaErrorKind>(
                old(self).primary.annotations@.len() as usize,
            ),
            final(self).primary.wf(),
            final(self).secondary == old(self).secondary,
            final(self).primary.next_series_id == old(self).primary.next_series_id + 1,
            final(self).primary.stream() == old(self).primary.stream() + series_ops(
                old(self).secondary,
                old(self).primary.next_series_id as int,
                *series_color,
                series_label@,
                series@,
            ),
            final(self).primary.annos() == old(self).primary.annos().push(
                Option::<Seq<char>>::None,
            ),
            final(self).primary.drawing_area.coord == old(self).primary.drawing_area.coord,
            final(self).primary.drawing_area.sink.open_stack@ == old(
                self,
            ).primary.drawing_area.sink.open_stack@,
    {
        let series_id = self.primary.next_series_id;
        self.primary.next_series_id = self.primary.next_series_id + 1;
        let rs = draw_series_ops(
            &mut self.primary.drawing_area,
            &self.secondary,
            series_id,
            series,
            series_color,
            series_label,
        );
        match rs {
            Ok(_) => {},
            Err(e) => {
                return Err(e);
            },
        }
        let idx = self.primary.annotations.len();
        self.primary.annotations.push(SeriesAnno::new());
        proof {
            assert(final(self).primary.annos() =~= old(self).primary.annos().push(
                Option::<Seq<char>>::None,
            ));
        }
        Ok(idx)
    }
}

/// The primary mapping is a function of the primary coordinate system
/// alone: two dual-coordinate charts whose primary systems agree map
/// every guest point identically, whatever secondary systems are
/// attached to them.
pub proof fn lemma_primary_map_independent_of_secondary(
    d1: DualCoordChartContext,
    d2: DualCoordChartContext,
    p: (int, int),
)
    requires
        d1.primary.drawing_area.coord == d2.primary.drawing_area.coord,
    ensures
        d1.primary.cart().map_point_spec(p) == d2.primary.cart().map_point_spec(p),
{
}

/// An empty input sequence yields exactly one `DataSeries` context,
/// opened and immediately closed, and nothing else.
pub proof fn lemma_empty_series_stream(
    cart: Cartesian2d,
    series_id: int,
    color: RGBAColorSpec,
    label: Seq<char>,
)
    ensures
        series_ops(cart, series_id, color, label, Seq::<Element>::empty()) =~= seq![
            OpModel::BeginContext {
                ctx: (ContextModel::DataSeries { id: series_id, color, label }),
            },
            OpModel::EndContext,
        ],
{
}

/// A single one-point element yields exactly one `DataPoint` context,
/// opened and closed strictly inside the `DataSeries` context,
/// carrying the mapped coordinate and both formatted labels.
pub proof fn lemma_single_point_series(
    cart: Cartesian2d,
    series_id: int,
    color: RGBAColorSpec,
    label: Seq<char>,
    e: Element,
)
    requires
        e.guest_points().len() == 1,
    ensures
        series_ops(cart, series_id, color, label, seq![e]) =~~= seq![
            OpModel::BeginContext {
                ctx: (ContextModel::DataSeries { id: series_id, color, label }),
            },
            OpModel::BeginContext {
                ctx: (ContextModel::DataPoint {
                    coord: mapped_points_spec(cart, e.guest_points())[0],
                    x_label: cart.x.format_spec(e.guest_points()[0].0 as int),
                    y_label: cart.y.format_spec(e.guest_points()[0].1 as int),
                    series_id,
                }),
            },
        ] + e.render_spec(mapped_points_spec(cart, e.guest_points())) + seq![
            OpModel::EndContext,
            OpModel::EndContext,
        ],
{
    let s = seq![e];
    assert(s.drop_last() =~= Seq::<Element>::empty());
    assert(s.last() == e);
    assert(elements_ops(cart, series_id, Seq::<Element>::empty()) == Seq::<OpModel>::empty());
    assert(elements_ops(cart, series_id, s) =~= elem_context_ops(cart, series_id, e));
}

/// A single element with `n >= 2` vertices yields exactly one
/// `DataLine` context inside the `DataSeries` context, whose two
/// discrete interpolations hold exactly `n` entries, in the element's
/// point order, each pairing the vertex's mapped pixel offset with the
/// formatted value of its respective coordinate.
pub proof fn lemma_multi_point_line(
    cart: Cartesian2d,
    series_id: int,
    color: RGBAColorSpec,
    label: Seq<char>,
    e: Element,
)
    requires
        e.guest_points().len() >= 2,
    ensures
        series_ops(cart, series_id, color, label, seq![e]) =~~= seq![
            OpModel::BeginContext {
                ctx: (ContextModel::DataSeries { id: series_id, color, label }),
            },
            OpModel::BeginContext {
                ctx: (ContextModel::DataLine {
                    x_interpolation: (InterpolationModel::Discrete {
                        points: Seq::new(
                            e.guest_points().len(),
                            |i: int| (
                                mapped_points_spec(cart, e.guest_points())[i].0,
                                cart.x.format_spec(e.guest_points()[i].0 as int),
                            ),
                        ),
                    }),
                    y_interpolation: (InterpolationModel::Discrete {
                        points: Seq::new(
                            e.guest_points().len(),
                            |i: int| (
                                mapped_points_spec(cart, e.guest_points())[i].1,
                                cart.y.format_spec(e.guest_points()[i].1 as int),
                            ),
                        ),
                    }),
                    series_id,
                }),
            },
        ] + e.render_spec(mapped_points_spec(cart, e.guest_points())) + seq![
            OpModel::EndContext,
            OpModel::EndContext,
        ],
{
    let s = seq![e];
    assert(s.drop_last() =~= Seq::<Element>::empty());
    assert(s.last() == e);
    assert(elements_ops(cart, series_id, Seq::<Element>::empty()) == Seq::<OpModel>::empty());
    assert(elements_ops(cart, series_id, s) =~= elem_context_ops(cart, series_id, e));
}


/// How one operation changes the count of open contexts.
pub open spec fn depth_delta(op: OpModel) -> int {
    match op {
        OpModel::BeginContext { .. } => 1,
        OpModel::EndContext => -1,
        _ => 0,
    }
}

/// The net number of contexts a stream leaves open.
pub open spec fn stream_depth(ops: Seq<OpModel>) -> int
    decreases ops.len(),
{
    if ops.len() == 0 {
        0
    } else {
        stream_depth(ops.drop_last()) + depth_delta(ops.last())
    }
}

/// Depth is additive over concatenation.
proof fn lemma_stream_depth_add(a: Seq<OpModel>, b: Seq<OpModel>)
    ensures
        stream_depth(a + b) == stream_depth(a) + stream_depth(b),
    decreases b.len(),
{
    if b.len() == 0 {
        assert(a + b =~= a);
    } else {
        lemma_stream_depth_add(a, b.drop_last());
        assert((a + b).drop_last() =~= a + b.drop_last());
        assert((a + b).last() == b.last());
    }
}

/// One element's operations leave no context open.
proof fn lemma_elem_context_ops_balanced(cart: Cartesian2d, series_id: int, e: Element)
    ensures
        stream_depth(elem_context_ops(cart, series_id, e)) == 0,
{
    let pts = e.guest_points();
    let mapped = mapped_points_spec(cart, pts);
    let render = e.render_spec(mapped);
    let whole = elem_context_ops(cart, series_id, e);
    let endop = OpModel::EndContext;
    assert(stream_depth(Seq::<OpModel>::empty()) == 0);
    match e {
        Element::Circle { .. } => {
            assert(render.len() == 1 && depth_delta(render.last()) == 0);
        },
        Element::PathLine { .. } => {
            assert(render.len() == 1 && depth_delta(render.last()) == 0);
        },
    }
    assert(render.drop_last() =~= Seq::<OpModel>::empty());
    assert(stream_depth(render) == 0);
    assert(seq![endop].drop_last() =~= Seq::<OpModel>::empty());
    assert(stream_depth(seq![endop]) == -1);
    if pts.len() == 1 {
        let begin = OpModel::BeginContext {
            ctx: ContextModel::DataPoint {
                coord: mapped[0],
                x_label: cart.x.format_spec(pts[0].0 as int),
                y_label: cart.y.format_spec(pts[0].1 as int),
                series_id,
            },
        };
        assert(seq![begin].drop_last() =~= Seq::<OpModel>::empty());
        assert(stream_depth(seq![begin]) == 1);
        lemma_stream_depth_add(seq![begin], render);
        lemma_stream_depth_add(seq![begin] + render, seq![endop]);
        assert(whole =~= (seq![begin] + render) + seq![endop]);
    } else if pts.len() >= 2 {
        let begin = OpModel::BeginContext {
            ctx: ContextModel::DataLine {
                x_interpolation: InterpolationModel::Discrete {
                    points: Seq::new(
                        pts.len(),
                        |i: int| (mapped[i].0, cart.x.format_spec(pts[i].0 as int)),
                    ),
                },
                y_interpolation: InterpolationModel::Discrete {
                    points: Seq::new(
                        pts.len(),
                        |i: int| (mapped[i].1, cart.y.format_spec(pts[i].1 as int)),
                    ),
                },
                series_id,
            },
        };
        assert(seq![begin].drop_last() =~= Seq::<OpModel>::empty());
        assert(stream_depth(seq![begin]) == 1);
        lemma_stream_depth_add(seq![begin], render);
        lemma_stream_depth_add(seq![begin] + render, seq![endop]);
        assert(whole =~= (seq![begin] + render) + seq![endop]);
    }
}

/// Every element's operations of a sequence together leave no context
/// open.
proof fn lemma_elements_ops_balanced(cart: Cartesian2d, series_id: int, elems: Seq<Element>)
    ensures
        stream_depth(elements_ops(cart, series_id, elems)) == 0,
    decreases elems.len(),
{
    if elems.len() != 0 {
        lemma_elements_ops_balanced(cart, series_id, elems.drop_last());
        lemma_elem_context_ops_balanced(cart, series_id, elems.last());
        lemma_stream_depth_add(
            elements_ops(cart, series_id, elems.drop_last()),
            elem_context_ops(cart, series_id, elems.last()),
        );
    }
}

/// Context open/close operations balance: the whole stream of one
/// series-drawing call opens exactly as many contexts as it closes, so
/// the stack of open contexts returns to where it started (the strict
/// LIFO bracket discipline of the semantic contexts).
pub proof fn lemma_series_ops_balanced(
    cart: Cartesian2d,
    series_id: int,
    color: RGBAColorSpec,
    label: Seq<char>,
    elems: Seq<Element>,
)
    ensures
        stream_depth(series_ops(cart, series_id, color, label, elems)) == 0,
{
    let body = elements_ops(cart, series_id, elems);
    let sctx = OpModel::BeginContext {
        ctx: ContextModel::DataSeries { id: series_id, color, label },
    };
    lemma_elements_ops_balanced(cart, series_id, elems);
    assert(stream_depth(Seq::<OpModel>::empty()) == 0);
    assert(seq![sctx].drop_last() =~= Seq::<OpModel>::empty());
    assert(stream_depth(seq![sctx]) == 1);
    assert(seq![OpModel::EndContext].drop_last() =~= Seq::<OpModel>::empty());
    assert(stream_depth(seq![OpModel::EndContext]) == -1);
    lemma_stream_depth_add(seq![sctx], body);
    lemma_stream_depth_add(seq![sctx] + body, seq![OpModel::EndContext]);
    assert(series_ops(cart, series_id, color, label, elems) =~= (seq![sctx] + body) + seq![
        OpModel::EndContext,
    ]);
}

} // verus!
