//! The backend sink: semantic element contexts, primitive drawing
//! operations, and a recording sink that accumulates the operation
//! stream a rendering backend replays.
//!
//! The sink keeps a stack of the currently open semantic contexts; a
//! context must be closed in strict LIFO order relative to how it was
//! opened, and closing with nothing open is an unbalanced-context fault.

use vstd::prelude::*;

verus! {

/// An RGB color resolved for the backend.
#[derive(Clone, Copy, PartialEq, Eq, Structural, Debug)]
pub struct RGBAColorSpec {
    pub r: u8,
    pub g: u8,
    pub b: u8,
    /// Opacity in thousandths (0 transparent, 1000 opaque).
    pub alpha_millis: u16,
}

/// Per-vertex interpolation data carried by a line context; `Discrete`
/// lists one `(pixel_offset, label)` entry per vertex in draw order.
pub enum Interpolation {
    Discrete { points: Vec<(i32, String)> },
}

/// The mathematical value of an [`Interpolation`].
pub enum InterpolationModel {
    Discrete { points: Seq<(int, Seq<char>)> },
}

impl View for Interpolation {
    type V = InterpolationModel;

    open spec fn view(&self) -> InterpolationModel {
        match self {
            Interpolation::Discrete { points } => InterpolationModel::Discrete {
                points: Seq::new(points@.len(), |i: int| (points@[i].0 as int, points@[i].1@)),
            },
        }
    }
}

/// A semantic context bracketing backend draw calls, consumed by
/// interactive backends to attach tooltip or hover behaviour.
pub enum ElementContext {
    /// Brackets one whole series.
    DataSeries { id: u32, color: RGBAColorSpec, label: String },
    /// Brackets one single-point element.
    DataPoint { coord: (i32, i32), x_label: String, y_label: String, series_id: u32 },
    /// Brackets one multi-point element, with per-vertex labels on both
    /// axes.
    DataLine { x_interpolation: Interpolation, y_interpolation: Interpolation, series_id: u32 },
}

/// The mathematical value of an [`ElementContext`].
pub enum ContextModel {
    DataSeries { id: int, color: RGBAColorSpec, label: Seq<char> },
    DataPoint { coord: (int, int), x_label: Seq<char>, y_label: Seq<char>, series_id: int },
    DataLine {
        x_interpolation: InterpolationModel,
        y_interpolation: InterpolationModel,
        series_id: int,
    },
}

impl View for ElementContext {
    type V = ContextModel;

    open spec fn view(&self) -> ContextModel {
        match self {
            ElementContext::DataSeries { id, color, label } => ContextModel::DataSeries {
                id: id as int,
                color: *color,
                label: label@,
            },
            ElementContext::DataPoint { coord, x_label, y_label, series_id } => {
                ContextModel::DataPoint {
                    coord: (coord.0 as int, coord.1 as int),
                    x_label: x_label@,
                    y_label: y_label@,
                    series_id: series_id as int,
                }
            },
            ElementContext::DataLine { x_interpolation, y_interpolation, series_id } => {
                ContextModel::DataLine {
                    x_interpolation: x_interpolation@,
                    y_interpolation: y_interpolation@,
                    series_id: series_id as int,
                }
            },
        }
    }
}

/// One operation of the backend stream: a context notification or a
/// primitive draw command in backend pixel coordinates.
pub enum BackendOp {
    BeginContext { ctx: ElementContext },
    EndContext,
    DrawLine { from: (i32, i32), to: (i32, i32), color: RGBAColorSpec },
    DrawRect { upper_left: (i32, i32), bottom_right: (i32, i32), color: RGBAColorSpec },
    DrawCircle { center: (i32, i32), radius: u32, color: RGBAColorSpec },
    DrawPath { points: Vec<(i32, i32)>, color: RGBAColorSpec },
    DrawText { pos: (i32, i32), text: String, color: RGBAColorSpec },
}

/// The mathematical value of a [`BackendOp`].
pub enum OpModel {
    BeginContext { ctx: ContextModel },
    EndContext,
    DrawLine { from: (int, int), to: (int, int), color: RGBAColorSpec },
    DrawRect { upper_left: (int, int), bottom_right: (int, int), color: RGBAColorSpec },
    DrawCircle { center: (int, int), radius: int, color: RGBAColorSpec },
    DrawPath { points: Seq<(int, int)>, color: RGBAColorSpec },
    DrawText { pos: (int, int), text: Seq<char>, color: RGBAColorSpec },
}

impl View for BackendOp {
    type V = OpModel;

    open spec fn view(&self) -> OpModel {
        match self {
            BackendOp::BeginContext { ctx } => OpModel::BeginContext { ctx: ctx@ },
            BackendOp::EndContext => OpModel::EndContext,
            BackendOp::DrawLine { from, to, color } => OpModel::DrawLine {
                from: (from.0 as int, from.1 as int),
                to: (to.0 as int, to.1 as int),
                color: *color,
            },
            BackendOp::DrawRect { upper_left, bottom_right, color } => OpModel::DrawRect {
                upper_left: (upper_left.0 as int, upper_left.1 as int),
                bottom_right: (bottom_right.0 as int, bottom_right.1 as int),
                color: *color,
            },
            BackendOp::DrawCircle { center, radius, color } => OpModel::DrawCircle {
                center: (center.0 as int, center.1 as int),
                radius: radius as int,
                color: *color,
            },
            BackendOp::DrawPath { points, color } => OpModel::DrawPath {
                points: Seq::new(points@.len(), |i: int| (points@[i].0 as int, points@[i].1 as int)),
                color: *color,
            },
            BackendOp::DrawText { pos, text, color } => OpModel::DrawText {
                pos: (pos.0 as int, pos.1 as int),
                text: text@,
                color: *color,
            },
        }
    }
}

/// The abstract stream emitted so far: the operations by value.
pub open spec fn stream_of(ops: Seq<BackendOp>) -> Seq<OpModel> {
    Seq::new(ops.len(), |i: int| ops[i]@)
}

/// The error taxonomy of the drawing layer.
#[derive(Clone, Copy, PartialEq, Eq, Structural, Debug)]
pub enum DrawingAreaErrorKind {
    /// A backend-level failure reported by the sink.
    BackendError,
    /// A degenerate (zero-size) drawing area or a coordinate-spec
    /// misconfiguration.
    LayoutError,
    /// `end_context` was called with no context open.
    UnbalancedContext,
}

/// A sink that records the operation stream and tracks the stack of
/// open semantic contexts (as indices of their `BeginContext`
/// operations within the stream).
pub struct BackendSink {
    pub ops: Vec<BackendOp>,
    pub open_stack: Vec<usize>,
}

impl BackendSink {
    /// The recorded stream by value.
    pub open spec fn stream(self) -> Seq<OpModel> {
        stream_of(self.ops@)
    }

    /// Every stack entry indexes a `BeginContext` operation of the
    /// stream, in increasing order.
    pub open spec fn wf(self) -> bool {
        &&& forall|i: int|
            0 <= i < self.open_stack@.len() ==> #[trigger] self.open_stack@[i] < self.ops@.len()
                && (self.ops@[self.open_stack@[i] as int]@ matches OpModel::BeginContext { .. })
        &&& forall|i: int, j: int|
            0 <= i < j < self.open_stack@.len() ==> #[trigger] self.open_stack@[i]
                < #[trigger] self.open_stack@[j]
    }

    /// A fresh sink: nothing recorded, nothing open.
    pub fn new() -> (r: Self)
        ensures
            r.wf(),
            r.stream() == Seq::<OpModel>::empty(),
            r.open_stack@.len() == 0,
    {
        let r = BackendSink { ops: Vec::new(), open_stack: Vec::new() };
        proof {
            assert(r.stream() =~= Seq::<OpModel>::empty());
        }
        r
    }

    /// Opens a semantic context: records the notification and pushes it
    /// onto the stack of open contexts.  Recording cannot fail.
    pub fn begin_context(&mut self, ctx: ElementContext) -> (r: Result<
        (),
        DrawingAreaErrorKind,
    >)
        requires
            old(self).wf(),
        ensures
            r is Ok,
            final(self).wf(),
            final(self).stream() =~= old(self).stream().push(
                OpModel::BeginContext { ctx: ctx@ },
            ),
            final(self).open_stack@.len() == old(self).open_stack@.len() + 1,
            final(self).open_stack@ == old(self).open_stack@.push(old(self).ops@.len() as usize),
    {
        let idx = self.ops.len();
        let ghost prev = *self;
        self.ops.push(BackendOp::BeginContext { ctx });
        self.open_stack.push(idx);
        proof {
            assert(final(self).stream() =~= prev.stream().push(
                OpModel::BeginContext { ctx: ctx@ },
            ));
        }
        Ok(())
    }

    /// Closes the most recently opened context: pops the stack and
    /// records the notification.  Fails, changing nothing, exactly when
    /// no context is open.
    pub fn end_context(&mut self) -> (r: Result<(), DrawingAreaErrorKind>)
        requires
            old(self).wf(),
        ensures
            final(self).wf(),
            old(self).open_stack@.len() > 0 ==> {
                &&& r is Ok
                &&& final(self).stream() =~= old(self).stream().push(OpModel::EndContext)
                &&& final(self).open_stack@ == old(self).open_stack@.drop_last()
            },
            old(self).open_stack@.len() == 0 ==> {
                &&& r == Result::<(), DrawingAreaErrorKind>::Err(
                    DrawingAreaErrorKind::UnbalancedContext,
                )
                &&& *final(self) == *old(self)
            },
    {
        if self.open_stack.len() == 0 {
            return Err(DrawingAreaErrorKind::UnbalancedContext);
        }
        let ghost prev = *self;
        self.open_stack.pop();
        self.ops.push(BackendOp::EndContext);
        proof {
            assert(final(self).stream() =~= prev.stream().push(OpModel::EndContext));
        }
        Ok(())
    }

    /// Records one primitive draw command.  Recording cannot fail.
    pub fn draw_op(&mut self, op: BackendOp)
        requires
            old(self).wf(),
            !(op@ matches OpModel::BeginContext { .. }),
            !(op@ matches OpModel::EndContext),
        ensures
            final(self).wf(),
            final(self).stream() =~= old(self).stream().push(op@),
            final(self).open_stack@ == old(self).open_stack@,
    {
        let ghost prev = *self;
        self.ops.push(op);
        proof {
            assert(final(self).stream() =~= prev.stream().push(op@));
        }
    }

    /// The number of currently open contexts.
    pub fn open_depth(&self) -> (r: usize)
        ensures
            r == self.open_stack@.len(),
    {
        self.open_stack.len()
    }

    /// The recorded operations, for a backend to replay in order.
    pub fn operations(&self) -> (r: &Vec<BackendOp>)
        ensures
            r@ == self.ops@,
    {
        &self.ops
    }
}

} // verus!
