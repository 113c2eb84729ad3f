use chart_core::backend::{BackendOp, DrawingAreaErrorKind, ElementContext, Interpolation, RGBAColorSpec};
use chart_core::chart::{ChartBuilder, ChartContext};
use chart_core::decimal::format_value;
use chart_core::drawing::DrawingArea;
use chart_core::element::Element;
use chart_core::ranged::AxisSpec;

const RED: RGBAColorSpec = RGBAColorSpec { r: 255, g: 0, b: 0, alpha_millis: 1000 };
const BLUE: RGBAColorSpec = RGBAColorSpec { r: 0, g: 0, b: 255, alpha_millis: 1000 };

fn simple_chart(width: u32, height: u32, x: AxisSpec, y: AxisSpec) -> ChartContext {
    let area = DrawingArea::new(width, height);
    ChartBuilder::on_drawing_area(area)
        .build_cartesian_2d(x, y)
        .expect("non-degenerate chart")
}

#[test]
fn empty_series_opens_one_series_context() {
    let mut chart = simple_chart(
        100,
        100,
        AxisSpec::Linear { from: 0, to: 10 },
        AxisSpec::Linear { from: 0, to: 10 },
    );
    let idx = chart
        .draw_series_with_tooltips(&vec![], &RED, "empty")
        .unwrap();
    assert_eq!(idx, 0);
    let ops = chart.drawing_area.sink.operations();
    assert_eq!(ops.len(), 2);
    match &ops[0] {
        BackendOp::BeginContext { ctx: ElementContext::DataSeries { id, color, label } } => {
            assert_eq!(*id, 0);
            assert_eq!(*color, RED);
            assert_eq!(label, "empty");
        }
        _ => panic!("expected a series context to open first"),
    }
    assert!(matches!(ops[1], BackendOp::EndContext));
    assert_eq!(chart.drawing_area.sink.open_depth(), 0);
    assert!(chart.series_anno(0).label_text().is_none());
}

#[test]
fn single_point_element_opens_data_point_context() {
    let mut chart = simple_chart(
        100,
        100,
        AxisSpec::Linear { from: 0, to: 10 },
        AxisSpec::Linear { from: 0, to: 10 },
    );
    let series = vec![Element::Circle { center: (5, 5), radius: 2, color: RED }];
    chart.draw_series_with_tooltips(&series, &RED, "dot").unwrap();
    let expected_coord = chart.backend_coord(&(5, 5));
    let ops = chart.drawing_area.sink.operations();
    assert_eq!(ops.len(), 5);
    assert!(matches!(
        ops[0],
        BackendOp::BeginContext { ctx: ElementContext::DataSeries { .. } }
    ));
    match &ops[1] {
        BackendOp::BeginContext {
            ctx: ElementContext::DataPoint { coord, x_label, y_label, series_id },
        } => {
            assert_eq!(*coord, expected_coord);
            assert_eq!(x_label, &format_value(5));
            assert_eq!(y_label, &format_value(5));
            assert_eq!(*series_id, 0);
        }
        _ => panic!("expected a data-point context nested in the series context"),
    }
    assert!(matches!(ops[2], BackendOp::DrawCircle { .. }));
    assert!(matches!(ops[3], BackendOp::EndContext));
    assert!(matches!(ops[4], BackendOp::EndContext));
}

#[test]
fn zero_point_element_opens_no_nested_context() {
    let mut chart = simple_chart(
        100,
        100,
        AxisSpec::Linear { from: 0, to: 10 },
        AxisSpec::Linear { from: 0, to: 10 },
    );
    let series = vec![Element::PathLine { points: vec![], color: RED }];
    chart.draw_series_with_tooltips(&series, &RED, "hollow").unwrap();
    let ops = chart.drawing_area.sink.operations();
    assert_eq!(ops.len(), 3);
    assert!(matches!(
        ops[0],
        BackendOp::BeginContext { ctx: ElementContext::DataSeries { .. } }
    ));
    assert!(matches!(ops[1], BackendOp::DrawPath { .. }));
    assert!(matches!(ops[2], BackendOp::EndContext));
}

#[test]
fn multi_point_element_carries_per_vertex_labels() {
    let mut chart = simple_chart(
        200,
        200,
        AxisSpec::Linear { from: 0, to: 10 },
        AxisSpec::Linear { from: -5, to: 5 },
    );
    let pts = vec![(0, -5), (4, 0), (10, 5)];
    let series = vec![Element::PathLine { points: pts.clone(), color: BLUE }];
    chart.draw_series_with_tooltips(&series, &BLUE, "line").unwrap();
    let mapped: Vec<(i32, i32)> = pts.iter().map(|p| chart.backend_coord(p)).collect();
    let ops = chart.drawing_area.sink.operations();
    assert_eq!(ops.len(), 5);
    match &ops[1] {
        BackendOp::BeginContext {
            ctx:
                ElementContext::DataLine {
                    x_interpolation: Interpolation::Discrete { points: xp },
                    y_interpolation: Interpolation::Discrete { points: yp },
                    series_id,
                },
        } => {
            assert_eq!(*series_id, 0);
            assert_eq!(xp.len(), 3);
            assert_eq!(yp.len(), 3);
            for i in 0..3 {
                assert_eq!(xp[i].0, mapped[i].0);
                assert_eq!(xp[i].1, format_value(pts[i].0));
                assert_eq!(yp[i].0, mapped[i].1);
                assert_eq!(yp[i].1, format_value(pts[i].1));
            }
        }
        _ => panic!("expected a data-line context with discrete interpolations"),
    }
    assert!(matches!(ops[2], BackendOp::DrawPath { .. }));
}

#[test]
fn series_identifiers_strictly_increase() {
    let mut chart = simple_chart(
        100,
        100,
        AxisSpec::Linear { from: 0, to: 10 },
        AxisSpec::Linear { from: 0, to: 10 },
    );
    chart.draw_series_with_tooltips(&vec![], &RED, "first").unwrap();
    chart.draw_series_with_tooltips(&vec![], &BLUE, "second").unwrap();
    let ops = chart.drawing_area.sink.operations();
    let mut ids = Vec::new();
    for op in ops {
        if let BackendOp::BeginContext { ctx: ElementContext::DataSeries { id, .. } } = op {
            ids.push(*id);
        }
    }
    assert_eq!(ids, vec![0, 1]);
    assert!(ids[0] < ids[1]);
}

#[test]
fn legend_labels_attach_to_their_series() {
    let mut chart = simple_chart(
        100,
        100,
        AxisSpec::Linear { from: 0, to: 10 },
        AxisSpec::Linear { from: 0, to: 10 },
    );
    let a = chart.draw_series_with_tooltips(&vec![], &RED, "a").unwrap();
    let b = chart.draw_series_with_tooltips(&vec![], &BLUE, "b").unwrap();
    chart.set_series_label(a, "first series");
    assert_eq!(
        chart.series_anno(a).label_text().expect("label set"),
        "first series"
    );
    assert!(chart.series_anno(b).label_text().is_none());
}

#[test]
fn secondary_coord_preserves_primary_mapping() {
    let chart = simple_chart(
        300,
        200,
        AxisSpec::Linear { from: 0, to: 100 },
        AxisSpec::Linear { from: 0, to: 50 },
    );
    let before = chart.backend_coord(&(40, 20));
    let mut dual = chart.set_secondary_coord(
        AxisSpec::Linear { from: -900, to: 900 },
        AxisSpec::Discrete { count: 7 },
    );
    let after = dual.backend_coord(&(40, 20));
    assert_eq!(before, after);
    dual.draw_secondary_series_with_tooltips(
        &vec![Element::Circle { center: (0, 3), radius: 1, color: RED }],
        &RED,
        "secondary",
    )
    .unwrap();
    let again = dual.backend_coord(&(40, 20));
    assert_eq!(before, again);
}

#[test]
fn secondary_coord_shares_the_pixel_rectangle() {
    let chart = simple_chart(
        300,
        200,
        AxisSpec::Linear { from: 0, to: 100 },
        AxisSpec::Linear { from: 0, to: 50 },
    );
    let prim_low = chart.backend_coord(&(0, 0));
    let prim_high = chart.backend_coord(&(100, 50));
    let dual = chart.set_secondary_coord(
        AxisSpec::Linear { from: 0, to: 10 },
        AxisSpec::Linear { from: 0, to: 10 },
    );
    let sec_low = dual.backend_coord_secondary(&(0, 0));
    let sec_high = dual.backend_coord_secondary(&(10, 10));
    assert_eq!(prim_low, sec_low);
    assert_eq!(prim_high, sec_high);
}

#[test]
fn end_context_without_open_context_is_unbalanced() {
    let mut area = DrawingArea::new(10, 10);
    assert_eq!(area.end_context(), Err(DrawingAreaErrorKind::UnbalancedContext));
    assert_eq!(area.sink.operations().len(), 0);
}

#[test]
fn degenerate_plot_area_is_a_layout_error() {
    let area = DrawingArea::new(30, 30);
    let r = ChartBuilder::on_drawing_area(area)
        .margin(20)
        .build_cartesian_2d(
            AxisSpec::Linear { from: 0, to: 1 },
            AxisSpec::Linear { from: 0, to: 1 },
        );
    assert!(matches!(r, Err(DrawingAreaErrorKind::LayoutError)));
}

#[test]
fn overlapping_drawing_areas_are_detected() {
    let chart = simple_chart(
        100,
        100,
        AxisSpec::Linear { from: 0, to: 1 },
        AxisSpec::Linear { from: 0, to: 1 },
    );
    let inside = DrawingArea::new(50, 50);
    assert!(chart.is_overlapping_drawing_area(Some(&inside)));
    assert!(!chart.is_overlapping_drawing_area(None));
    let far = DrawingArea::new(400, 400).shrink((300, 300), (50, 50));
    assert!(!chart.is_overlapping_drawing_area(Some(&far)));
}

#[test]
fn split_evenly_partitions_the_rectangle() {
    let area = DrawingArea::new(100, 90);
    let cells = area.split_evenly((3, 2));
    assert_eq!(cells.len(), 6);
    assert_eq!(cells[0], ((0, 0), (50, 30)));
    assert_eq!(cells[1], ((50, 0), (50, 30)));
    assert_eq!(cells[2], ((0, 30), (50, 30)));
    assert_eq!(cells[5], ((50, 60), (50, 30)));
    let total: u64 = cells.iter().map(|c| c.1 .0 as u64 * c.1 .1 as u64).sum();
    assert_eq!(total, 100 * 90);
}

#[test]
fn mesh_draws_one_line_per_key_point() {
    let mut chart = simple_chart(
        100,
        100,
        AxisSpec::Linear { from: 0, to: 10 },
        AxisSpec::Linear { from: 0, to: 10 },
    );
    let style = chart.configure_mesh().x_labels(2).y_labels(3);
    chart.draw_mesh(&style).unwrap();
    let ops = chart.drawing_area.sink.operations();
    assert_eq!(ops.len(), 5);
    assert!(ops.iter().all(|op| matches!(op, BackendOp::DrawLine { .. })));
    match &ops[0] {
        BackendOp::DrawLine { from, to, .. } => {
            assert_eq!(from.0, to.0);
            assert_eq!(from.0, chart.backend_coord(&(0, 0)).0);
        }
        _ => unreachable!(),
    }
}

#[test]
fn split_by_breakpoints_uses_the_given_breaks() {
    let area = DrawingArea::new(100, 80);
    let cells = area.split_by_breakpoints(&vec![30, 70], &vec![40]);
    assert_eq!(cells.len(), 6);
    assert_eq!(cells[0], ((0, 0), (30, 40)));
    assert_eq!(cells[1], ((30, 0), (40, 40)));
    assert_eq!(cells[2], ((70, 0), (30, 40)));
    assert_eq!(cells[3], ((0, 40), (30, 40)));
    assert_eq!(cells[5], ((70, 40), (30, 40)));
}
