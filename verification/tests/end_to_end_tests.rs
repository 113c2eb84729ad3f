//! End-to-end scenario: a sine line over X in [0, 6.5] and Y in
//! [-1.2, 1.2] on a 720 by 460 canvas.  Guest coordinates are held in
//! thousandths, so 6.5 is 6500 and 1.2 is 1200.

use chart_core::backend::{BackendOp, ElementContext, Interpolation, RGBAColorSpec};
use chart_core::chart::ChartBuilder;
use chart_core::decimal::format_value;
use chart_core::drawing::DrawingArea;
use chart_core::element::Element;
use chart_core::ranged::AxisSpec;

#[test]
fn sine_line_end_to_end() {
    let area = DrawingArea::new(720, 460);
    let mut chart = ChartBuilder::on_drawing_area(area)
        .margin(10)
        .x_label_area_size(30)
        .y_label_area_size(30)
        .build_cartesian_2d(
            AxisSpec::Linear { from: 0, to: 6500 },
            AxisSpec::Linear { from: -1200, to: 1200 },
        )
        .expect("chart layout is non-degenerate");

    let mut points: Vec<(i64, i64)> = Vec::new();
    for i in 0..61u32 {
        let x = 6.5f64 * (i as f64) / 60.0;
        let y = x.sin();
        points.push(((x * 1000.0).round() as i64, (y * 1000.0).round() as i64));
    }
    assert_eq!(points.len(), 61);
    assert_eq!(points[0], (0, 0));

    let color = RGBAColorSpec { r: 0, g: 120, b: 200, alpha_millis: 1000 };
    let series = vec![Element::PathLine { points: points.clone(), color }];
    chart
        .draw_series_with_tooltips(&series, &color, "sine")
        .unwrap();

    let base = chart.drawing_area.base;
    let dim = chart.drawing_area.dim;
    let ops = chart.drawing_area.sink.operations();
    let mut found = false;
    for op in ops {
        if let BackendOp::BeginContext {
            ctx:
                ElementContext::DataLine {
                    x_interpolation: Interpolation::Discrete { points: xp },
                    y_interpolation: Interpolation::Discrete { points: yp },
                    ..
                },
        } = op
        {
            found = true;
            assert_eq!(xp.len(), 61);
            assert_eq!(yp.len(), 61);
            assert_eq!(xp[0].1, format_value(0));
            let last = xp[60].0;
            assert!(base.0 <= last && last <= base.0 + dim.0 as i32);
        }
    }
    assert!(found, "a data-line context must have been emitted");
    assert_eq!(chart.drawing_area.sink.open_depth(), 0);
}
