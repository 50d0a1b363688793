use pixel_canvas::{Buffer, CellRecorder, Color, Position, RenderError, Renderable};

fn checkerboard() -> Buffer {
    let mut b = Buffer::default().new_size_buffer(2, 2);
    b.set_color(Position { x: 0, y: 0 }, Color(0)).unwrap();
    b.set_color(Position { x: 1, y: 0 }, Color(1)).unwrap();
    b.set_color(Position { x: 0, y: 1 }, Color(1)).unwrap();
    b.set_color(Position { x: 1, y: 1 }, Color(0)).unwrap();
    b
}

#[test]
fn render_visits_every_cell_once_in_scan_order() {
    let b = checkerboard();
    let mut target = CellRecorder::new(2, 2);
    assert!(target.render(&b).is_ok());
    let writes = target.recorded();
    assert_eq!(writes.len(), 4);
    let expected = [
        (Position { x: 0, y: 0 }, Color(0)),
        (Position { x: 1, y: 0 }, Color(1)),
        (Position { x: 0, y: 1 }, Color(1)),
        (Position { x: 1, y: 1 }, Color(0)),
    ];
    for (got, want) in writes.iter().zip(expected.iter()) {
        assert_eq!(got, want);
    }
}

#[test]
fn render_scan_order_agrees_with_csv_order() {
    let b = checkerboard();
    let mut target = CellRecorder::new(2, 2);
    target.render(&b).unwrap();
    let csv = b
        .to_csv(&pixel_canvas::Colors(vec!["black".to_string(), "white".to_string()]))
        .unwrap();
    let csv_coords: Vec<(usize, usize)> = csv
        .lines()
        .map(|l| {
            let mut it = l.split(',');
            let x = it.next().unwrap().parse().unwrap();
            let y = it.next().unwrap().parse().unwrap();
            (x, y)
        })
        .collect();
    let painted: Vec<(usize, usize)> =
        target.recorded().iter().map(|w| (w.0.x, w.0.y)).collect();
    assert_eq!(painted, csv_coords);
}

#[test]
fn render_larger_target_reports_out_of_range() {
    let b = checkerboard();
    let mut target = CellRecorder::new(3, 2);
    match target.render(&b) {
        Err(RenderError::OutOfRange(e)) => assert_eq!((e.x, e.y), (2, 0)),
        other => panic!("expected an out-of-range render error, got {:?}", other),
    }
}

#[test]
fn render_smaller_target_paints_its_own_extent() {
    let b = checkerboard();
    let mut target = CellRecorder::new(1, 1);
    assert!(target.render(&b).is_ok());
    let writes = target.recorded();
    assert_eq!(writes.len(), 1);
    assert_eq!(writes[0], (Position { x: 0, y: 0 }, Color(0)));
}

#[test]
fn render_complete_paints_full_extent_on_recorder() {
    let b = checkerboard();
    let mut target = CellRecorder::new(2, 2);
    assert!(target.render_complete(&b).is_ok());
    assert_eq!(target.recorded().len(), 4);
    assert_eq!(target.recorded()[3], (Position { x: 1, y: 1 }, Color(0)));
}

#[test]
fn render_empty_target_paints_nothing() {
    let b = checkerboard();
    let mut target = CellRecorder::new(0, 0);
    assert!(target.render(&b).is_ok());
    assert!(target.recorded().is_empty());
}

#[test]
fn recorder_reports_its_size_and_scrolls() {
    let mut target = CellRecorder::new(5, 7);
    let s = target.size().unwrap();
    assert_eq!((s.x, s.y), (5, 7));
    assert!(target.scroll().is_ok());
    assert!(target.recorded().is_empty());
}

#[test]
fn default_brush_is_solid_block() {
    assert_eq!(pixel_canvas::Brush::default_brush().0, '\u{2588}');
}
