use pixel_canvas::{Buffer, Color, Position};

fn filled(width: usize, height: usize, cells: &[(usize, usize, u8)]) -> Buffer {
    let mut b = Buffer::default().new_size_buffer(width, height);
    for &(x, y, c) in cells {
        b.set_color(Position { x, y }, Color(c)).unwrap();
    }
    b
}

#[test]
fn set_then_get_returns_written_color() {
    let mut b = Buffer::default().new_size_buffer(3, 2);
    for y in 0..2 {
        for x in 0..3 {
            let c = Color((10 * y + x) as u8);
            assert!(b.set_color(Position { x, y }, c).is_ok());
            assert_eq!(b.get_color(Position { x, y }).unwrap(), c);
        }
    }
}

#[test]
fn get_color_out_of_range() {
    let b = Buffer::default().new_size_buffer(3, 2);
    let e = b.get_color(Position { x: 3, y: 0 }).unwrap_err();
    assert_eq!((e.x, e.y), (3, 0));
    let e = b.get_color(Position { x: 0, y: 2 }).unwrap_err();
    assert_eq!((e.x, e.y), (0, 2));
    let e = b.get_color(Position { x: 7, y: 9 }).unwrap_err();
    assert_eq!((e.x, e.y), (7, 9));
}

#[test]
fn set_color_out_of_range_changes_nothing() {
    let mut b = filled(2, 2, &[(0, 0, 1), (1, 0, 2), (0, 1, 3), (1, 1, 4)]);
    let e = b.set_color(Position { x: 2, y: 1 }, Color(9)).unwrap_err();
    assert_eq!((e.x, e.y), (2, 1));
    let e = b.set_color(Position { x: 1, y: 2 }, Color(9)).unwrap_err();
    assert_eq!((e.x, e.y), (1, 2));
    assert_eq!(b.get_color(Position { x: 0, y: 0 }).unwrap(), Color(1));
    assert_eq!(b.get_color(Position { x: 1, y: 0 }).unwrap(), Color(2));
    assert_eq!(b.get_color(Position { x: 0, y: 1 }).unwrap(), Color(3));
    assert_eq!(b.get_color(Position { x: 1, y: 1 }).unwrap(), Color(4));
}

#[test]
fn default_buffer_is_empty() {
    let b = Buffer::default();
    let ext = b.extent();
    assert_eq!((ext.x, ext.y), (0, 0));
    assert!(b.get_color(Position { x: 0, y: 0 }).is_err());
}

#[test]
fn widen_pads_rows_with_background() {
    let b = filled(2, 2, &[(0, 0, 1), (1, 0, 2), (0, 1, 3), (1, 1, 4)]);
    let w = b.new_width_buffer(4);
    let ext = w.extent();
    assert_eq!((ext.x, ext.y), (4, 2));
    assert_eq!(w.get_color(Position { x: 0, y: 0 }).unwrap(), Color(1));
    assert_eq!(w.get_color(Position { x: 1, y: 0 }).unwrap(), Color(2));
    assert_eq!(w.get_color(Position { x: 2, y: 0 }).unwrap(), Color(Color::BG_COLOR));
    assert_eq!(w.get_color(Position { x: 3, y: 0 }).unwrap(), Color(Color::BG_COLOR));
    assert_eq!(w.get_color(Position { x: 0, y: 1 }).unwrap(), Color(3));
    assert_eq!(w.get_color(Position { x: 1, y: 1 }).unwrap(), Color(4));
    assert_eq!(w.get_color(Position { x: 2, y: 1 }).unwrap(), Color(Color::BG_COLOR));
}

#[test]
fn narrow_truncates_columns() {
    let b = filled(3, 2, &[(0, 0, 1), (1, 0, 2), (2, 0, 3), (0, 1, 4), (1, 1, 5), (2, 1, 6)]);
    let n = b.new_width_buffer(2);
    let ext = n.extent();
    assert_eq!((ext.x, ext.y), (2, 2));
    assert_eq!(n.get_color(Position { x: 0, y: 0 }).unwrap(), Color(1));
    assert_eq!(n.get_color(Position { x: 1, y: 0 }).unwrap(), Color(2));
    assert_eq!(n.get_color(Position { x: 0, y: 1 }).unwrap(), Color(4));
    assert_eq!(n.get_color(Position { x: 1, y: 1 }).unwrap(), Color(5));
    assert!(n.get_color(Position { x: 2, y: 0 }).is_err());
}

#[test]
fn widen_then_narrow_restores_content() {
    let cells = [(0, 0, 1), (1, 0, 2), (0, 1, 3), (1, 1, 4)];
    let b = filled(2, 2, &cells);
    let round = b.new_width_buffer(5).new_width_buffer(2);
    let ext = round.extent();
    assert_eq!((ext.x, ext.y), (2, 2));
    for &(x, y, c) in &cells {
        assert_eq!(round.get_color(Position { x, y }).unwrap(), Color(c));
    }
}

#[test]
fn grow_height_appends_background_rows() {
    let cells = [(0, 0, 1), (1, 0, 2), (0, 1, 3), (1, 1, 4)];
    let b = filled(2, 2, &cells);
    let g = b.new_height_buffer(4);
    let ext = g.extent();
    assert_eq!((ext.x, ext.y), (2, 4));
    for &(x, y, c) in &cells {
        assert_eq!(g.get_color(Position { x, y }).unwrap(), Color(c));
    }
    for y in 2..4 {
        for x in 0..2 {
            assert_eq!(g.get_color(Position { x, y }).unwrap(), Color(Color::BG_COLOR));
        }
    }
}

#[test]
fn shrink_height_truncates_rows() {
    let b = filled(2, 3, &[(0, 0, 1), (1, 0, 2), (0, 1, 3), (1, 1, 4), (0, 2, 5), (1, 2, 6)]);
    let s = b.new_height_buffer(1);
    let ext = s.extent();
    assert_eq!((ext.x, ext.y), (2, 1));
    assert_eq!(s.get_color(Position { x: 0, y: 0 }).unwrap(), Color(1));
    assert_eq!(s.get_color(Position { x: 1, y: 0 }).unwrap(), Color(2));
    assert!(s.get_color(Position { x: 0, y: 1 }).is_err());
}

#[test]
fn resize_pads_new_rows_to_new_width() {
    let b = filled(1, 1, &[(0, 0, 9)]);
    let r = b.new_size_buffer(3, 2);
    let ext = r.extent();
    assert_eq!((ext.x, ext.y), (3, 2));
    assert_eq!(r.get_color(Position { x: 0, y: 0 }).unwrap(), Color(9));
    for x in 1..3 {
        assert_eq!(r.get_color(Position { x, y: 0 }).unwrap(), Color(Color::BG_COLOR));
    }
    for x in 0..3 {
        assert_eq!(r.get_color(Position { x, y: 1 }).unwrap(), Color(Color::BG_COLOR));
    }
}

#[test]
fn value_conversions() {
    assert_eq!(Color::from(7u8), Color(7));
    assert_eq!(u8::from(Color(9)), 9);
    assert_eq!(Color::default(), Color(Color::BG_COLOR));
    assert_eq!(Position::from((3usize, 4usize)), Position { x: 3, y: 4 });
    let p = Position::default();
    assert_eq!((p.x, p.y), (0, 0));
}

#[test]
fn get_index_is_row_major() {
    let b = Buffer::default().new_size_buffer(4, 3);
    assert_eq!(b.get_index(Position { x: 0, y: 0 }), 0);
    assert_eq!(b.get_index(Position { x: 3, y: 0 }), 3);
    assert_eq!(b.get_index(Position { x: 0, y: 2 }), 8);
    assert_eq!(b.get_index(Position { x: 2, y: 1 }), 6);
}
