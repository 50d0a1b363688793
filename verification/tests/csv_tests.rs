use pixel_canvas::{Buffer, Color, Colors, Position, SerializationError};

fn palette(names: &[&str]) -> Colors {
    Colors(names.iter().map(|n| n.to_string()).collect())
}

#[test]
fn csv_two_by_two_in_scan_order() {
    let mut b = Buffer::default().new_size_buffer(2, 2);
    b.set_color(Position { x: 0, y: 0 }, Color(0)).unwrap();
    b.set_color(Position { x: 1, y: 0 }, Color(1)).unwrap();
    b.set_color(Position { x: 0, y: 1 }, Color(1)).unwrap();
    b.set_color(Position { x: 1, y: 1 }, Color(0)).unwrap();
    let out = b.to_csv(&palette(&["black", "white"])).unwrap();
    assert_eq!(out, "0,0,black\n1,0,white\n0,1,white\n1,1,black\n");
}

#[test]
fn csv_empty_buffer_is_empty_text() {
    let b = Buffer::default();
    let out = b.to_csv(&palette(&["black"])).unwrap();
    assert_eq!(out, "");
}

#[test]
fn csv_missing_palette_entry_fails() {
    let mut b = Buffer::default().new_size_buffer(2, 1);
    b.set_color(Position { x: 1, y: 0 }, Color(3)).unwrap();
    let e = b.to_csv(&palette(&["black"])).unwrap_err();
    assert_eq!(e, SerializationError::MissingPaletteEntry { x: 1, y: 0, color: 3 });
}

#[test]
fn csv_reports_first_missing_cell_in_scan_order() {
    let mut b = Buffer::default().new_size_buffer(2, 2);
    b.set_color(Position { x: 1, y: 1 }, Color(2)).unwrap();
    b.set_color(Position { x: 0, y: 1 }, Color(4)).unwrap();
    let e = b.to_csv(&palette(&["black", "white"])).unwrap_err();
    assert_eq!(e, SerializationError::MissingPaletteEntry { x: 0, y: 1, color: 4 });
}

#[test]
fn csv_quotes_name_with_comma() {
    let mut b = Buffer::default().new_size_buffer(1, 1);
    b.set_color(Position { x: 0, y: 0 }, Color(0)).unwrap();
    let out = b.to_csv(&palette(&["dark, moody"])).unwrap();
    assert_eq!(out, "0,0,\"dark, moody\"\n");
}

#[test]
fn csv_doubles_quote_in_name() {
    let mut b = Buffer::default().new_size_buffer(1, 1);
    b.set_color(Position { x: 0, y: 0 }, Color(0)).unwrap();
    let out = b.to_csv(&palette(&["so \"deep\" blue"])).unwrap();
    assert_eq!(out, "0,0,\"so \"\"deep\"\" blue\"\n");
}

#[test]
fn csv_coordinates_are_decimal() {
    let mut b = Buffer::default().new_size_buffer(11, 12);
    for y in 0..12 {
        for x in 0..11 {
            b.set_color(Position { x, y }, Color(0)).unwrap();
        }
    }
    let out = b.to_csv(&palette(&["c"])).unwrap();
    let lines: Vec<&str> = out.lines().collect();
    assert_eq!(lines.len(), 11 * 12);
    assert_eq!(lines[0], "0,0,c");
    assert_eq!(lines[10], "10,0,c");
    assert_eq!(lines[11], "0,1,c");
    assert_eq!(lines[11 * 12 - 1], "10,11,c");
}

#[test]
fn csv_export_is_deterministic() {
    let mut b = Buffer::default().new_size_buffer(2, 2);
    b.set_color(Position { x: 1, y: 0 }, Color(1)).unwrap();
    let pal = palette(&["black", "white"]);
    let first = b.to_csv(&pal).unwrap();
    let second = b.to_csv(&pal).unwrap();
    assert_eq!(first, second);
}

#[test]
fn decimal_text_of_sizes() {
    assert_eq!(pixel_canvas::usize_to_string(0), "0");
    assert_eq!(pixel_canvas::usize_to_string(7), "7");
    assert_eq!(pixel_canvas::usize_to_string(10), "10");
    assert_eq!(pixel_canvas::usize_to_string(90210), "90210");
}
