use canvas_tex::{Color, PixelBuffer, Position, Size};

fn shade(n: u8) -> Color {
    Color { r: n, g: n.wrapping_mul(3), b: n.wrapping_add(7), a: 255 }
}

fn numbered(width: usize, height: usize) -> PixelBuffer {
    let mut buffer = PixelBuffer::new(Size { width, height }, Color::white());
    for y in 0..height {
        for x in 0..width {
            buffer.set(Position { x, y }, shade((x + y * width) as u8));
        }
    }
    buffer
}

#[test]
fn white_is_opaque_white() {
    assert_eq!(Color::white(), Color { r: 255, g: 255, b: 255, a: 255 });
    assert_eq!(Color::new(1, 2, 3, 4), Color { r: 1, g: 2, b: 3, a: 4 });
}

#[test]
fn new_buffer_is_filled() {
    let fill = Color { r: 9, g: 8, b: 7, a: 6 };
    let buffer = PixelBuffer::new(Size { width: 3, height: 2 }, fill);
    assert_eq!(buffer.size(), Size { width: 3, height: 2 });
    assert_eq!(buffer.len(), 6);
    assert_eq!(buffer.flattened(), vec![fill; 6]);
    for y in 0..2 {
        for x in 0..3 {
            assert_eq!(buffer.get(Position { x, y }), Some(fill));
        }
    }
}

#[test]
fn get_outside_is_none() {
    let buffer = PixelBuffer::new(Size { width: 3, height: 2 }, Color::white());
    assert_eq!(buffer.get(Position { x: 3, y: 0 }), None);
    assert_eq!(buffer.get(Position { x: 0, y: 2 }), None);
    assert_eq!(buffer.get(Position { x: 3, y: 2 }), None);
    assert_eq!(buffer.get(Position { x: usize::MAX, y: usize::MAX }), None);
    assert_eq!(buffer.get(Position { x: 2, y: 1 }), Some(Color::white()));
}

#[test]
fn empty_buffer_has_no_cells() {
    let buffer = PixelBuffer::new(Size { width: 0, height: 5 }, Color::white());
    assert_eq!(buffer.len(), 0);
    assert_eq!(buffer.get(Position { x: 0, y: 0 }), None);
    assert_eq!(buffer.flattened(), Vec::<Color>::new());
    let other = PixelBuffer::new(Size { width: 4, height: 0 }, Color::white());
    assert_eq!(other.len(), 0);
    assert_eq!(other.get(Position { x: 0, y: 0 }), None);
}

#[test]
fn set_then_get_gives_the_colour() {
    let mut buffer = PixelBuffer::new(Size { width: 4, height: 3 }, Color::white());
    let red = Color { r: 200, g: 0, b: 0, a: 255 };
    buffer.set(Position { x: 1, y: 2 }, red);
    assert_eq!(buffer.get(Position { x: 1, y: 2 }), Some(red));
    assert_eq!(buffer.at(Position { x: 1, y: 2 }), red);
    for y in 0..3 {
        for x in 0..4 {
            if (x, y) != (1, 2) {
                assert_eq!(buffer.get(Position { x, y }), Some(Color::white()));
            }
        }
    }
    assert_eq!(buffer.size(), Size { width: 4, height: 3 });
}

#[test]
fn flattened_goes_row_by_row() {
    let mut buffer = PixelBuffer::new(Size { width: 3, height: 2 }, Color::white());
    buffer.set(Position { x: 2, y: 0 }, shade(1));
    buffer.set(Position { x: 0, y: 1 }, shade(2));
    let w = Color::white();
    assert_eq!(buffer.flattened(), vec![w, w, shade(1), shade(2), w, w]);
}

#[test]
fn resize_shrinks_and_keeps_the_overlap() {
    let old = numbered(10, 10);
    let new = old.resize(Size { width: 5, height: 5 });
    assert_eq!(new.size(), Size { width: 5, height: 5 });
    assert_eq!(new.get(Position { x: 2, y: 2 }), old.get(Position { x: 2, y: 2 }));
    assert_eq!(new.get(Position { x: 2, y: 2 }), Some(shade(22)));
    assert_eq!(new.get(Position { x: 4, y: 4 }), Some(shade(44)));
    assert_eq!(new.get(Position { x: 5, y: 5 }), None);
    for y in 0..5 {
        for x in 0..5 {
            assert_eq!(new.get(Position { x, y }), old.get(Position { x, y }));
        }
    }
    assert_eq!(old.len(), 100);
}

#[test]
fn resize_grows_with_white() {
    let old = numbered(2, 2);
    let new = old.resize(Size { width: 4, height: 3 });
    let w = Color::white();
    assert_eq!(
        new.flattened(),
        vec![shade(0), shade(1), w, w, shade(2), shade(3), w, w, w, w, w, w]
    );
}

#[test]
fn resize_narrower_and_taller_copies_and_fills() {
    let old = numbered(5, 3);
    let new = old.resize(Size { width: 3, height: 5 });
    for y in 0..5 {
        for x in 0..3 {
            let expected = if y < 3 { shade((x + y * 5) as u8) } else { Color::white() };
            assert_eq!(new.get(Position { x, y }), Some(expected));
        }
    }
    assert_eq!(new.get(Position { x: 3, y: 0 }), None);
}

#[test]
fn resize_to_nothing_and_back() {
    let old = numbered(3, 3);
    let none = old.resize(Size { width: 0, height: 0 });
    assert_eq!(none.len(), 0);
    let back = none.resize(Size { width: 2, height: 2 });
    assert_eq!(back.flattened(), vec![Color::white(); 4]);
}

#[test]
fn resize_to_the_same_size_copies_everything() {
    let old = numbered(4, 3);
    let new = old.resize(Size { width: 4, height: 3 });
    assert_eq!(new.flattened(), old.flattened());
}

#[test]
fn area_flat_reads_a_window_row_by_row() {
    let buffer = numbered(4, 3);
    let window = buffer.area_flat(Position { x: 1, y: 1 }, Size { width: 2, height: 2 });
    assert_eq!(window, Some(vec![shade(5), shade(6), shade(9), shade(10)]));
    let row = buffer.area_flat(Position { x: 0, y: 2 }, Size { width: 4, height: 1 });
    assert_eq!(row, Some(vec![shade(8), shade(9), shade(10), shade(11)]));
    let column = buffer.area_flat(Position { x: 3, y: 0 }, Size { width: 1, height: 3 });
    assert_eq!(column, Some(vec![shade(3), shade(7), shade(11)]));
}

#[test]
fn area_flat_of_the_whole_buffer_is_flattened() {
    let buffer = numbered(4, 3);
    let all = buffer.area_flat(Position { x: 0, y: 0 }, Size { width: 4, height: 3 });
    assert_eq!(all, Some(buffer.flattened()));
}

#[test]
fn area_flat_outside_is_none() {
    let buffer = numbered(4, 3);
    assert_eq!(buffer.area_flat(Position { x: 3, y: 0 }, Size { width: 2, height: 1 }), None);
    assert_eq!(buffer.area_flat(Position { x: 0, y: 2 }, Size { width: 1, height: 2 }), None);
    assert_eq!(buffer.area_flat(Position { x: 5, y: 0 }, Size { width: 0, height: 0 }), None);
    assert_eq!(
        buffer.area_flat(Position { x: usize::MAX, y: 0 }, Size { width: 2, height: 1 }),
        None
    );
}

#[test]
fn area_flat_of_an_empty_window_is_empty() {
    let buffer = numbered(4, 3);
    assert_eq!(
        buffer.area_flat(Position { x: 4, y: 3 }, Size { width: 0, height: 0 }),
        Some(vec![])
    );
    assert_eq!(
        buffer.area_flat(Position { x: 1, y: 1 }, Size { width: 0, height: 2 }),
        Some(vec![])
    );
}
