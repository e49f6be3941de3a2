use ratatui::buffer::{Buffer, Cell};
use ratatui::layout::Rect;
use ratatui::style::{Color, Style};

fn bold_red() -> Style {
    Style::new(Color::Indexed(1), Color::Reset, 1)
}

#[test]
fn with_lines_takes_its_extent_from_the_text() {
    let buf = Buffer::with_lines(vec!["abcd", "efgh", "ijkl"]);
    assert_eq!(buf.area(), Rect::new(0, 0, 4, 3));
}

#[test]
fn with_lines_puts_each_character_in_its_cell() {
    let lines = vec!["abcd", "efgh", "ijkl"];
    let buf = Buffer::with_lines(lines.clone());
    for (y, line) in lines.iter().enumerate() {
        for (x, symbol) in line.chars().enumerate() {
            assert_eq!(
                *buf.get(x as u16, y as u16),
                Cell::new(symbol, Style::default())
            );
        }
    }
    assert_eq!(buf.get(0, 0).symbol, 'a');
    assert_eq!(buf.get(3, 0).symbol, 'd');
    assert_eq!(buf.get(0, 2).symbol, 'i');
    assert_eq!(buf.get(2, 1).symbol, 'g');
}

#[test]
fn with_lines_counts_characters_not_bytes() {
    let buf = Buffer::with_lines(vec!["äöü", "→x←"]);
    assert_eq!(buf.area(), Rect::new(0, 0, 3, 2));
    assert_eq!(buf.get(1, 0).symbol, 'ö');
    assert_eq!(buf.get(0, 1).symbol, '→');
    assert_eq!(buf.get(2, 1).symbol, '←');
}

#[test]
fn with_lines_of_nothing_is_a_buffer_without_cells() {
    let buf = Buffer::with_lines(Vec::new());
    assert_eq!(buf.area(), Rect::new(0, 0, 0, 0));
    assert!(buf.area().is_empty());
    assert_eq!(buf, Buffer::empty(Rect::new(0, 0, 0, 0)));
}

#[test]
fn with_lines_of_empty_lines_has_height_but_no_width() {
    let buf = Buffer::with_lines(vec!["", ""]);
    assert_eq!(buf.area(), Rect::new(0, 0, 0, 2));
}

#[test]
fn buffers_from_the_same_lines_are_equal() {
    let a = Buffer::with_lines(vec!["one", "two"]);
    let b = Buffer::with_lines(vec!["one", "two"]);
    assert_eq!(a, b);
    assert!(a == b);
    assert!(!(a != b));
}

#[test]
fn buffers_that_differ_in_one_cell_are_not_equal() {
    let a = Buffer::with_lines(vec!["one", "two"]);
    for (x, y) in [(0u16, 0u16), (2, 0), (0, 1), (1, 1), (2, 1)] {
        let mut b = a.clone();
        b.get_mut(x, y).symbol = '!';
        assert_ne!(a, b);
        assert!(!(a == b));
    }
    assert_ne!(a, Buffer::with_lines(vec!["one", "twO"]));
}

#[test]
fn buffers_that_differ_in_one_style_are_not_equal() {
    let a = Buffer::with_lines(vec!["one", "two"]);
    let mut b = a.clone();
    b.get_mut(1, 1).style = bold_red();
    assert_ne!(a, b);
    b.get_mut(1, 1).style = Style::default();
    assert_eq!(a, b);
}

#[test]
fn buffers_with_different_extents_are_not_equal() {
    let blank = Cell::default();
    assert_ne!(
        Buffer::filled(Rect::new(0, 0, 2, 3), blank),
        Buffer::filled(Rect::new(0, 0, 3, 2), blank)
    );
    assert_ne!(
        Buffer::filled(Rect::new(0, 0, 2, 2), blank),
        Buffer::filled(Rect::new(1, 0, 2, 2), blank)
    );
    assert_ne!(
        Buffer::filled(Rect::new(0, 0, 0, 2), blank),
        Buffer::filled(Rect::new(0, 0, 0, 3), blank)
    );
    assert_ne!(Buffer::with_lines(vec!["ab"]), Buffer::with_lines(vec!["a", "b"]));
}

#[test]
fn filled_shows_the_cell_everywhere() {
    let area = Rect::new(10, 20, 3, 2);
    let cell = Cell::new('%', bold_red());
    let buf = Buffer::filled(area, cell);
    assert_eq!(buf.area(), area);
    for y in 20..22 {
        for x in 10..13 {
            assert_eq!(*buf.get(x, y), cell);
        }
    }
}

#[test]
fn empty_is_blank_everywhere() {
    let area = Rect::new(1, 1, 2, 2);
    let buf = Buffer::empty(area);
    assert_eq!(buf, Buffer::filled(area, Cell::new(' ', Style::default())));
    assert_eq!(*buf.get(2, 2), Cell::default());
    assert_eq!(Buffer::empty(Rect::new(0, 0, 2, 1)), Buffer::with_lines(vec!["  "]));
}

#[test]
fn get_mut_writes_one_cell_and_no_other() {
    let area = Rect::new(10, 20, 3, 2);
    let mut buf = Buffer::filled(area, Cell::new('.', Style::default()));
    *buf.get_mut(11, 21) = Cell::new('X', bold_red());
    for y in 20..22 {
        for x in 10..13 {
            if (x, y) == (11, 21) {
                assert_eq!(*buf.get(x, y), Cell::new('X', bold_red()));
            } else {
                assert_eq!(*buf.get(x, y), Cell::new('.', Style::default()));
            }
        }
    }
    assert_eq!(buf.area(), area);
}

#[test]
fn get_mut_hands_out_the_cell_that_is_there() {
    let mut buf = Buffer::with_lines(vec!["ab", "cd"]);
    assert_eq!(*buf.get_mut(1, 0), Cell::new('b', Style::default()));
    assert_eq!(*buf.get_mut(0, 1), Cell::new('c', Style::default()));
}

#[test]
fn every_coordinate_has_a_cell_of_its_own() {
    let area = Rect::new(5, 7, 4, 3);
    let mut buf = Buffer::empty(area);
    let symbols = ['a', 'b', 'c', 'd', 'e', 'f', 'g', 'h', 'i', 'j', 'k', 'l'];
    let mut n = 0;
    for y in area.top()..area.bottom() {
        for x in area.left()..area.right() {
            buf.get_mut(x, y).symbol = symbols[n];
            n += 1;
        }
    }
    let mut n = 0;
    for y in area.top()..area.bottom() {
        for x in area.left()..area.right() {
            assert_eq!(buf.get(x, y).symbol, symbols[n]);
            n += 1;
        }
    }
    assert_eq!(n, 12);
}

#[test]
fn reset_makes_a_cell_blank() {
    let mut cell = Cell::new('k', bold_red());
    cell.reset();
    assert_eq!(cell, Cell::default());
    assert_eq!(cell.symbol, ' ');
    assert_eq!(cell.style, Style::default());
    cell.reset();
    assert_eq!(cell, Cell::default());
}

#[test]
fn reset_through_the_buffer() {
    let mut buf = Buffer::filled(Rect::new(0, 0, 2, 1), Cell::new('k', bold_red()));
    buf.get_mut(1, 0).reset();
    assert_eq!(*buf.get(1, 0), Cell::default());
    assert_eq!(*buf.get(0, 0), Cell::new('k', bold_red()));
}

#[test]
fn the_default_cell_is_a_plain_space() {
    let cell = Cell::default();
    assert_eq!(cell.symbol, ' ');
    assert_eq!(cell.style.fg, Color::Reset);
    assert_eq!(cell.style.bg, Color::Reset);
    assert_eq!(cell.style.modifiers, 0);
    assert_eq!(Style::default(), Style::new(Color::Reset, Color::Reset, 0));
}

#[test]
fn a_clone_is_equal_and_independent() {
    let first = Buffer::with_lines(vec!["ab", "cd"]);
    let mut second = first.clone();
    assert_eq!(second, first);
    assert_eq!(second.area(), first.area());
    second.get_mut(0, 0).reset();
    assert_ne!(second, first);
    assert_eq!(first.get(0, 0).symbol, 'a');
}
