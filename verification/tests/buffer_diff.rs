//! The cell grid and its change detection.

use rust_pixel::buffer::{Buffer, Cell, DiffRecord};
use rust_pixel::style::{Color, Style, MOD_BOLD};

fn cell(sym: char, fg: Color) -> Cell {
    Cell { symbol: sym, fg, bg: Color::Reset, modifier: 0 }
}

#[test]
fn diff_of_identical_buffers_is_empty() {
    let mut a = Buffer::new(8, 4);
    a.set(3, 2, cell('x', Color::Red));
    let d = a.diff(&a);
    assert_eq!(d.len(), 0);
}

#[test]
fn diff_reports_exactly_the_changed_cells_in_row_major_order() {
    let a = Buffer::new(5, 3);
    let mut b = Buffer::new(5, 3);
    b.set(4, 0, cell('q', Color::Green));
    b.set(1, 1, cell('w', Color::Blue));
    b.set(0, 1, cell('e', Color::Red));
    let d = a.diff(&b);
    assert_eq!(d.len(), 3);
    assert_eq!((d[0].x, d[0].y, d[0].cell.symbol), (4, 0, 'q'));
    assert_eq!((d[1].x, d[1].y, d[1].cell.symbol), (0, 1, 'e'));
    assert_eq!((d[2].x, d[2].y, d[2].cell.symbol), (1, 1, 'w'));
    for k in 1..d.len() {
        let prev = (d[k - 1].y as u32) * 5 + d[k - 1].x as u32;
        let cur = (d[k].y as u32) * 5 + d[k].x as u32;
        assert!(prev < cur);
    }
}

#[test]
fn diff_carries_the_current_cell_not_the_previous_one() {
    let mut a = Buffer::new(2, 2);
    a.set(0, 0, cell('o', Color::Red));
    let mut b = Buffer::new(2, 2);
    b.set(0, 0, cell('n', Color::Cyan));
    let d = a.diff(&b);
    assert_eq!(d.len(), 1);
    assert_eq!(d[0].cell, cell('n', Color::Cyan));
}

#[test]
fn sentinel_seeded_previous_differs_everywhere() {
    let prev = Buffer::new_sentinel(6, 3);
    let cur = Buffer::new(6, 3);
    let d = prev.diff(&cur);
    assert_eq!(d.len(), 18);
    let mut expected: Vec<(u16, u16)> = Vec::new();
    for y in 0..3u16 {
        for x in 0..6u16 {
            expected.push((x, y));
        }
    }
    let got: Vec<(u16, u16)> = d.iter().map(|r: &DiffRecord| (r.x, r.y)).collect();
    assert_eq!(got, expected);
}

#[test]
fn set_str_writes_one_cell_per_char_and_patches_style() {
    let mut b = Buffer::new(10, 2);
    b.set_str(2, 1, "hey", Style::default().fg(Color::Yellow));
    assert_eq!(b.get(2, 1).symbol, 'h');
    assert_eq!(b.get(3, 1).symbol, 'e');
    assert_eq!(b.get(4, 1).symbol, 'y');
    assert_eq!(b.get(2, 1).fg, Color::Yellow);
    // bg kept from the old cell (patch semantics)
    assert_eq!(b.get(2, 1).bg, Color::Reset);
    // untouched neighbors
    assert_eq!(b.get(1, 1).symbol, ' ');
    assert_eq!(b.get(5, 1).symbol, ' ');
    assert_eq!(b.get(2, 0).symbol, ' ');
}

#[test]
fn set_str_clips_at_the_right_edge() {
    let mut b = Buffer::new(4, 1);
    b.set_str(2, 0, "abcd", Style::default());
    assert_eq!(b.get(2, 0).symbol, 'a');
    assert_eq!(b.get(3, 0).symbol, 'b');
    // nothing panicked, nothing wrapped to the next row
    assert_eq!(b.get(0, 0).symbol, ' ');
    assert_eq!(b.get(1, 0).symbol, ' ');
}

#[test]
fn set_str_with_modifier_patch() {
    let mut b = Buffer::new(3, 1);
    b.set_str(0, 0, "z", Style::default().modifier(MOD_BOLD));
    assert_eq!(b.get(0, 0).modifier, MOD_BOLD);
}

#[test]
fn copy_from_duplicates_contents() {
    let mut a = Buffer::new(3, 2);
    a.set(2, 1, cell('k', Color::Blue));
    let mut b = Buffer::new(1, 1);
    b.copy_from(&a);
    assert_eq!(b.width, 3);
    assert_eq!(b.height, 2);
    assert_eq!(b.get(2, 1), cell('k', Color::Blue));
    assert_eq!(a.diff(&b).len(), 0);
}
