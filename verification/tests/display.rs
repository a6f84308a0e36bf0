use secrus8::display::{byte_to_bits, CLIDisplay, LIT_GLYPH, UNLIT_GLYPH};

fn lit_cells(display: &CLIDisplay) -> Vec<(usize, usize)> {
    let mut cells = Vec::new();
    for row in 0..32 {
        for col in 0..64 {
            if display.pixel(row, col) {
                cells.push((row, col));
            }
        }
    }
    cells
}

#[test]
fn new_display_is_blank() {
    assert_eq!(lit_cells(&CLIDisplay::new()), vec![]);
    assert_eq!(lit_cells(&CLIDisplay::default()), vec![]);
}

#[test]
fn byte_to_bits_is_most_significant_first() {
    assert_eq!(byte_to_bits(0b1010_0001), [1, 0, 1, 0, 0, 0, 0, 1]);
    assert_eq!(byte_to_bits(0x00), [0; 8]);
    assert_eq!(byte_to_bits(0xFF), [1; 8]);
    assert_eq!(byte_to_bits(0x80), [1, 0, 0, 0, 0, 0, 0, 0]);
    assert_eq!(byte_to_bits(0x01), [0, 0, 0, 0, 0, 0, 0, 1]);
}

#[test]
fn draw_sets_the_cells_under_set_bits() {
    let mut display = CLIDisplay::new();
    let collided = display.draw(3, 2, &[0b1100_0000, 0b0000_0001]);
    assert!(!collided);
    assert_eq!(lit_cells(&display), vec![(2, 3), (2, 4), (3, 10)]);
}

#[test]
fn draw_twice_clears_and_reports_collision() {
    let sprite = [0xF0u8, 0x90, 0x90, 0x90, 0xF0];
    let mut display = CLIDisplay::new();
    assert!(!display.draw(10, 5, &sprite));
    assert_eq!(lit_cells(&display).len(), 14);
    assert!(display.draw(10, 5, &sprite));
    assert_eq!(lit_cells(&display), vec![]);
}

#[test]
fn draw_twice_restores_any_plane() {
    let mut display = CLIDisplay::new();
    display.draw(0, 0, &[0xAA, 0x55, 0xAA]);
    let before = lit_cells(&display);
    let sprite = [0xFFu8, 0x0F, 0xF0];
    // The sprite lights some cells and erases others.
    assert!(display.draw(2, 1, &sprite));
    assert_ne!(lit_cells(&display), before);
    assert!(display.draw(2, 1, &sprite));
    assert_eq!(lit_cells(&display), before);
}

#[test]
fn second_draw_does_not_collide_when_the_first_only_erased() {
    let mut display = CLIDisplay::new();
    display.draw(0, 0, &[0xFF]);
    // The first draw of the same shape turns every covered cell off ...
    assert!(display.draw(0, 0, &[0xFF]));
    assert_eq!(lit_cells(&display), vec![]);
    // ... so a sprite that only met lit cells lights them again without
    // a collision.
    display.draw(0, 0, &[0x0F]);
    assert!(display.draw(0, 0, &[0x0F]));
    assert!(!display.draw(0, 0, &[0x0F]));
}

#[test]
fn partial_overlap_collides_and_toggles() {
    let mut display = CLIDisplay::new();
    display.draw(0, 0, &[0b1111_0000]);
    let collided = display.draw(2, 0, &[0b1111_0000]);
    assert!(collided);
    assert_eq!(lit_cells(&display), vec![(0, 0), (0, 1), (0, 4), (0, 5)]);
}

#[test]
fn sprite_is_clipped_at_the_right_edge() {
    let mut display = CLIDisplay::new();
    let collided = display.draw(60, 0, &[0xFF]);
    assert!(!collided);
    assert_eq!(lit_cells(&display), vec![(0, 60), (0, 61), (0, 62), (0, 63)]);
}

#[test]
fn sprite_is_clipped_at_the_bottom_edge() {
    let mut display = CLIDisplay::new();
    let collided = display.draw(0, 30, &[0x80, 0x80, 0x80, 0x80]);
    assert!(!collided);
    assert_eq!(lit_cells(&display), vec![(30, 0), (31, 0)]);
}

#[test]
fn sprite_is_clipped_in_the_corner() {
    let mut display = CLIDisplay::new();
    display.draw(63, 31, &[0xFF, 0xFF]);
    assert_eq!(lit_cells(&display), vec![(31, 63)]);
}

#[test]
fn clipped_part_does_not_collide() {
    let mut display = CLIDisplay::new();
    // Only the last bit of the only visible row would be inside the plane,
    // and it is clear: nothing is drawn, so nothing can collide later.
    assert!(!display.draw(63, 31, &[0x7F, 0xFF]));
    assert_eq!(lit_cells(&display), vec![]);
    assert!(!display.draw(63, 31, &[0x7F, 0xFF]));
    assert_eq!(lit_cells(&display), vec![]);
}

#[test]
fn origin_beyond_the_plane_draws_nothing() {
    let mut display = CLIDisplay::new();
    assert!(!display.draw(70, 40, &[0xFF]));
    assert_eq!(lit_cells(&display), vec![]);
    assert!(!display.draw(64, 0, &[0x80]));
    assert_eq!(lit_cells(&display), vec![]);
    assert!(!display.draw(0, 32, &[0x80]));
    assert_eq!(lit_cells(&display), vec![]);
    assert!(!display.draw(64 + 5, 32 + 7, &[0xC0]));
    assert_eq!(lit_cells(&display), vec![]);
    assert!(!display.draw(255, 255, &[0xFF, 0xFF]));
    assert_eq!(lit_cells(&display), vec![]);
}

#[test]
fn origin_beyond_the_plane_leaves_a_drawn_plane_alone() {
    let mut display = CLIDisplay::new();
    display.draw(0, 0, &[0xFF, 0xFF]);
    display.draw(6, 8, &[0xFF]);
    let before = lit_cells(&display);
    // Neither origin is brought back inside: the cells at (0, 0) and at
    // (8, 6) are lit and would collide.
    assert!(!display.draw(64, 32, &[0xFF]));
    assert!(!display.draw(70, 40, &[0xFF]));
    assert!(!display.draw(70, 8, &[0xFF]));
    assert!(!display.draw(6, 40, &[0xFF]));
    assert_eq!(lit_cells(&display), before);
}

#[test]
fn last_row_and_column_are_inside_the_plane() {
    let mut display = CLIDisplay::new();
    assert!(!display.draw(63, 0, &[0x80]));
    assert!(!display.draw(0, 31, &[0x80]));
    assert_eq!(lit_cells(&display), vec![(0, 63), (31, 0)]);
    assert!(display.draw(63, 0, &[0x80]));
    assert!(display.draw(0, 31, &[0x80]));
    assert_eq!(lit_cells(&display), vec![]);
}

#[test]
fn long_sprite_is_cut_off() {
    let mut display = CLIDisplay::new();
    let sprite = vec![0x80u8; 100];
    assert!(!display.draw(0, 0, &sprite));
    assert_eq!(lit_cells(&display).len(), 32);
}

#[test]
fn empty_sprite_changes_nothing() {
    let mut display = CLIDisplay::new();
    display.draw(1, 1, &[0xFF]);
    let before = lit_cells(&display);
    assert!(!display.draw(1, 1, &[]));
    assert_eq!(lit_cells(&display), before);
}

#[test]
fn clear_turns_everything_off() {
    let mut display = CLIDisplay::new();
    display.draw(0, 0, &[0xFF, 0xFF, 0xFF]);
    display.clear();
    assert_eq!(lit_cells(&display), vec![]);
}

#[test]
fn render_of_blank_plane() {
    let text = CLIDisplay::new().render();
    let line: String = std::iter::repeat(UNLIT_GLYPH).take(64).collect();
    let lines: Vec<&str> = text.lines().collect();
    assert_eq!(lines.len(), 32);
    for l in lines {
        assert_eq!(l, line);
    }
    assert_eq!(text.chars().count(), 32 * 65);
    assert!(text.ends_with('\n'));
}

#[test]
fn render_shows_lit_pixels() {
    let mut display = CLIDisplay::new();
    display.draw(1, 2, &[0b1010_0000]);
    let text = display.render();
    let lines: Vec<Vec<char>> = text.lines().map(|l| l.chars().collect()).collect();
    for (row, line) in lines.iter().enumerate() {
        assert_eq!(line.len(), 64);
        for (col, glyph) in line.iter().enumerate() {
            let lit = row == 2 && (col == 1 || col == 3);
            assert_eq!(*glyph, if lit { LIT_GLYPH } else { UNLIT_GLYPH });
        }
    }
    assert_eq!(LIT_GLYPH, '\u{2588}');
    assert_eq!(UNLIT_GLYPH, '\u{2591}');
}
