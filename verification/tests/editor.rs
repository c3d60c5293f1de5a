use neovide::color::{unpack_color, Color};
use neovide::editor::{Colors, CursorShape, Editor, GridError, GridLineCell, Style};

fn cell(text: &str, row: u64, col: u64, style: Option<u64>) -> GridLineCell {
    GridLineCell::new(0, text.to_string(), row, col, style)
}

#[test]
fn new_editor_is_blank() {
    let editor = Editor::new(4, 3);
    assert_eq!(editor.width(), 4);
    assert_eq!(editor.height(), 3);
    assert_eq!(editor.cursor_position(), (0, 0));
    assert_eq!(editor.default_colors(), Colors::new(None, None, None));
    assert_eq!(editor.style(0), None);
    for row in 0..3 {
        for col in 0..4 {
            assert_eq!(editor.cell_at(col, row), None);
        }
    }
}

#[test]
fn draw_writes_one_character_per_column() {
    let mut editor = Editor::new(5, 2);
    assert_eq!(editor.draw(&cell("abc", 1, 1, Some(7))), Ok(()));
    assert_eq!(editor.cell_at(0, 1), None);
    assert_eq!(editor.cell_at(1, 1), Some(('a', Some(7))));
    assert_eq!(editor.cell_at(2, 1), Some(('b', Some(7))));
    assert_eq!(editor.cell_at(3, 1), Some(('c', Some(7))));
    assert_eq!(editor.cell_at(4, 1), None);
    assert_eq!(editor.cell_at(1, 0), None);
}

#[test]
fn draw_overwrites_what_was_there() {
    let mut editor = Editor::new(4, 1);
    assert_eq!(editor.draw(&cell("abcd", 0, 0, Some(1))), Ok(()));
    assert_eq!(editor.draw(&cell("xy", 0, 1, None)), Ok(()));
    assert_eq!(editor.cell_at(0, 0), Some(('a', Some(1))));
    assert_eq!(editor.cell_at(1, 0), Some(('x', None)));
    assert_eq!(editor.cell_at(2, 0), Some(('y', None)));
    assert_eq!(editor.cell_at(3, 0), Some(('d', Some(1))));
}

#[test]
fn draw_counts_characters_not_bytes() {
    let mut editor = Editor::new(3, 1);
    assert_eq!(editor.draw(&cell("é中x", 0, 0, None)), Ok(()));
    assert_eq!(editor.cell_at(0, 0), Some(('é', None)));
    assert_eq!(editor.cell_at(1, 0), Some(('中', None)));
    assert_eq!(editor.cell_at(2, 0), Some(('x', None)));
}

#[test]
fn draw_refuses_a_row_outside_the_grid() {
    let mut editor = Editor::new(3, 2);
    assert_eq!(editor.draw(&cell("a", 2, 0, None)), Err(GridError::OutOfRange));
    assert_eq!(editor.cell_at(0, 1), None);
}

#[test]
fn draw_refuses_a_run_past_the_last_column() {
    let mut editor = Editor::new(3, 2);
    assert_eq!(editor.draw(&cell("abcd", 0, 0, None)), Err(GridError::OutOfRange));
    assert_eq!(editor.draw(&cell("ab", 0, 2, None)), Err(GridError::OutOfRange));
    assert_eq!(editor.draw(&cell("a", 0, 4, None)), Err(GridError::OutOfRange));
    for col in 0..3 {
        assert_eq!(editor.cell_at(col, 0), None);
    }
    assert_eq!(editor.draw(&cell("abc", 0, 0, None)), Ok(()));
    assert_eq!(editor.draw(&cell("", 0, 3, None)), Ok(()));
}

#[test]
fn cell_at_outside_the_grid_is_nothing() {
    let mut editor = Editor::new(2, 2);
    assert_eq!(editor.draw(&cell("ab", 0, 0, None)), Ok(()));
    assert_eq!(editor.cell_at(2, 0), None);
    assert_eq!(editor.cell_at(0, 2), None);
    assert_eq!(editor.cell_at(u64::MAX, u64::MAX), None);
}

#[test]
fn character_at_shows_a_space_for_a_blank() {
    let mut editor = Editor::new(2, 1);
    assert_eq!(editor.draw(&cell("q", 0, 1, None)), Ok(()));
    assert_eq!(editor.character_at(0, 0), ' ');
    assert_eq!(editor.character_at(1, 0), 'q');
    assert_eq!(editor.character_at(9, 9), ' ');
}

#[test]
fn clear_blanks_every_cell_and_keeps_the_rest() {
    let mut editor = Editor::new(3, 2);
    editor.define_style(4, Style::new(Colors::new(Some(unpack_color(1)), None, None)));
    editor.jump_cursor_to(2, 1);
    assert_eq!(editor.draw(&cell("abc", 1, 0, Some(4))), Ok(()));
    editor.clear();
    for row in 0..2 {
        for col in 0..3 {
            assert_eq!(editor.cell_at(col, row), None);
        }
    }
    assert_eq!(editor.width(), 3);
    assert_eq!(editor.height(), 2);
    assert_eq!(editor.cursor_position(), (2, 1));
    assert!(editor.style(4).is_some());
}

#[test]
fn jump_cursor_overwrites_the_position() {
    let mut editor = Editor::new(3, 2);
    editor.jump_cursor_to(2, 1);
    assert_eq!(editor.cursor_position(), (2, 1));
    editor.jump_cursor_to(0, 0);
    assert_eq!(editor.cursor_position(), (0, 0));
}

#[test]
fn define_style_overwrites_by_id() {
    let mut editor = Editor::new(1, 1);
    let red = Style::new(Colors::new(Some(unpack_color(0xFF0000)), None, None));
    let blue_bg = Style::new(Colors::new(None, Some(unpack_color(0x0000FF)), None));
    editor.define_style(3, red);
    assert_eq!(editor.style(3), Some(red));
    editor.define_style(3, blue_bg);
    assert_eq!(editor.style(3), Some(blue_bg));
    assert_eq!(editor.style(2), None);
}

#[test]
fn colors_fall_back_per_channel() {
    let white = Color { r: 255, g: 255, b: 255, a: 255 };
    let black = Color { r: 0, g: 0, b: 0, a: 255 };
    let red = Color { r: 255, g: 0, b: 0, a: 255 };
    let defaults = Colors::new(Some(white), Some(black), None);
    let own = Colors::new(Some(red), None, None);
    assert_eq!(own.or(&defaults), Colors::new(Some(red), Some(black), None));
}

#[test]
fn resolved_colors_use_defaults_for_unknown_ids() {
    let white = unpack_color(0xFFFFFF);
    let black = unpack_color(0);
    let red = unpack_color(0xFF0000);
    let mut editor = Editor::new(1, 1);
    editor.set_default_colors(white, black, black);
    editor.define_style(1, Style::new(Colors::new(Some(red), None, None)));
    let defaults = Colors::new(Some(white), Some(black), Some(black));
    assert_eq!(editor.resolved_colors(None), defaults);
    assert_eq!(editor.resolved_colors(Some(99)), defaults);
    assert_eq!(editor.resolved_colors(Some(1)), Colors::new(Some(red), Some(black), Some(black)));
}

#[test]
fn only_a_block_cursor_repaints_its_character() {
    let mut editor = Editor::new(3, 2);
    assert_eq!(editor.draw(&cell("abc", 1, 0, None)), Ok(()));
    editor.jump_cursor_to(2, 1);
    assert_eq!(editor.cursor_character(CursorShape::Block), Some('c'));
    assert_eq!(editor.cursor_character(CursorShape::Vertical), None);
    assert_eq!(editor.cursor_character(CursorShape::Horizontal), None);
    editor.jump_cursor_to(2, 0);
    assert_eq!(editor.cursor_character(CursorShape::Block), Some(' '));
    editor.jump_cursor_to(7, 7);
    assert_eq!(editor.cursor_character(CursorShape::Block), Some(' '));
}
