use xi_view::errors::InvariantViolation;
use xi_view::protocol::{Line, Operation, Style, Update};
use xi_view::view::{add_char_width, View, TAB_LENGTH};
use xi_view::window::Window;

fn line(text: &str) -> Line {
    Line { text: String::from(text), cursor: Vec::new(), styles: Vec::new() }
}

fn view_with(texts: &[&str]) -> View {
    let mut view = View::new();
    view.update_cache(&Update {
        operations: vec![Operation::Insert(texts.iter().map(|t| line(t)).collect())],
    });
    view
}

const GOTO_1_1: &str = "\u{1b}[1;1H";
const CLEAR: &str = "\u{1b}[2K";

#[test]
fn tab_width_accumulation() {
    // For tab stop 4 the running width of "a\tb" is 1, then 4, then 5.
    assert_eq!(TAB_LENGTH, 4);
    let mut widths = Vec::new();
    let mut acc: u16 = 0;
    for c in "a\tb".chars() {
        acc = add_char_width(acc, c);
        widths.push(acc);
    }
    assert_eq!(widths, vec![1, 4, 5]);
}

#[test]
fn click_beyond_cache_returns_input_unchanged() {
    let view = View::new();
    assert_eq!(view.click(5, 7), (5, 7));
    let view = view_with(&["only"]);
    assert_eq!(view.click(1, 3), (1, 3));
}

#[test]
fn click_maps_row_through_invalid_and_viewport() {
    let mut view = View::new();
    view.update_cache(&Update {
        operations: vec![
            Operation::Invalidate(2),
            Operation::Insert(vec![line("a"), line("b"), line("c")]),
        ],
    });
    view.set_window(1, 5);
    // Document line = screen row + invalid_before + viewport start.
    assert_eq!(view.click(1, 0), (1 + 2 + 1, 0));
}

#[test]
fn click_walks_tab_widths() {
    let mut view = view_with(&["a\tb"]);
    view.set_window(0, 10);
    assert_eq!(view.click(0, 1), (0, 1));
    assert_eq!(view.click(0, 2), (0, 2));
    assert_eq!(view.click(0, 4), (0, 2));
    assert_eq!(view.click(0, 5), (0, 3));
    // Wider than the whole line: one past its last character.
    assert_eq!(view.click(0, 9), (0, 4));
}

#[test]
fn resize_fatal_guard_fires_inside_invalid_region() {
    let mut view = View::new();
    view.update_cache(&Update {
        operations: vec![Operation::Invalidate(3), Operation::Insert(vec![line("a")])],
    });
    view.set_cursor(1, 0);
    let result = view.resize(10);
    assert_eq!(result, Err(InvariantViolation));
    // The view is untouched by the aborted resize.
    assert_eq!(view.window.size, 0);
}

#[test]
fn resize_answers_with_viewport_request() {
    let mut view = View::new();
    view.update_cache(&Update {
        operations: vec![
            Operation::Invalidate(3),
            Operation::Insert(vec![line("a"), line("b")]),
        ],
    });
    view.set_cursor(4, 0);
    let request = view.resize(24).unwrap();
    assert_eq!(request.height, 24);
    assert_eq!(request.cursor_line, 1);
    assert_eq!(request.nb_lines, 2);
    assert_eq!(view.window.size, 24);
}

#[test]
fn render_empty_cache_parks_cursor_top_left() {
    let view = View::new();
    assert_eq!(view.render(), GOTO_1_1);
}

#[test]
fn render_clears_and_writes_visible_rows() {
    let mut view = view_with(&["ab", "cd", "ef"]);
    view.set_window(0, 2);
    let expected = format!(
        "{}{}ab{}{}cd{}",
        GOTO_1_1,
        CLEAR,
        "\u{1b}[2;1H",
        CLEAR,
        GOTO_1_1,
    );
    assert_eq!(view.render(), expected);
}

#[test]
fn render_respects_viewport_start() {
    let mut view = view_with(&["ab", "cd", "ef"]);
    view.set_window(2, 2);
    view.set_cursor(2, 0);
    // Only the third line is left; it is drawn on the first screen row,
    // and the cursor lands there too.
    let expected = format!("{}{}ef{}", GOTO_1_1, CLEAR, GOTO_1_1);
    assert_eq!(view.render(), expected);
}

#[test]
fn render_cursor_walks_tab_widths() {
    let mut view = view_with(&["a\tb"]);
    view.set_window(0, 5);
    view.set_cursor(0, 2);
    // Two characters left of the caret: 'a' then the tab, width four.
    assert_eq!(view.render_cursor(), "\u{1b}[1;5H");
}

#[test]
fn render_cursor_skips_soft_errors() {
    // Inside the invalid-before region.
    let mut view = View::new();
    view.update_cache(&Update {
        operations: vec![Operation::Invalidate(2), Operation::Insert(vec![line("a")])],
    });
    view.set_window(0, 5);
    view.set_cursor(1, 0);
    assert_eq!(view.render_cursor(), "");
    // On a line the cache does not hold.
    view.set_cursor(9, 0);
    assert_eq!(view.render_cursor(), "");
    // Above the viewport start.
    let mut view = view_with(&["a", "b"]);
    view.set_window(1, 5);
    view.set_cursor(0, 0);
    assert_eq!(view.render_cursor(), "");
}

#[test]
fn set_style_registers_by_id() {
    let mut view = View::new();
    let style = Style {
        id: 2,
        fg_color: Some(0xffffff),
        bg_color: None,
        weight: Some(700),
        italic: Some(false),
        underline: None,
    };
    view.set_style(style);
    assert_eq!(view.styles.get(&2), Some(&style));
    let overwrite = Style { id: 2, fg_color: None, bg_color: None, weight: None, italic: None, underline: None };
    view.set_style(overwrite);
    assert_eq!(view.styles.get(&2), Some(&overwrite));
}

#[test]
fn set_cursor_moves_the_caret_only() {
    let mut view = view_with(&["ab"]);
    view.set_window(0, 3);
    view.set_cursor(7, 4);
    assert_eq!(view.cursor.line, 7);
    assert_eq!(view.cursor.column, 4);
    assert_eq!(view.window.start, 0);
    assert_eq!(view.window.size, 3);
    assert_eq!(view.cache.lines.len(), 1);
}

#[test]
fn window_records_viewport_answers() {
    let window = Window::new();
    assert_eq!(window.start(), 0);
    assert_eq!(window.size(), 0);
    let window = Window { start: 4, size: 10 };
    assert_eq!(window.start(), 4);
    assert_eq!(window.size(), 10);
}
