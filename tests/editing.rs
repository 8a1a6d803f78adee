use pascal_editor::layout::visible_cells;
use pascal_editor::{
    Action, Document, Editor, Highlighter, InputEvent, Key, KeyPress, Mode, Modifiers, StatusBar,
    Terminal,
};

fn doc(content: &str) -> Document {
    Document::new("notes.txt", content)
}

fn lines_of(d: &Document) -> Vec<String> {
    (0..d.n_lines()).map(|i| d.line_text(i)).collect()
}

fn editor(content: &str, width: u16, height: u16) -> Editor {
    Editor::build(doc(content), Terminal { width, height }, "notes.txt".to_string())
}

fn plain(code: Key) -> InputEvent {
    InputEvent::Key(KeyPress { code, modifiers: Modifiers::Plain })
}

fn ctrl(c: char) -> InputEvent {
    InputEvent::Key(KeyPress { code: Key::Char(c), modifiers: Modifiers::Control })
}

#[test]
fn empty_content_gives_one_empty_line() {
    let d = doc("");
    assert_eq!(d.n_lines(), 1);
    assert_eq!(d.line_len(0), 0);
    assert_eq!(d.rich_lines.len(), 1);
}

#[test]
fn loading_splits_lines_and_drops_terminators() {
    let d = doc("abc\r\ndef\n");
    assert_eq!(lines_of(&d), vec!["abc".to_string(), "def".to_string()]);
    assert_eq!(d.contents(), "abc\ndef");
}

#[test]
fn contents_join_lines_with_one_terminator() {
    let d = doc("one\n\nthree");
    assert_eq!(d.contents(), "one\n\nthree");
}

#[test]
fn extension_is_what_follows_the_last_dot() {
    assert_eq!(Document::new("dir/archive.tar.gz", "").extension, "gz");
    assert_eq!(Document::new("Makefile", "").extension, "");
    assert_eq!(Document::new("main.rs", "").file_name, "main.rs");
}

#[test]
fn columns_count_grapheme_clusters() {
    // "e" followed by a combining acute accent is one cluster.
    let d = doc("e\u{301}x");
    assert_eq!(d.line_len(0), 2);
}

#[test]
fn split_then_join_restores_the_line() {
    let mut d = doc("hello world\nsecond");
    d.newline(0, 5);
    assert_eq!(lines_of(&d), vec!["hello", " world", "second"]);
    d.join_lines(1);
    assert_eq!(lines_of(&d), vec!["hello world", "second"]);
    for col in 0..=11 {
        let mut e = doc("hello world");
        e.newline(0, col);
        e.join_lines(1);
        assert_eq!(e.contents(), "hello world");
    }
}

#[test]
fn insert_then_remove_restores_the_line() {
    for col in 0..=3 {
        let mut d = doc("abc");
        d.insert_char('x', 0, col);
        assert_eq!(d.line_len(0), 4);
        d.remove_char(0, col);
        assert_eq!(d.contents(), "abc");
    }
}

#[test]
fn out_of_range_edits_do_nothing() {
    let mut d = doc("ab\ncd");
    d.insert_char('x', 5, 0);
    d.insert_char('x', 0, 3);
    d.insert_char('\n', 0, 1);
    d.remove_char(0, 2);
    d.remove_char(2, 0);
    d.join_lines(0);
    d.join_lines(2);
    d.newline(0, 3);
    d.newline(7, 0);
    assert_eq!(lines_of(&d), vec!["ab", "cd"]);
}

#[test]
fn cache_has_one_entry_per_line_after_edits() {
    let mut d = doc("first\nsecond\nthird");
    assert_eq!(d.rich_lines.len(), d.n_lines());
    d.newline(1, 3);
    assert_eq!(d.rich_lines.len(), d.n_lines());
    d.insert_char('z', 2, 0);
    assert_eq!(d.rich_lines.len(), d.n_lines());
    d.join_lines(3);
    assert_eq!(d.rich_lines.len(), d.n_lines());
    d.remove_char(0, 0);
    assert_eq!(d.rich_lines.len(), d.n_lines());
    d.newline(2, 0);
    assert_eq!(d.rich_lines.len(), d.n_lines());
    assert_eq!(d.n_lines(), 4);
}

#[test]
fn edited_line_gets_a_fresh_cache_entry() {
    let mut d = Document::new("main.rs", "fn main() {}\nlet x = 1;");
    assert!(d.rich_lines[0].is_empty());
    d.insert_char(' ', 0, 0);
    let text: String = d.rich_lines[0].line.iter().map(|s| s.content.clone()).collect();
    assert_eq!(text, " fn main() {}");
    assert!(d.rich_lines[1].is_empty());
}

#[test]
fn refresh_computes_entries_in_range_only() {
    let mut d = doc("a\nb\nc");
    d.refresh_highlights(0, 2);
    assert!(!d.rich_lines[0].is_empty());
    assert!(!d.rich_lines[1].is_empty());
    assert!(d.rich_lines[2].is_empty());
    d.refresh_highlights(2, 10);
    assert!(!d.rich_lines[2].is_empty());
}

#[test]
fn highlight_segments_cover_the_line() {
    let h = Highlighter::new();
    let line = "fn main() { let x = 42; }";
    let segments = h.highlight_line(line, "rs");
    let text: String = segments.iter().map(|s| s.content.clone()).collect();
    assert_eq!(text, line);
    assert!(segments.len() > 1);
    let plain = h.highlight_line("just words", "unknown-extension");
    let text: String = plain.iter().map(|s| s.content.clone()).collect();
    assert_eq!(text, "just words");
}

#[test]
fn next_and_prev_word_on_underscore_words() {
    let d = doc("a_b c");
    assert_eq!(d.next_word(0, 0), (0, 4));
    assert_eq!(d.prev_word(0, 5), (0, 4));
}

#[test]
fn word_motions_cross_line_boundaries() {
    let d = doc("ab\ncd");
    assert_eq!(d.next_word(0, 2), (1, 0));
    assert_eq!(d.next_word(1, 2), (1, 2));
    assert_eq!(d.prev_word(1, 0), (0, 2));
    assert_eq!(d.prev_word(0, 0), (0, 0));
}

#[test]
fn word_classes_follow_unicode_letters() {
    let d = doc("h\u{e9}llo w\u{f6}rld");
    assert_eq!(d.next_word(0, 0), (0, 6));
    assert_eq!(d.prev_word(0, 11), (0, 6));
}

#[test]
fn next_then_prev_word_lands_at_or_before_word_start() {
    let text = "foo  bar_baz, qux!";
    let d = doc(text);
    let len = d.line_len(0);
    let starts = [0, 0, 0, 3, 4, 5, 5, 5, 5, 5, 5, 5, 12, 13, 14, 14, 14, 17];
    for col in 0..len {
        let (l, n) = d.next_word(0, col);
        assert_eq!(l, 0);
        assert!(n > col);
        let (l2, p) = d.prev_word(0, n);
        assert_eq!(l2, 0);
        assert!(p <= starts[col]);
    }
    let mut col = 0;
    let mut steps = 0;
    while col < len {
        col = d.next_word(0, col).1;
        steps += 1;
    }
    assert!(steps <= len);
}

#[test]
fn enter_at_end_of_line_inserts_an_empty_line() {
    let mut e = editor("abc\ndef", 80, 24);
    for _ in 0..3 {
        e.handle_event(plain(Key::Char('l')));
    }
    assert_eq!((e.cursor_y, e.cursor_x), (0, 3));
    e.handle_event(plain(Key::Char('i')));
    e.handle_event(plain(Key::Enter));
    assert_eq!(lines_of(&e.docu), vec!["abc", "", "def"]);
    assert_eq!((e.cursor_y, e.cursor_x), (1, 0));
}

#[test]
fn backspace_at_document_start_does_nothing() {
    let mut e = editor("ab", 80, 24);
    e.handle_event(plain(Key::Char('i')));
    e.handle_event(plain(Key::Backspace));
    assert_eq!(lines_of(&e.docu), vec!["ab"]);
    assert_eq!((e.cursor_y, e.cursor_x), (0, 0));
}

#[test]
fn backspace_at_line_start_joins_with_line_above() {
    let mut e = editor("\nab", 80, 24);
    assert_eq!(lines_of(&e.docu), vec!["", "ab"]);
    e.handle_event(plain(Key::Char('j')));
    e.handle_event(plain(Key::Char('i')));
    e.handle_event(plain(Key::Backspace));
    assert_eq!(lines_of(&e.docu), vec!["ab"]);
    assert_eq!((e.cursor_y, e.cursor_x), (0, 0));
}

#[test]
fn backspace_inside_line_removes_previous_grapheme() {
    let mut e = editor("abc", 80, 24);
    e.handle_event(plain(Key::Char('l')));
    e.handle_event(plain(Key::Char('l')));
    e.handle_event(plain(Key::Char('i')));
    e.handle_event(plain(Key::Backspace));
    assert_eq!(lines_of(&e.docu), vec!["ac"]);
    assert_eq!(e.cursor_x, 1);
    assert!(e.status_bar.has_unsaved_changes);
}

#[test]
fn typing_inserts_at_cursor_and_tab_inserts_four_spaces() {
    let mut e = editor("", 80, 24);
    e.handle_event(plain(Key::Char('i')));
    e.handle_event(plain(Key::Char('x')));
    e.handle_event(plain(Key::Tab));
    e.handle_event(plain(Key::Char('y')));
    assert_eq!(lines_of(&e.docu), vec!["x    y"]);
    assert_eq!(e.cursor_x, 6);
}

#[test]
fn mode_switches_and_session_commands() {
    let mut e = editor("abc", 80, 24);
    assert_eq!(e.mode, Mode::Normal);
    assert_eq!(e.handle_event(plain(Key::Char('i'))), Action::Redraw);
    assert_eq!(e.mode, Mode::Insert);
    assert_eq!(e.status_bar.mode, Mode::Insert);
    // In Insert mode, letters are text, not commands.
    e.handle_event(plain(Key::Char('q')));
    assert_eq!(lines_of(&e.docu), vec!["qabc"]);
    assert_eq!(e.handle_event(plain(Key::Esc)), Action::Redraw);
    assert_eq!(e.mode, Mode::Normal);
    assert_eq!(e.handle_event(ctrl('s')), Action::Save);
    e.mark_saved();
    assert!(!e.status_bar.has_unsaved_changes);
    assert_eq!(e.handle_event(InputEvent::Other), Action::Nothing);
    assert_eq!(e.handle_event(plain(Key::Char('z'))), Action::Redraw);
    assert_eq!(lines_of(&e.docu), vec!["qabc"]);
    assert_eq!(e.handle_event(ctrl('q')), Action::Quit);
    assert!(e.quit);
}

#[test]
fn jump_to_end_and_start_of_document() {
    let mut e = editor("one\ntwo\nthree", 80, 24);
    e.handle_event(plain(Key::Char('t')));
    assert_eq!((e.cursor_y, e.cursor_x), (2, 5));
    e.handle_event(plain(Key::Char('g')));
    assert_eq!((e.cursor_y, e.cursor_x), (0, 0));
}

#[test]
fn vertical_moves_clamp_the_column() {
    let mut e = editor("long line\nab\nanother long", 80, 24);
    e.handle_event(plain(Key::Char('t')));
    assert_eq!((e.cursor_y, e.cursor_x), (2, 12));
    e.handle_event(plain(Key::Up));
    assert_eq!((e.cursor_y, e.cursor_x), (1, 2));
    e.handle_event(plain(Key::Up));
    assert_eq!((e.cursor_y, e.cursor_x), (0, 2));
    e.handle_event(plain(Key::Left));
    e.handle_event(plain(Key::Left));
    e.handle_event(plain(Key::Left));
    assert_eq!(e.cursor_x, 0);
}

#[test]
fn viewport_follows_the_cursor() {
    let content: Vec<String> = (0..20).map(|i| format!("line number {i} with some more text")).collect();
    let mut e = editor(&content.join("\n"), 10, 10);
    // Height 10: 8 content rows less a margin of 4 leaves 4 rows.
    for _ in 0..15 {
        e.handle_event(plain(Key::Down));
        assert!(e.top_offset <= e.cursor_y && e.cursor_y < e.top_offset + 4);
    }
    assert_eq!(e.cursor_y, 15);
    assert_eq!(e.top_offset, 12);
    // Width 10 less a gutter of 2 digits and 3 separator cells leaves 5 columns.
    for _ in 0..12 {
        e.handle_event(plain(Key::Right));
        assert!(e.left_offset <= e.cursor_x && e.cursor_x < e.left_offset + 5);
    }
    assert_eq!(e.left_offset, 8);
    e.handle_event(plain(Key::Char('g')));
    assert_eq!((e.top_offset, e.left_offset), (0, 0));
}

#[test]
fn viewport_holds_on_the_smallest_terminal() {
    let mut e = editor("abc\ndef\nghi", 1, 1);
    for code in [Key::Down, Key::Right, Key::Down, Key::Right, Key::Up, Key::Left] {
        e.handle_event(plain(code));
        assert_eq!(e.top_offset, e.cursor_y);
        assert_eq!(e.left_offset, e.cursor_x);
    }
}

#[test]
fn resize_rescrolls_without_moving_the_cursor() {
    let content: Vec<String> = (0..30).map(|i| i.to_string()).collect();
    let mut e = editor(&content.join("\n"), 80, 40);
    for _ in 0..20 {
        e.handle_event(plain(Key::Char('j')));
    }
    assert_eq!(e.top_offset, 0);
    assert_eq!(e.handle_event(InputEvent::Resize(80, 10)), Action::Redraw);
    assert_eq!(e.cursor_y, 20);
    assert_eq!(e.top_offset, 17);
    assert_eq!((e.term.width, e.term.height), (80, 10));
}

#[test]
fn screen_cursor_adds_display_widths() {
    let mut e = editor("\u{4e2d}\u{6587}ab", 80, 24);
    e.handle_event(plain(Key::Right));
    e.handle_event(plain(Key::Right));
    // One digit of line numbers and three separator cells, then two wide graphemes.
    assert_eq!(e.screen_cursor(), (8, 0));
    e.handle_event(plain(Key::Right));
    assert_eq!(e.screen_cursor(), (9, 0));
}

#[test]
fn screen_row_is_relative_to_top_offset() {
    let content: Vec<String> = (0..30).map(|i| i.to_string()).collect();
    let mut e = editor(&content.join("\n"), 80, 10);
    for _ in 0..10 {
        e.handle_event(plain(Key::Down));
    }
    assert_eq!(e.top_offset, 7);
    assert_eq!(e.screen_cursor().1, 3);
}

#[test]
fn line_number_width_counts_digits() {
    let content: Vec<String> = (0..100).map(|i| i.to_string()).collect();
    assert_eq!(doc(&content.join("\n")).line_number_width(), 3);
    assert_eq!(doc("x").line_number_width(), 1);
}

#[test]
fn visible_cells_skip_left_offset_and_fit_width() {
    let h = Highlighter::new();
    let segments = h.highlight_line("abcdef", "txt");
    let cells = visible_cells(&segments, 2, 3);
    let text: Vec<String> = cells.iter().map(|c| c.1.clone()).collect();
    assert_eq!(text, vec!["c", "d", "e"]);
    let wide = h.highlight_line("\u{4e2d}\u{6587}x", "txt");
    let cells = visible_cells(&wide, 0, 3);
    assert_eq!(cells.len(), 1);
    assert!(visible_cells(&segments, 10, 5).is_empty());
}

#[test]
fn status_bar_pads_both_sides() {
    let bar = StatusBar::new("a.rs".to_string(), Mode::Normal, 0, false);
    let expected = format!("{:<27}\u{2502}{:>10}", " a.rs    \u{2502} NORMAL", "0 \u{2502} 0/0  ");
    assert_eq!(bar.format(40, false, 0, 0, 1), expected);
    assert_eq!(
        bar.format(40, false, 0, 0, 1),
        " a.rs    \u{2502} NORMAL          \u{2502} 0 \u{2502} 0/0  "
    );
}

#[test]
fn status_bar_marks_unsaved_and_clamps_line() {
    let bar = StatusBar::new("notes".to_string(), Mode::Insert, 0, true);
    let s = bar.format(30, true, 5, 3, 3);
    assert_eq!(s, format!("{:<17}\u{2502}{:>10}", " notes [+]\u{2502} INSERT", "3 \u{2502} 3/2  "));
}

#[test]
fn mode_labels() {
    assert_eq!(Mode::Normal.to_string(), "NORMAL");
    assert_eq!(Mode::Insert.to_string(), "INSERT");
}
