use vstd::prelude::*;
use crate::document::{
    inserted, joined, next_word_target, prev_word_target, removed, split, Document,
};
use crate::keys::{Action, InputEvent, Key, KeyPress, Modifiers};
use crate::line::width_sum;
use crate::mode::Mode;
use crate::statusbar::StatusBar;
use crate::term::Terminal;
use crate::viewport::{follow, follow_offset, gutter_width, gutter_width_of};

verus! {

/// Rows the cursor may occupy without scrolling: the terminal height less
/// the status bar and the line below it, less a margin of four rows kept
/// below the cursor; at least one.
pub open spec fn visible_rows(height: u16) -> int {
    let content: int = if height >= 2 { height - 2 } else { 0 };
    if content >= 5 { content - 4 } else { 1 }
}

/// Grapheme columns shown beside the gutter of a document of `n_lines`
/// lines; at least one.
pub open spec fn visible_cols(width: u16, n_lines: nat) -> int {
    if width > gutter_width_of(n_lines) + 1 {
        width - gutter_width_of(n_lines)
    } else {
        1
    }
}

/// Where a movement key takes the cursor from (`y`, `x`). Vertical moves
/// clamp the column to the length of the line reached.
pub open spec fn moved(d: Seq<Seq<Seq<char>>>, y: int, x: int, key: Key) -> (int, int) {
    match key {
        Key::Char('h') | Key::Left => (y, if x > 0 { x - 1 } else { x }),
        Key::Char('j') | Key::Down => if y + 1 < d.len() {
            (y + 1, if x > d[y + 1].len() { d[y + 1].len() as int } else { x })
        } else {
            (y, x)
        },
        Key::Char('k') | Key::Up => if y > 0 {
            (y - 1, if x > d[y - 1].len() { d[y - 1].len() as int } else { x })
        } else {
            (y, x)
        },
        Key::Char('l') | Key::Right => (y, if x < d[y].len() { x + 1 } else { x }),
        Key::Char('w') => next_word_target(d, y, x),
        Key::Char('b') => prev_word_target(d, y, x),
        _ => (y, x),
    }
}

/// The document and cursor after a writing key at (`y`, `x`): a character
/// is inserted (a line terminator is not), Backspace removes the grapheme
/// before the cursor or joins the line to the one above, Enter cuts the
/// line, Tab inserts four spaces.
pub open spec fn written(d: Seq<Seq<Seq<char>>>, y: int, x: int, key: Key) -> (
    Seq<Seq<Seq<char>>>,
    int,
    int,
) {
    match key {
        Key::Char(c) => if c != '\n' {
            (inserted(d, y, x, seq![c]), y, x + 1)
        } else {
            (d, y, x)
        },
        Key::Backspace => if x > 0 {
            (removed(d, y, x - 1), y, x - 1)
        } else if y > 0 {
            (joined(d, y), y - 1, d[y - 1].len() as int)
        } else {
            (d, y, x)
        },
        Key::Enter => (split(d, y, x), y + 1, 0),
        Key::Tab => (
            inserted(
                inserted(inserted(inserted(d, y, x, seq![' ']), y, x + 1, seq![' ']), y, x + 2, seq![' ']),
                y,
                x + 3,
                seq![' '],
            ),
            y,
            x + 4,
        ),
        _ => (d, y, x),
    }
}

/// The terminal column of the cursor: the gutter, then the display widths
/// of the graphemes shown left of the cursor.
pub open spec fn screen_column(d: Seq<Seq<Seq<char>>>, y: int, x: int, left: int) -> int {
    gutter_width_of(d.len()) + width_sum(d[y].subrange(left, x))
}

/// The terminal row of the cursor: its distance from the first row shown,
/// at most the last row of the terminal.
pub open spec fn screen_row(y: int, top: int, height: int) -> int {
    let row = if y > top { y - top } else { 0 };
    let last = if height > 0 { height - 1 } else { 0 };
    if row < last { row } else { last }
}

/// A key that moves the cursor in Normal mode.
pub open spec fn normal_movement(k: KeyPress) -> bool {
    k.modifiers == Modifiers::Plain && match k.code {
        Key::Char(c) => c == 'h' || c == 'j' || c == 'k' || c == 'l' || c == 'w' || c == 'b',
        Key::Left | Key::Right | Key::Up | Key::Down => true,
        _ => false,
    }
}

/// A key that moves the cursor in Insert mode.
pub open spec fn insert_movement(k: KeyPress) -> bool {
    k.modifiers == Modifiers::Plain && match k.code {
        Key::Left | Key::Right | Key::Up | Key::Down => true,
        _ => false,
    }
}

/// A key that edits the text in Insert mode.
pub open spec fn insert_writing(k: KeyPress) -> bool {
    k.modifiers == Modifiers::Plain && match k.code {
        Key::Enter | Key::Backspace | Key::Tab | Key::Char(_) => true,
        _ => false,
    }
}

/// An editing session: the document, the cursor, the viewport, the mode
/// and the status bar, for a terminal of a given size.
pub struct Editor {
    pub term: Terminal,
    pub quit: bool,
    pub mode: Mode,
    pub docu: Document,
    pub cursor_x: usize,
    pub cursor_y: usize,
    pub top_offset: usize,
    pub left_offset: usize,
    pub status_bar: StatusBar,
}

impl Editor {
    /// The cursor addresses an existing line and a column within it (or
    /// just past its end).
    pub open spec fn cursor_valid(&self) -> bool {
        &&& self.cursor_y < self.docu@.len()
        &&& self.cursor_x <= self.docu@[self.cursor_y as int].len()
    }

    /// The cursor lies inside the viewport.
    pub open spec fn viewport_ok(&self) -> bool {
        &&& self.top_offset <= self.cursor_y < self.top_offset + visible_rows(self.term.height)
        &&& self.left_offset <= self.cursor_x < self.left_offset + visible_cols(
            self.term.width,
            self.docu@.len(),
        )
    }

    pub open spec fn wf(&self) -> bool {
        &&& self.docu.wf()
        &&& self.cursor_valid()
        &&& self.viewport_ok()
        &&& self.status_bar.mode == self.mode
    }

    /// The offsets of `self` are those of `old` scrolled to follow the
    /// cursor of `self`.
    pub open spec fn offsets_follow(&self, old: &Editor) -> bool {
        &&& self.top_offset == follow(
            self.cursor_y as int,
            old.top_offset as int,
            visible_rows(self.term.height),
        )
        &&& self.left_offset == follow(
            self.cursor_x as int,
            old.left_offset as int,
            visible_cols(self.term.width, self.docu@.len()),
        )
    }

    /// `self` is `old` after the movement key `key`.
    pub open spec fn after_move(&self, old: &Editor, key: Key) -> bool {
        let target = moved(old.docu@, old.cursor_y as int, old.cursor_x as int, key);
        &&& self.cursor_y == target.0
        &&& self.cursor_x == target.1
        &&& self.docu == old.docu
        &&& self.term == old.term
        &&& self.mode == old.mode
        &&& self.quit == old.quit
        &&& self.status_bar == old.status_bar
        &&& self.offsets_follow(old)
    }

    /// `self` is `old` after the writing key `key`.
    pub open spec fn after_write(&self, old: &Editor, key: Key) -> bool {
        let target = written(old.docu@, old.cursor_y as int, old.cursor_x as int, key);
        &&& self.docu@ == target.0
        &&& self.cursor_y == target.1
        &&& self.cursor_x == target.2
        &&& self.docu.same_source(&old.docu)
        &&& self.term == old.term
        &&& self.mode == old.mode
        &&& self.quit == old.quit
        &&& self.offsets_follow(old)
    }

    /// `self` is `old` with only the mode changed, in the session and in the
    /// status bar.
    pub open spec fn mode_switched(&self, old: &Editor, mode: Mode) -> bool {
        &&& self.mode == mode
        &&& self.status_bar.mode == mode
        &&& self.status_bar.file_name == old.status_bar.file_name
        &&& self.status_bar.line_number == old.status_bar.line_number
        &&& self.status_bar.has_unsaved_changes == old.status_bar.has_unsaved_changes
        &&& self.docu == old.docu
        &&& self.term == old.term
        &&& self.quit == old.quit
        &&& self.cursor_x == old.cursor_x
        &&& self.cursor_y == old.cursor_y
        &&& self.top_offset == old.top_offset
        &&& self.left_offset == old.left_offset
    }

    /// `self` is `old` after the Insert-mode key press `key`: Escape
    /// returns to Normal mode, writing keys edit the text and mark it
    /// unsaved, arrow keys move the cursor, anything else changes nothing.
    pub open spec fn insert_step(&self, old: &Editor, key: KeyPress) -> bool {
        if key == (KeyPress { code: Key::Esc, modifiers: Modifiers::Plain }) {
            self.mode_switched(old, Mode::Normal)
        } else if insert_writing(key) {
            &&& self.after_write(old, key.code)
            &&& self.status_bar.has_unsaved_changes
            &&& self.status_bar.mode == old.status_bar.mode
            &&& self.status_bar.file_name == old.status_bar.file_name
            &&& self.status_bar.line_number == old.status_bar.line_number
        } else if insert_movement(key) {
            self.after_move(old, key.code)
        } else {
            *self == *old
        }
    }

    /// `self` is `old` after the Normal-mode key press `key`, and `r` is
    /// what the surrounding loop does next: Ctrl-Q quits, Ctrl-S asks for a
    /// save, movement keys move, `i` enters Insert mode, `t` jumps to the end
    /// of the last line and `g` to the start of the document; anything else
    /// changes nothing. Every key but Ctrl-Q and Ctrl-S asks for a redraw.
    pub open spec fn normal_step(&self, old: &Editor, key: KeyPress, r: Action) -> bool {
        if key == (KeyPress { code: Key::Char('q'), modifiers: Modifiers::Control }) {
            r == Action::Quit && *self == (Editor { quit: true, ..*old })
        } else if key == (KeyPress { code: Key::Char('s'), modifiers: Modifiers::Control }) {
            r == Action::Save && *self == *old
        } else {
            &&& r == Action::Redraw
            &&& if normal_movement(key) {
                self.after_move(old, key.code)
            } else if key == (KeyPress { code: Key::Char('i'), modifiers: Modifiers::Plain }) {
                self.mode_switched(old, Mode::Insert)
            } else if key == (KeyPress { code: Key::Char('t'), modifiers: Modifiers::Plain }) {
                self.jumped(old, old.docu@.len() - 1, old.docu@[old.docu@.len() - 1].len() as int)
            } else if key == (KeyPress { code: Key::Char('g'), modifiers: Modifiers::Plain }) {
                self.jumped(old, 0, 0)
            } else {
                *self == *old
            }
        }
    }

    /// `self` is `old` with the cursor put at (`y`, `x`) and the view
    /// scrolled to follow it.
    pub open spec fn jumped(&self, old: &Editor, y: int, x: int) -> bool {
        &&& self.cursor_y == y
        &&& self.cursor_x == x
        &&& self.docu == old.docu
        &&& self.term == old.term
        &&& self.mode == old.mode
        &&& self.quit == old.quit
        &&& self.status_bar == old.status_bar
        &&& self.offsets_follow(old)
    }

    /// A session in Normal mode on `docu`, with the cursor at the start of
    /// the document.
    pub fn build(docu: Document, term: Terminal, file_name: String) -> (r: Editor)
        requires
            docu.wf(),
        ensures
            r.wf(),
            r.docu == docu,
            r.term == term,
            r.mode == Mode::Normal,
            !r.quit,
            r.cursor_x == 0 && r.cursor_y == 0,
            r.top_offset == 0 && r.left_offset == 0,
            r.status_bar.file_name == file_name,
            !r.status_bar.has_unsaved_changes,
    {
        let status_bar = StatusBar::new(file_name, Mode::Normal, 0, false);
        Editor {
            term,
            quit: false,
            mode: Mode::Normal,
            docu,
            cursor_x: 0,
            cursor_y: 0,
            top_offset: 0,
            left_offset: 0,
            status_bar,
        }
    }

    /// Rows the cursor may occupy without scrolling.
    fn rows(&self) -> (r: usize)
        ensures
            r == visible_rows(self.term.height),
    {
        let content: usize = if self.term.height >= 2 { (self.term.height - 2) as usize } else { 0 };
        if content >= 5 { content - 4 } else { 1 }
    }

    /// Grapheme columns shown beside the gutter.
    fn cols(&self) -> (r: usize)
        ensures
            r == visible_cols(self.term.width, self.docu@.len()),
    {
        let gutter = gutter_width(self.docu.n_lines());
        if self.term.width as usize > gutter && self.term.width as usize - gutter > 1 {
            self.term.width as usize - gutter
        } else {
            1
        }
    }

    /// Scrolls vertically just enough to keep the cursor's line in view.
    fn update_top_offset(&mut self)
        ensures
            final(self).top_offset == follow(
                old(self).cursor_y as int,
                old(self).top_offset as int,
                visible_rows(old(self).term.height),
            ),
            final(self).top_offset <= final(self).cursor_y < final(self).top_offset + visible_rows(
                final(self).term.height,
            ),
            final(self).term == old(self).term,
            final(self).quit == old(self).quit,
            final(self).mode == old(self).mode,
            final(self).docu == old(self).docu,
            final(self).cursor_x == old(self).cursor_x,
            final(self).cursor_y == old(self).cursor_y,
            final(self).left_offset == old(self).left_offset,
            final(self).status_bar == old(self).status_bar,
    {
        let rows = self.rows();
        self.top_offset = follow_offset(self.cursor_y, self.top_offset, rows);
    }

    /// Scrolls horizontally just enough to keep the cursor's column in view.
    fn update_left_offset(&mut self)
        ensures
            final(self).left_offset == follow(
                old(self).cursor_x as int,
                old(self).left_offset as int,
                visible_cols(old(self).term.width, old(self).docu@.len()),
            ),
            final(self).left_offset <= final(self).cursor_x < final(self).left_offset
                + visible_cols(final(self).term.width, final(self).docu@.len()),
            final(self).term == old(self).term,
            final(self).quit == old(self).quit,
            final(self).mode == old(self).mode,
            final(self).docu == old(self).docu,
            final(self).cursor_x == old(self).cursor_x,
            final(self).cursor_y == old(self).cursor_y,
            final(self).top_offset == old(self).top_offset,
            final(self).status_bar == old(self).status_bar,
    {
        let cols = self.cols();
        self.left_offset = follow_offset(self.cursor_x, self.left_offset, cols);
    }

    /// Scrolls both ways to keep the cursor in view.
    fn update_offsets(&mut self)
        ensures
            final(self).offsets_follow(old(self)),
            final(self).viewport_ok(),
            final(self).term == old(self).term,
            final(self).quit == old(self).quit,
            final(self).mode == old(self).mode,
            final(self).docu == old(self).docu,
            final(self).cursor_x == old(self).cursor_x,
            final(self).cursor_y == old(self).cursor_y,
            final(self).status_bar == old(self).status_bar,
    {
        self.update_top_offset();
        self.update_left_offset();
    }

    fn enter_insert(&mut self)
        ensures
            final(self).mode_switched(old(self), Mode::Insert),
    {
        self.status_bar.mode = Mode::Insert;
        self.mode = Mode::Insert;
    }

    fn enter_normal(&mut self)
        ensures
            final(self).mode_switched(old(self), Mode::Normal),
    {
        self.status_bar.mode = Mode::Normal;
        self.mode = Mode::Normal;
    }

    /// After a vertical move, brings the cursor column back within the
    /// length of the line reached.
    fn clamp_cursor_column(&mut self)
        requires
            old(self).cursor_y < old(self).docu@.len(),
            old(self).docu.wf(),
        ensures
            final(self).cursor_x == if old(self).cursor_x > old(self).docu@[old(self).cursor_y as int].len() {
                old(self).docu@[old(self).cursor_y as int].len() as usize
            } else {
                old(self).cursor_x
            },
            final(self).cursor_y == old(self).cursor_y,
            final(self).term == old(self).term,
            final(self).quit == old(self).quit,
            final(self).mode == old(self).mode,
            final(self).docu == old(self).docu,
            final(self).top_offset == old(self).top_offset,
            final(self).left_offset == old(self).left_offset,
            final(self).status_bar == old(self).status_bar,
    {
        let len = self.docu.line_len(self.cursor_y);
        if self.cursor_x > len {
            self.cursor_x = len;
        }
    }

    /// Applies a writing key at the cursor, moves the cursor after the
    /// change, and scrolls to keep it in view.
    fn handle_writing_event(&mut self, key: Key)
        requires
            old(self).wf(),
        ensures
            final(self).wf(),
            final(self).after_write(old(self), key),
            final(self).status_bar == old(self).status_bar,
    {
        match key {
            Key::Char(c) => {
                if c != '\n' {
                    let ghost before = self.docu@;
                    assert(self.cursor_y < before.len());
                    assert(self.cursor_x <= before[self.cursor_y as int].len());
                    self.docu.insert_char(c, self.cursor_y, self.cursor_x);
                    proof {
                        assert(self.docu@ == inserted(before, self.cursor_y as int, self.cursor_x as int, seq![c]));
                        let l = before[self.cursor_y as int];
                        assert(l.insert(self.cursor_x as int, seq![c]).len() == l.len() + 1);
                        assert(self.docu@.len() == before.len());
                        assert(self.docu@[self.cursor_y as int] == l.insert(self.cursor_x as int, seq![c]));
                        self.docu.lemma_sizes_fit();
                    }
                    self.cursor_x = self.cursor_x + 1;
                }
            },
            Key::Backspace => {
                if self.cursor_x > 0 {
                    self.docu.remove_char(self.cursor_y, self.cursor_x - 1);
                    self.cursor_x = self.cursor_x - 1;
                } else if self.cursor_y > 0 {
                    let prev_line = self.cursor_y - 1;
                    let prev_line_len = self.docu.line_len(prev_line);
                    self.docu.join_lines(self.cursor_y);
                    self.cursor_y = prev_line;
                    self.cursor_x = prev_line_len;
                    assert(self.docu@[prev_line as int] =~= old(self).docu@[prev_line as int] + old(self).docu@[old(self).cursor_y as int]);
                }
            },
            Key::Enter => {
                self.docu.newline(self.cursor_y, self.cursor_x);
                proof {
                    self.docu.lemma_sizes_fit();
                }
                self.cursor_y = self.cursor_y + 1;
                self.cursor_x = 0;
            },
            Key::Tab => {
                let mut i: usize = 0;
                while i < 4
                    invariant
                        i <= 4,
                        old(self).wf(),
                        self.docu.wf(),
                        self.docu.same_source(&old(self).docu),
                        self.cursor_y == old(self).cursor_y,
                        self.cursor_x == old(self).cursor_x + i,
                        self.cursor_x <= self.docu@[self.cursor_y as int].len(),
                        self.docu@.len() == old(self).docu@.len(),
                        self.docu@ == if i == 0 {
                            old(self).docu@
                        } else if i == 1 {
                            inserted(old(self).docu@, self.cursor_y as int, old(self).cursor_x as int, seq![' '])
                        } else if i == 2 {
                            inserted(
                                inserted(old(self).docu@, self.cursor_y as int, old(self).cursor_x as int, seq![' ']),
                                self.cursor_y as int,
                                old(self).cursor_x + 1,
                                seq![' '],
                            )
                        } else if i == 3 {
                            inserted(
                                inserted(
                                    inserted(old(self).docu@, self.cursor_y as int, old(self).cursor_x as int, seq![' ']),
                                    self.cursor_y as int,
                                    old(self).cursor_x + 1,
                                    seq![' '],
                                ),
                                self.cursor_y as int,
                                old(self).cursor_x + 2,
                                seq![' '],
                            )
                        } else {
                            written(old(self).docu@, old(self).cursor_y as int, old(self).cursor_x as int, Key::Tab).0
                        },
                        self.term == old(self).term,
                        self.mode == old(self).mode,
                        self.quit == old(self).quit,
                        self.status_bar == old(self).status_bar,
                        self.top_offset == old(self).top_offset,
                        self.left_offset == old(self).left_offset,
                    decreases 4 - i,
                {
                    let ghost before = self.docu@;
                    self.docu.insert_char(' ', self.cursor_y, self.cursor_x);
                    proof {
                        self.docu.lemma_sizes_fit();
                        let l = before[self.cursor_y as int];
                        assert(self.docu@[self.cursor_y as int] == l.insert(self.cursor_x as int, seq![' ']));
                    }
                    self.cursor_x = self.cursor_x + 1;
                    i = i + 1;
                }
            },
            _ => {},
        }
        self.update_offsets();
    }

    /// Interprets a key press in Insert mode: Escape returns to Normal
    /// mode, writing keys edit the text (and mark it unsaved), arrow keys
    /// move the cursor; anything else is ignored.
    fn handle_insert_mode_key_event(&mut self, key: KeyPress)
        requires
            old(self).wf(),
        ensures
            final(self).wf(),
            final(self).insert_step(old(self), key),
    {
        match (key.code, key.modifiers) {
            (Key::Esc, Modifiers::Plain) => {
                self.enter_normal();
            },
            (Key::Enter, Modifiers::Plain)
            | (Key::Backspace, Modifiers::Plain)
            | (Key::Tab, Modifiers::Plain)
            | (Key::Char(_), Modifiers::Plain) => {
                self.handle_writing_event(key.code);
                self.status_bar.has_unsaved_changes = true;
            },
            (Key::Left, Modifiers::Plain)
            | (Key::Right, Modifiers::Plain)
            | (Key::Up, Modifiers::Plain)
            | (Key::Down, Modifiers::Plain) => {
                self.handle_movement(key.code);
            },
            _ => {},
        }
    }

    /// Interprets a key press in Normal mode: Ctrl-Q quits, Ctrl-S asks for
    /// a save, h/j/k/l/w/b and the arrows move, `i` enters Insert mode, `t`
    /// jumps to the end of the document and `g` to its start; anything else
    /// is ignored.
    fn handle_normal_mode_key_event(&mut self, key: KeyPress) -> (r: Action)
        requires
            old(self).wf(),
        ensures
            final(self).wf(),
            final(self).normal_step(old(self), key, r),
    {
        match (key.code, key.modifiers) {
            (Key::Char('q'), Modifiers::Control) => {
                self.quit = true;
                Action::Quit
            },
            (Key::Char('s'), Modifiers::Control) => Action::Save,
            (Key::Char('h'), Modifiers::Plain)
            | (Key::Char('j'), Modifiers::Plain)
            | (Key::Char('k'), Modifiers::Plain)
            | (Key::Char('l'), Modifiers::Plain)
            | (Key::Char('w'), Modifiers::Plain)
            | (Key::Char('b'), Modifiers::Plain)
            | (Key::Left, Modifiers::Plain)
            | (Key::Right, Modifiers::Plain)
            | (Key::Down, Modifiers::Plain)
            | (Key::Up, Modifiers::Plain) => {
                self.handle_movement(key.code);
                Action::Redraw
            },
            (Key::Char('i'), Modifiers::Plain) => {
                self.enter_insert();
                Action::Redraw
            },
            (Key::Char('t'), Modifiers::Plain) => {
                self.cursor_y = self.docu.n_lines() - 1;
                self.cursor_x = self.docu.line_len(self.cursor_y);
                self.update_offsets();
                Action::Redraw
            },
            (Key::Char('g'), Modifiers::Plain) => {
                self.cursor_y = 0;
                self.cursor_x = 0;
                self.update_offsets();
                Action::Redraw
            },
            _ => Action::Redraw,
        }
    }

    /// Handles one input event and says what the surrounding loop does
    /// next. A key press is interpreted by the current mode and the screen
    /// drawn again; a resize takes the new size, scrolls to keep the cursor
    /// in view and draws again, without touching the cursor or the
    /// document; other events change nothing.
    pub fn handle_event(&mut self, event: InputEvent) -> (r: Action)
        requires
            old(self).wf(),
        ensures
            final(self).wf(),
            match event {
                InputEvent::Key(k) => if old(self).mode == Mode::Normal {
                    final(self).normal_step(old(self), k, r)
                } else {
                    r == Action::Redraw && final(self).insert_step(old(self), k)
                },
                InputEvent::Resize(w, h) => {
                    &&& r == Action::Redraw
                    &&& final(self).term == (Terminal { width: w, height: h })
                    &&& final(self).docu == old(self).docu
                    &&& final(self).cursor_x == old(self).cursor_x
                    &&& final(self).cursor_y == old(self).cursor_y
                    &&& final(self).mode == old(self).mode
                    &&& final(self).top_offset == follow(
                        old(self).cursor_y as int,
                        old(self).top_offset as int,
                        visible_rows(h),
                    )
                    &&& final(self).left_offset == follow(
                        old(self).cursor_x as int,
                        old(self).left_offset as int,
                        visible_cols(w, old(self).docu@.len()),
                    )
                },
                InputEvent::Other => r == Action::Nothing && *final(self) == *old(self),
            },
    {
        match event {
            InputEvent::Key(k) => {
                match self.mode {
                    Mode::Normal => self.handle_normal_mode_key_event(k),
                    Mode::Insert => {
                        self.handle_insert_mode_key_event(k);
                        Action::Redraw
                    },
                }
            },
            InputEvent::Resize(width, height) => {
                self.term.width = width;
                self.term.height = height;
                self.update_offsets();
                Action::Redraw
            },
            InputEvent::Other => Action::Nothing,
        }
    }

    /// Records that the document was written out.
    pub fn mark_saved(&mut self)
        requires
            old(self).wf(),
        ensures
            final(self).wf(),
            !final(self).status_bar.has_unsaved_changes,
            final(self).docu == old(self).docu,
            final(self).cursor_x == old(self).cursor_x,
            final(self).cursor_y == old(self).cursor_y,
            final(self).mode == old(self).mode,
    {
        self.status_bar.has_unsaved_changes = false;
    }

    /// Where the terminal cursor goes: (column, row). The column is the
    /// gutter width plus the display widths of the graphemes between the
    /// left offset and the cursor (saturating at `usize::MAX`).
    pub fn screen_cursor(&self) -> (r: (usize, usize))
        requires
            self.wf(),
        ensures
            r.0 == if screen_column(
                self.docu@,
                self.cursor_y as int,
                self.cursor_x as int,
                self.left_offset as int,
            ) <= usize::MAX {
                screen_column(
                    self.docu@,
                    self.cursor_y as int,
                    self.cursor_x as int,
                    self.left_offset as int,
                )
            } else {
                usize::MAX as int
            },
            r.1 == screen_row(
                self.cursor_y as int,
                self.top_offset as int,
                self.term.height as int,
            ),
    {
        let row: usize = if self.cursor_y > self.top_offset { self.cursor_y - self.top_offset } else { 0 };
        let last: usize = if self.term.height > 0 { (self.term.height - 1) as usize } else { 0 };
        let screen_y = if row < last { row } else { last };
        let gutter = gutter_width(self.docu.n_lines());
        let line = &self.docu.lines[self.cursor_y];
        proof {
            crate::line::lemma_width_sum_nonneg(
                line@.subrange(self.left_offset as int, self.cursor_x as int),
            );
        }
        let screen_x = match line.width_between(self.left_offset, self.cursor_x) {
            Some(w) => gutter.saturating_add(w),
            None => usize::MAX,
        };
        (screen_x, screen_y)
    }

    /// Moves the cursor for a movement key and scrolls to keep it in view.
    fn handle_movement(&mut self, direction: Key)
        requires
            old(self).wf(),
        ensures
            final(self).wf(),
            final(self).after_move(old(self), direction),
    {
        match direction {
            Key::Char('h') | Key::Left => {
                if self.cursor_x > 0 {
                    self.cursor_x = self.cursor_x - 1;
                }
            },
            Key::Char('j') | Key::Down => {
                if self.cursor_y < self.docu.n_lines() - 1 {
                    self.cursor_y = self.cursor_y + 1;
                    self.clamp_cursor_column();
                }
            },
            Key::Char('k') | Key::Up => {
                if self.cursor_y > 0 {
                    self.cursor_y = self.cursor_y - 1;
                    self.clamp_cursor_column();
                }
            },
            Key::Char('l') | Key::Right => {
                if self.cursor_x < self.docu.line_len(self.cursor_y) {
                    self.cursor_x = self.cursor_x + 1;
                }
            },
            Key::Char('w') => {
                let (y, x) = self.docu.next_word(self.cursor_y, self.cursor_x);
                self.cursor_y = y;
                self.cursor_x = x;
                proof {
                    crate::words::lemma_word_motions_progress(
                        crate::line::word_classes(self.docu@[old(self).cursor_y as int]),
                        old(self).cursor_x as int,
                    );
                }
            },
            Key::Char('b') => {
                let (y, x) = self.docu.prev_word(self.cursor_y, self.cursor_x);
                self.cursor_y = y;
                self.cursor_x = x;
                proof {
                    crate::words::lemma_word_motions_progress(
                        crate::line::word_classes(self.docu@[old(self).cursor_y as int]),
                        old(self).cursor_x as int,
                    );
                }
            },
            _ => {},
        }
        self.update_offsets();
    }
}

} // verus!
