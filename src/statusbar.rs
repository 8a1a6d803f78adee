use vstd::prelude::*;
use crate::mode::{mode_label, Mode};
use crate::text::{decimal, push_char, push_decimal};
use crate::viewport::{lemma_decimal_len_bound, pow10};

verus! {

/// `n` spaces.
pub open spec fn spaces(n: nat) -> Seq<char> {
    Seq::new(n, |i: int| ' ')
}

/// A text padded with spaces on the right up to `w` characters.
pub open spec fn pad_right(s: Seq<char>, w: int) -> Seq<char> {
    if s.len() >= w {
        s
    } else {
        s + spaces((w - s.len()) as nat)
    }
}

/// A text padded with spaces on the left up to `w` characters.
pub open spec fn pad_left(s: Seq<char>, w: int) -> Seq<char> {
    if s.len() >= w {
        s
    } else {
        spaces((w - s.len()) as nat) + s
    }
}

/// The left part of the status bar: file name, unsaved marker and mode.
pub open spec fn status_left(file_name: Seq<char>, mode: Mode, unsaved: bool) -> Seq<char> {
    " "@ + file_name + (if unsaved {
        " [+]"@
    } else {
        "    "@
    }) + "│ "@ + mode_label(mode)
}

/// The right part of the status bar: cursor column, cursor line (at most
/// the line count) and the last line index.
pub open spec fn status_right(cursor_y: u16, cursor_x: u16, n_lines: u16) -> Seq<char> {
    decimal(cursor_x as nat) + " │ "@ + decimal(
        if cursor_y <= n_lines {
            cursor_y
        } else {
            n_lines
        } as nat,
    ) + "/"@ + decimal((n_lines - 1) as nat) + "  "@
}

/// The number of UTF-8 bytes of the right part: it holds one `│`, which
/// takes three bytes, and otherwise one-byte characters.
pub open spec fn status_right_bytes(cursor_y: u16, cursor_x: u16, n_lines: u16) -> int {
    status_right(cursor_y, cursor_x, n_lines).len() + 2int
}

/// The status bar line: the left part padded to the width that the right
/// part leaves, a separator, then the right part padded to one less than
/// its byte length.
pub open spec fn status_line(
    file_name: Seq<char>,
    mode: Mode,
    width: u16,
    unsaved: bool,
    cursor_y: u16,
    cursor_x: u16,
    n_lines: u16,
) -> Seq<char> {
    let right = status_right(cursor_y, cursor_x, n_lines);
    let bytes = status_right_bytes(cursor_y, cursor_x, n_lines);
    pad_right(status_left(file_name, mode, unsaved), width - bytes - 2) + "│"@ + pad_left(
        right,
        bytes - 1,
    )
}

/// What the status bar shows about the session.
pub struct StatusBar {
    pub file_name: String,
    pub mode: Mode,
    pub line_number: u16,
    pub has_unsaved_changes: bool,
}

/// Appends `n` spaces.
fn push_spaces(s: &mut String, n: usize)
    ensures
        final(s)@ == old(s)@ + spaces(n as nat),
{
    let mut i: usize = 0;
    while i < n
        invariant
            i <= n,
            s@ == old(s)@ + spaces(i as nat),
        decreases n - i,
    {
        push_char(s, ' ');
        i = i + 1;
        assert(s@ =~= old(s)@ + spaces(i as nat));
    }
}

/// The right part of the status bar.
fn right_part(cursor_y: u16, cursor_x: u16, n_lines: u16) -> (r: String)
    requires
        n_lines >= 1,
    ensures
        r@ == status_right(cursor_y, cursor_x, n_lines),
{
    let mut right = String::new();
    push_decimal(&mut right, cursor_x as usize);
    right.append(" │ ");
    push_decimal(&mut right, if cursor_y <= n_lines { cursor_y } else { n_lines } as usize);
    right.append("/");
    push_decimal(&mut right, (n_lines - 1) as usize);
    right.append("  ");
    assert(right@ =~= status_right(cursor_y, cursor_x, n_lines));
    right
}

impl StatusBar {
    pub fn new(file_name: String, mode: Mode, line_number: u16, has_unsaved_changes: bool) -> (r: Self)
        ensures
            r.file_name == file_name,
            r.mode == mode,
            r.line_number == line_number,
            r.has_unsaved_changes == has_unsaved_changes,
    {
        StatusBar { file_name, mode, line_number, has_unsaved_changes }
    }

    /// The narrowest terminal width that the status bar line can be laid
    /// out in for this cursor and line count.
    pub fn min_width(cursor_y: u16, cursor_x: u16, n_lines: u16) -> (r: usize)
        requires
            n_lines >= 1,
        ensures
            r == status_right_bytes(cursor_y, cursor_x, n_lines) + 2,
    {
        let right = right_part(cursor_y, cursor_x, n_lines);
        proof {
            reveal_with_fuel(pow10, 6);
            lemma_decimal_len_bound(cursor_x as nat, 5);
            lemma_decimal_len_bound(if cursor_y <= n_lines { cursor_y } else { n_lines } as nat, 5);
            lemma_decimal_len_bound((n_lines - 1) as nat, 5);
            reveal_strlit(" │ ");
            reveal_strlit("/");
            reveal_strlit("  ");
        }
        right.as_str().unicode_len() + 4
    }

    /// The status bar line for a terminal `width` cells wide.
    pub fn format(
        &self,
        width: u16,
        unsaved: bool,
        cursor_y: u16,
        cursor_x: u16,
        n_lines: u16,
    ) -> (r: String)
        requires
            n_lines >= 1,
            width >= status_right_bytes(cursor_y, cursor_x, n_lines) + 2,
        ensures
            r@ == status_line(
                self.file_name@,
                self.mode,
                width,
                unsaved,
                cursor_y,
                cursor_x,
                n_lines,
            ),
    {
        let mut left = String::from_str(" ");
        left.append(self.file_name.as_str());
        if unsaved {
            left.append(" [+]");
        } else {
            left.append("    ");
        }
        left.append("│ ");
        let mode = self.mode.to_string();
        left.append(mode.as_str());
        assert(left@ =~= status_left(self.file_name@, self.mode, unsaved));

        let right = right_part(cursor_y, cursor_x, n_lines);
        let right_chars = right.as_str().unicode_len();
        let right_bytes = right_chars + 2;

        let left_width = width as usize - right_bytes - 2;
        let left_chars = left.as_str().unicode_len();
        let mut r = left;
        if left_chars < left_width {
            push_spaces(&mut r, left_width - left_chars);
        }
        r.append("│");
        if right_chars < right_bytes - 1 {
            push_spaces(&mut r, right_bytes - 1 - right_chars);
        }
        r.append(right.as_str());
        r
    }
}

} // verus!
