use vstd::prelude::*;
use syntect::easy::HighlightLines;
use syntect::highlighting::{Style, Theme, ThemeSet};
use syntect::parsing::{SyntaxReference, SyntaxSet};
use crate::text::concat_all;

verus! {

#[verifier::external_type_specification]
#[verifier::external_body]
pub struct ExSyntaxSet(SyntaxSet);

#[verifier::external_type_specification]
#[verifier::external_body]
pub struct ExSyntaxReference(SyntaxReference);

#[verifier::external_type_specification]
#[verifier::external_body]
pub struct ExTheme(Theme);

#[verifier::external_type_specification]
#[verifier::external_body]
pub struct ExThemeSet(ThemeSet);

#[verifier::external_type_specification]
#[verifier::external_body]
pub struct ExStyle(Style);

#[verifier::external_type_specification]
#[verifier::external_body]
pub struct ExHighlightLines<'a>(HighlightLines<'a>);

#[verifier::external_type_specification]
#[verifier::external_body]
pub struct ExSyntectError(syntect::Error);

/// Relies on `SyntaxSet::load_defaults_newlines`: the bundled grammars.
pub assume_specification[ SyntaxSet::load_defaults_newlines ]() -> SyntaxSet;

/// Relies on `ThemeSet::load_defaults`: the bundled themes.
pub assume_specification[ ThemeSet::load_defaults ]() -> ThemeSet;

/// Relies on `SyntaxSet::find_syntax_by_extension`: a lookup that may find
/// nothing.
pub assume_specification<'a>[ SyntaxSet::find_syntax_by_extension ](
    set: &'a SyntaxSet,
    extension: &str,
) -> Option<&'a SyntaxReference>;

/// Relies on `SyntaxSet::find_syntax_by_name`: a lookup that may find
/// nothing.
pub assume_specification<'a>[ SyntaxSet::find_syntax_by_name ](
    set: &'a SyntaxSet,
    name: &str,
) -> Option<&'a SyntaxReference>;

/// Relies on `HighlightLines::new`: a highlighting state at the start of a
/// text.
pub assume_specification<'a>[ HighlightLines::<'a>::new ](
    syntax: &SyntaxReference,
    theme: &'a Theme,
) -> HighlightLines<'a>;

/// Name of the theme the editor draws with.
pub const THEME_NAME: &'static str = "base16-eighties.dark";

/// Name of the grammar used when no grammar matches the file extension.
pub const PLAIN_TEXT: &'static str = "Plain Text";

/// Relies on the `themes` map of a `ThemeSet`: takes out the theme of that
/// name, if there is one.
#[verifier::external_body]
fn take_theme(set: ThemeSet, name: &str) -> Option<Theme> {
    let mut set = set;
    set.themes.remove(name)
}

/// Relies on `Theme::default`: a theme without rules.
#[verifier::external_body]
fn empty_theme() -> Theme {
    Theme::default()
}

/// Relies on the `settings.foreground` field of a `Theme`: sets the default
/// text colour.
#[verifier::external_body]
fn set_theme_foreground(theme: &mut Theme, r: u8, g: u8, b: u8, a: u8) {
    theme.settings.foreground = Some(syntect::highlighting::Color { r, g, b, a });
}

/// Relies on `Style::default`: the style of text no rule applies to.
#[verifier::external_body]
fn plain_style() -> Style {
    Style::default()
}

/// Relies on `HighlightLines::highlight_line`: on success, the pieces of
/// text it returns are consecutive and together make the line.
#[verifier::external_body]
fn highlight_pieces(
    state: &mut HighlightLines,
    line: &str,
    set: &SyntaxSet,
) -> (r: Result<Vec<(Style, String)>, syntect::Error>)
    ensures
        r is Ok ==> concat_all(r->Ok_0@.map_values(|p: (Style, String)| p.1@)) == line@,
{
    state.highlight_line(line, set).map(|v| v.into_iter().map(|(s, t)| (s, t.to_string())).collect())
}

/// A piece of a line together with the style to draw it in.
pub struct HighlightedSegment {
    pub content: String,
    pub style: Style,
}

/// The texts of a sequence of segments.
pub open spec fn segment_texts(v: Seq<HighlightedSegment>) -> Seq<Seq<char>> {
    v.map_values(|s: HighlightedSegment| s.content@)
}

/// The text a sequence of segments covers.
pub open spec fn covered_text(v: Seq<HighlightedSegment>) -> Seq<char> {
    concat_all(segment_texts(v))
}

/// The lexer service: grammars chosen by file extension and one theme.
pub struct Highlighter {
    syntax_set: SyntaxSet,
    theme: Theme,
}

impl Highlighter {
    /// Loads the bundled grammars and the editor's theme.
    pub fn new() -> Self {
        Highlighter { syntax_set: SyntaxSet::load_defaults_newlines(), theme: Self::get_theme() }
    }

    /// The editor's theme, with white as the default text colour.
    fn get_theme() -> Theme {
        let mut theme = match take_theme(ThemeSet::load_defaults(), THEME_NAME) {
            Some(t) => t,
            None => empty_theme(),
        };
        set_theme_foreground(&mut theme, 255, 255, 255, 255);
        theme
    }

    /// Splits a line into styled segments, with the grammar that the file
    /// extension selects (plain text when none does). The segments are
    /// consecutive, in order, and together make the line.
    pub fn highlight_line(&self, line: &str, extension: &str) -> (r: Vec<HighlightedSegment>)
        ensures
            covered_text(r@) == line@,
    {
        let syntax = match self.syntax_set.find_syntax_by_extension(extension) {
            Some(s) => s,
            None => match self.syntax_set.find_syntax_by_name(PLAIN_TEXT) {
                Some(s) => s,
                None => return Self::unstyled(line),
            },
        };
        let mut state = HighlightLines::new(syntax, &self.theme);
        match highlight_pieces(&mut state, line, &self.syntax_set) {
            Ok(pieces) => {
                let ghost texts = pieces@.map_values(|p: (Style, String)| p.1@);
                let mut r: Vec<HighlightedSegment> = Vec::new();
                let mut i: usize = 0;
                while i < pieces.len()
                    invariant
                        i <= pieces.len(),
                        r@.len() == i,
                        texts == pieces@.map_values(|p: (Style, String)| p.1@),
                        segment_texts(r@) == texts.take(i as int),
                    decreases pieces.len() - i,
                {
                    let piece = &pieces[i];
                    let ghost before = r@;
                    r.push(HighlightedSegment { content: piece.1.clone(), style: piece.0 });
                    proof {
                        assert(texts[i as int] == pieces@[i as int].1@);
                        assert forall|k: int| 0 <= k < i + 1 implies #[trigger] segment_texts(r@)[k]
                            == texts.take(i + 1)[k] by {
                            if k < i {
                                assert(segment_texts(before)[k] == texts.take(i as int)[k]);
                            }
                        }
                        assert(segment_texts(r@) =~= texts.take(i + 1));
                    }
                    i = i + 1;
                }
                assert(texts.take(i as int) =~= texts);
                r
            },
            Err(_) => Self::unstyled(line),
        }
    }

    /// The whole line as one segment in the plain style.
    fn unstyled(line: &str) -> (r: Vec<HighlightedSegment>)
        ensures
            covered_text(r@) == line@,
    {
        let r = vec![HighlightedSegment { content: String::from_str(line), style: plain_style() }];
        proof {
            assert(segment_texts(r@) =~= seq![line@]);
            crate::text::lemma_concat_all_one(line@);
        }
        r
    }
}

} // verus!
