//! Syntax highlighting of a body, line by line.

use vstd::prelude::*;
use vstd::string::*;
use syntect::easy::HighlightLines;
use syntect::highlighting::{Theme, ThemeSet};
use syntect::parsing::SyntaxSet;
use crate::error::RenderError;
use crate::text::{chars_of, string_of};

verus! {

/// A set of syntax definitions of `syntect`.
#[verifier::external_type_specification]
#[verifier::external_body]
pub struct ExSyntaxSet(SyntaxSet);

/// A colour theme of `syntect`.
#[verifier::external_type_specification]
#[verifier::external_body]
pub struct ExTheme(Theme);

/// A highlighter of `syntect`, which remembers the lines it was given.
#[verifier::external_type_specification]
#[verifier::external_body]
pub struct ExHighlightLines<'a>(HighlightLines<'a>);

/// A colour.
#[derive(Debug, Clone, Copy, PartialEq, Eq, Structural)]
pub struct Rgb {
    pub r: u8,
    pub g: u8,
    pub b: u8,
}

/// A piece of a line with the colours it is shown in.
#[derive(Debug, Clone, PartialEq, Eq)]
pub struct Span {
    pub fg: Rgb,
    pub bg: Rgb,
    pub text: String,
}

/// A span as plain values.
pub struct SpanView {
    pub fg: Rgb,
    pub bg: Rgb,
    pub text: Seq<char>,
}

impl View for Span {
    type V = SpanView;

    open spec fn view(&self) -> SpanView {
        SpanView { fg: self.fg, bg: self.bg, text: self.text@ }
    }
}

/// The views of the spans of one line.
pub open spec fn spans_view(spans: Seq<Span>) -> Seq<SpanView> {
    spans.map_values(|span: Span| span@)
}

/// The views of the spans of every line.
pub open spec fn lines_view(lines: Seq<Vec<Span>>) -> Seq<Seq<SpanView>> {
    lines.map_values(|line: Vec<Span>| spans_view(line@))
}

/// The text that the spans hold, without colours.
pub open spec fn plain_text(spans: Seq<SpanView>) -> Seq<char>
    decreases spans.len(),
{
    if spans.len() == 0 {
        Seq::empty()
    } else {
        plain_text(spans.drop_last()) + spans.last().text
    }
}

/// Whether `SyntaxSet::find_syntax_by_extension` finds a syntax for the file
/// extension in the definitions that `syntect` carries.
pub uninterp spec fn has_syntax(extension: Seq<char>) -> bool;

/// The spans that `HighlightLines::highlight` gives for `line`, with the
/// definitions and the theme of an `Assets`, from a highlighter that was
/// made for the file extension and has been given the lines `seen`.
pub uninterp spec fn line_styles(
    extension: Seq<char>,
    seen: Seq<Seq<char>>,
    line: Seq<char>,
) -> Seq<SpanView>;

/// The file extension that a highlighter was made for.
pub uninterp spec fn grammar_of(highlighter: HighlightLines<'_>) -> Seq<char>;

/// The lines that a highlighter has been given, in their order.
pub uninterp spec fn seen_lines(highlighter: HighlightLines<'_>) -> Seq<Seq<char>>;

/// Calls `SyntaxSet::load_defaults_newlines`, which unpacks the definitions
/// that `syntect` carries.
#[verifier::external_body]
fn load_syntaxes() -> SyntaxSet {
    SyntaxSet::load_defaults_newlines()
}

/// Calls `ThemeSet::load_defaults`, which unpacks the themes that `syntect`
/// carries, and takes the theme `base16-ocean.dark` out of its map. The
/// documentation of `load_defaults` lists this key among those of the map,
/// so the theme is there.
#[verifier::external_body]
fn load_theme() -> (r: Option<Theme>)
    ensures
        r is Some,
{
    ThemeSet::load_defaults().themes.remove("base16-ocean.dark")
}

/// What highlighting needs: the syntax definitions and the dark theme that
/// `syntect` carries. Only `Assets::load` makes one, so all hold the same.
pub struct Assets {
    syntaxes: SyntaxSet,
    theme: Theme,
}

impl Assets {
    /// Loads the definitions, for lines that keep their newline, and the dark
    /// theme, which is among the themes carried: loading succeeds.
    pub fn load() -> (r: Result<Assets, RenderError>)
        ensures
            r is Ok,
    {
        match load_theme() {
            Some(theme) => Ok(Assets { syntaxes: load_syntaxes(), theme }),
            None => Err(RenderError::ThemeNotFound),
        }
    }
}

/// Calls `SyntaxSet::find_syntax_by_extension` on the definitions and, on
/// the syntax found, `HighlightLines::new` with the theme. There is a
/// highlighter exactly when the definitions list the extension; it has seen
/// no line.
#[verifier::external_body]
fn start_highlighter<'a>(assets: &'a Assets, extension: &str) -> (r: Option<HighlightLines<'a>>)
    ensures
        r is Some <==> has_syntax(extension@),
        r matches Some(highlighter) ==> grammar_of(highlighter) == extension@ && seen_lines(
            highlighter,
        ) == Seq::<Seq<char>>::empty(),
{
    assets.syntaxes.find_syntax_by_extension(extension).map(
        |syntax| HighlightLines::new(syntax, &assets.theme),
    )
}

/// Calls `HighlightLines::highlight` on the next line, and copies each piece
/// with its foreground and background colour. The highlighter was made from
/// an `Assets`, and every `Assets` holds the same definitions, so these are
/// the definitions that hold its syntax, as the call asks. The spans are a
/// function of the highlighter's extension, of the lines it has seen, and of
/// the line, which it has then seen too. The pieces are not empty, and one
/// after the other they make up the line.
#[verifier::external_body]
fn highlight_line(highlighter: &mut HighlightLines<'_>, line: &str, assets: &Assets) -> (spans: Vec<
    Span,
>)
    ensures
        spans_view(spans@) == line_styles(
            grammar_of(*old(highlighter)),
            seen_lines(*old(highlighter)),
            line@,
        ),
        grammar_of(*final(highlighter)) == grammar_of(*old(highlighter)),
        seen_lines(*final(highlighter)) == seen_lines(*old(highlighter)).push(line@),
        plain_text(spans_view(spans@)) == line@,
        forall|i: int| 0 <= i < spans.len() ==> (#[trigger] spans[i]).text@.len() > 0,
{
    highlighter.highlight(line, &assets.syntaxes).into_iter().map(
        |(style, text)|
            Span {
                fg: Rgb { r: style.foreground.r, g: style.foreground.g, b: style.foreground.b },
                bg: Rgb { r: style.background.r, g: style.background.g, b: style.background.b },
                text: text.to_string(),
            },
    ).collect()
}

/// The length of the first line of `text`, its newline included.
pub open spec fn line_end(text: Seq<char>) -> int
    decreases text.len(),
{
    if text.len() == 0 {
        0
    } else if text[0] == '\n' {
        1
    } else {
        1 + line_end(text.skip(1))
    }
}

/// The lines of `text`. A line ends behind its newline, the last one at the
/// end of the text at the latest; an empty text has no line.
pub open spec fn split_lines(text: Seq<char>) -> Seq<Seq<char>>
    decreases text.len(),
    via split_lines_decreases
{
    if text.len() == 0 {
        Seq::empty()
    } else {
        seq![text.take(line_end(text))] + split_lines(text.skip(line_end(text)))
    }
}

#[via_fn]
proof fn split_lines_decreases(text: Seq<char>) {
    if text.len() > 0 {
        line_end_bounds(text);
    }
}

/// The first line of a text that is not empty is not empty, and lies in
/// the text. No newline stands in it before its last character.
pub proof fn line_end_bounds(text: Seq<char>)
    requires
        text.len() > 0,
    ensures
        0 < line_end(text) <= text.len(),
        forall|i: int| 0 <= i < line_end(text) - 1 ==> text[i] != '\n',
        line_end(text) < text.len() ==> text[line_end(text) - 1] == '\n',
    decreases text.len(),
{
    if text[0] != '\n' {
        let tail = text.skip(1);
        assert(line_end(text) == 1 + line_end(tail));
        if tail.len() == 0 {
            assert(line_end(tail) == 0);
        } else {
            line_end_bounds(tail);
            assert forall|i: int| 0 <= i < line_end(text) - 1 implies text[i] != '\n' by {
                if i > 0 {
                    assert(tail[i - 1] == text[i]);
                }
            }
            if line_end(text) < text.len() {
                assert(tail[line_end(tail) - 1] == text[line_end(text) - 1]);
            }
        }
    } else {
        assert(line_end(text) == 1);
    }
}

/// The lines, one after the other.
pub open spec fn joined(lines: Seq<Seq<char>>) -> Seq<char>
    decreases lines.len(),
{
    if lines.len() == 0 {
        Seq::empty()
    } else {
        joined(lines.drop_last()) + lines.last()
    }
}

/// Putting a line in front puts its text in front.
pub proof fn joined_front(first: Seq<char>, rest: Seq<Seq<char>>)
    ensures
        joined(seq![first] + rest) == first + joined(rest),
    decreases rest.len(),
{
    let all = seq![first] + rest;
    if rest.len() == 0 {
        assert(all.drop_last() =~= Seq::<Seq<char>>::empty());
        assert(all.last() == first);
        assert(joined(all.drop_last()) =~= Seq::<char>::empty());
        assert(joined(rest) =~= Seq::<char>::empty());
        assert(joined(all) =~= first + joined(rest));
    } else {
        joined_front(first, rest.drop_last());
        assert(all.drop_last() =~= seq![first] + rest.drop_last());
        assert(all.last() == rest.last());
        assert(joined(all) =~= first + joined(rest));
    }
}

/// Splitting keeps the text: its lines, one after the other, are the text
/// again. No line is empty, and a newline stands only at the end of a line.
pub proof fn split_lines_keeps_text(text: Seq<char>)
    ensures
        joined(split_lines(text)) == text,
        forall|k: int|
            0 <= k < split_lines(text).len() ==> (#[trigger] split_lines(text)[k]).len() > 0,
        forall|k: int, i: int|
            0 <= k < split_lines(text).len() && 0 <= i < split_lines(text)[k].len() - 1
                ==> #[trigger] split_lines(text)[k][i] != '\n',
        forall|k: int|
            0 <= k < split_lines(text).len() - 1 ==> (#[trigger] split_lines(text)[k]).last()
                == '\n',
    decreases text.len(),
{
    if text.len() > 0 {
        let n = line_end(text);
        line_end_bounds(text);
        let first = text.take(n);
        let rest = split_lines(text.skip(n));
        split_lines_keeps_text(text.skip(n));
        joined_front(first, rest);
        assert(first + text.skip(n) =~= text);
        let all = split_lines(text);
        assert(all == seq![first] + rest);
        assert forall|k: int| 0 <= k < all.len() implies (#[trigger] all[k]).len() > 0 by {
            if k > 0 {
                assert(all[k] == rest[k - 1]);
            }
        }
        assert forall|k: int, i: int| 0 <= k < all.len() && 0 <= i < all[k].len() - 1 implies
            #[trigger] all[k][i] != '\n' by {
            if k > 0 {
                assert(all[k] == rest[k - 1]);
            }
        }
        assert forall|k: int| 0 <= k < all.len() - 1 implies (#[trigger] all[k]).last() == '\n' by {
            if k > 0 {
                assert(all[k] == rest[k - 1]);
            } else {
                assert(rest.len() > 0);
                assert(text.skip(n).len() > 0);
            }
        }
    }
}

/// Cuts `text` into its lines, each with its newline.
pub fn lines_with_endings(text: &str) -> (lines: Vec<String>)
    ensures
        lines@.map_values(|line: String| line@) == split_lines(text@),
{
    let chars = chars_of(text);
    let n = chars.len();
    let mut lines: Vec<String> = Vec::new();
    let mut start: usize = 0;
    assert(chars@.skip(0) =~= chars@);
    while start < n
        invariant
            start <= n == chars.len(),
            chars@ == text@,
            lines@.map_values(|line: String| line@) + split_lines(chars@.skip(start as int))
                == split_lines(chars@),
        decreases n - start,
    {
        let ghost rest = chars@.skip(start as int);
        let mut end: usize = start;
        assert(rest.skip(0) =~= rest);
        while end < n && chars[end] != '\n'
            invariant
                start <= end <= n == chars.len(),
                rest == chars@.skip(start as int),
                line_end(rest) == (end - start) + line_end(rest.skip(end - start)),
            decreases n - end,
        {
            proof {
                let tail = rest.skip(end - start);
                assert(tail[0] == chars@[end as int]);
                assert(tail.skip(1) =~= rest.skip(end + 1 - start));
            }
            end += 1;
        }
        if end < n {
            proof {
                let tail = rest.skip(end - start);
                assert(tail[0] == chars@[end as int]);
            }
            end += 1;
        } else {
            assert(rest.skip(end - start).len() == 0);
        }
        assert(line_end(rest) == end - start);
        let line = string_of(&chars, start, end);
        proof {
            assert(line@ =~= rest.take(line_end(rest)));
            assert(rest.skip(line_end(rest)) =~= chars@.skip(end as int));
            let before = lines@.map_values(|line: String| line@);
            assert(lines@.push(line).map_values(|line: String| line@) =~= before + seq![line@]);
            assert(before + seq![line@] + split_lines(chars@.skip(end as int)) =~= before + (
            seq![line@] + split_lines(chars@.skip(end as int))));
        }
        lines.push(line);
        start = end;
    }
    assert(lines@.map_values(|line: String| line@) + split_lines(chars@.skip(start as int))
        =~= lines@.map_values(|line: String| line@));
    lines
}

/// `styled` colours `lines`: it has the spans of each line in turn, the
/// spans of a line hold its text, and no span is empty.
pub open spec fn is_styling_of(styled: Seq<Seq<SpanView>>, lines: Seq<Seq<char>>) -> bool {
    &&& styled.len() == lines.len()
    &&& forall|k: int| 0 <= k < styled.len() ==> plain_text(#[trigger] styled[k]) == lines[k]
    &&& forall|k: int, i: int|
        0 <= k < styled.len() && 0 <= i < styled[k].len() ==> (#[trigger] styled[k][i]).text.len()
            > 0
}

/// The texts of the styled lines, without colours.
pub open spec fn plain_lines(styled: Seq<Seq<SpanView>>) -> Seq<Seq<char>> {
    styled.map_values(|spans: Seq<SpanView>| plain_text(spans))
}

/// Highlighting keeps the text. A styling of the lines of a body has one
/// line for each line of the body, in the same order and with the same
/// text, so that the styled lines without their colours, one after the
/// other, are the body.
pub proof fn styling_keeps_text(styled: Seq<Seq<SpanView>>, body: Seq<char>)
    requires
        is_styling_of(styled, split_lines(body)),
    ensures
        styled.len() == split_lines(body).len(),
        plain_lines(styled) == split_lines(body),
        joined(plain_lines(styled)) == body,
{
    assert(plain_lines(styled) =~= split_lines(body));
    split_lines_keeps_text(body);
}

/// The spans of every line of a text, from one highlighter that is given
/// the lines in their order.
pub open spec fn styled_lines(extension: Seq<char>, lines: Seq<Seq<char>>) -> Seq<Seq<SpanView>> {
    Seq::new(lines.len(), |k: int| line_styles(extension, lines.take(k), lines[k]))
}

/// Highlights `body` as a file with the given extension, one line after the
/// other through one highlighter, so that what a line opens a later line
/// can close. Fails exactly when the definitions know no syntax for the
/// extension.
pub fn highlight_with(assets: &Assets, body: &str, extension: &str) -> (r: Result<
    Vec<Vec<Span>>,
    RenderError,
>)
    ensures
        r is Ok <==> has_syntax(extension@),
        r matches Ok(styled) ==> {
            &&& lines_view(styled@) == styled_lines(extension@, split_lines(body@))
            &&& is_styling_of(lines_view(styled@), split_lines(body@))
        },
        r matches Err(e) ==> e == RenderError::SyntaxNotFound,
{
    match start_highlighter(assets, extension) {
        Some(highlighter) => {
            let mut highlighter = highlighter;
            let lines = lines_with_endings(body);
            let ghost texts = lines@.map_values(|line: String| line@);
            let mut styled: Vec<Vec<Span>> = Vec::new();
            let mut k: usize = 0;
            assert(texts.take(0) =~= Seq::<Seq<char>>::empty());
            while k < lines.len()
                invariant
                    k <= lines.len(),
                    styled.len() == k,
                    texts == lines@.map_values(|line: String| line@),
                    grammar_of(highlighter) == extension@,
                    seen_lines(highlighter) == texts.take(k as int),
                    forall|j: int|
                        0 <= j < k ==> #[trigger] lines_view(styled@)[j] == line_styles(
                            extension@,
                            texts.take(j),
                            texts[j],
                        ),
                    forall|j: int|
                        0 <= j < k ==> plain_text(#[trigger] lines_view(styled@)[j]) == texts[j],
                    forall|j: int, i: int|
                        0 <= j < k && 0 <= i < lines_view(styled@)[j].len() ==> (
                        #[trigger] lines_view(styled@)[j][i]).text.len() > 0,
                decreases lines.len() - k,
            {
                let spans = highlight_line(&mut highlighter, lines[k].as_str(), assets);
                let ghost before = lines_view(styled@);
                assert forall|i: int| 0 <= i < spans_view(spans@).len() implies (
                #[trigger] spans_view(spans@)[i]).text.len() > 0 by {
                    assert(spans[i].text@.len() > 0);
                }
                assert(texts[k as int] == lines[k as int]@);
                assert(texts.take(k as int).push(texts[k as int]) =~= texts.take(k + 1));
                styled.push(spans);
                assert(lines_view(styled@) =~= before.push(spans_view(spans@)));
                k += 1;
            }
            assert(lines_view(styled@) =~= styled_lines(extension@, split_lines(body@)));
            Ok(styled)
        },
        None => Err(RenderError::SyntaxNotFound),
    }
}

/// Highlights `body` with the definitions and the theme, which it loads
/// first, and then does what `highlight_with` does.
pub fn highlight(body: &str, extension: &str) -> (r: Result<Vec<Vec<Span>>, RenderError>)
    ensures
        r is Ok <==> has_syntax(extension@),
        r matches Ok(styled) ==> {
            &&& lines_view(styled@) == styled_lines(extension@, split_lines(body@))
            &&& is_styling_of(lines_view(styled@), split_lines(body@))
        },
        r matches Err(e) ==> e == RenderError::SyntaxNotFound,
{
    match Assets::load() {
        Ok(assets) => highlight_with(&assets, body, extension),
        Err(e) => Err(e),
    }
}

} // verus!
