//! The response renderer: what is printed for a response, and in which
//! order.

use vstd::prelude::*;
use vstd::string::*;
use crate::error::RenderError;
use crate::highlight::{
    highlight,
    highlight_with,
    is_styling_of,
    joined,
    lines_view,
    plain_lines,
    plain_text,
    styling_keeps_text,
    spans_view,
    split_lines,
    styled_lines,
    has_syntax,
    Assets,
    Rgb,
    Span,
    SpanView,
};
use crate::media::{content_type, body_kind, declared_by, kind_of, BodyKind, MediaMatch};
use crate::paint::{blue_on, esc, green_on, is_painted, renewed_without_escape, reset};
use crate::response::{
    render_headers,
    render_status,
    shown_byte,
    shown_bytes,
    shows_header,
    status_line,
    HeaderLine,
    Response,
    ResponseHeader,
};

verus! {

/// A number below a thousand in decimal digits, without leading zeros.
pub open spec fn decimal(n: u8) -> Seq<char> {
    if n < 10 {
        seq![(48 + n) as char]
    } else if n < 100 {
        seq![(48 + n / 10) as char, (48 + n % 10) as char]
    } else {
        seq![(48 + n / 100) as char, (48 + (n / 10) % 10) as char, (48 + n % 10) as char]
    }
}

/// The sequence that sets a colour of 24 bits: the foreground for the
/// ground `'3'`, the background for `'4'`.
pub open spec fn colour_on(ground: char, colour: Rgb) -> Seq<char> {
    seq![esc(), '[', ground, '8', ';', '2', ';'] + decimal(colour.r) + seq![';'] + decimal(
        colour.g,
    ) + seq![';'] + decimal(colour.b) + seq!['m']
}

/// A span for the terminal: its background, its foreground, its text.
pub open spec fn escaped_span(span: SpanView) -> Seq<char> {
    colour_on('4', span.bg) + colour_on('3', span.fg) + span.text
}

/// The spans of a line for the terminal, one after the other. Nothing
/// switches the colours off at the end.
pub open spec fn escaped(spans: Seq<SpanView>) -> Seq<char>
    decreases spans.len(),
{
    if spans.len() == 0 {
        Seq::empty()
    } else {
        escaped(spans.drop_last()) + escaped_span(spans.last())
    }
}

/// The highlighted lines as they are printed: each one escaped, with the
/// newline that it holds and no other.
pub open spec fn styled_text(lines: Seq<Seq<SpanView>>) -> Seq<char>
    decreases lines.len(),
{
    if lines.len() == 0 {
        Seq::empty()
    } else {
        styled_text(lines.drop_last()) + escaped(lines.last())
    }
}

/// The header lines as they are printed: name, colon, space, value, newline.
pub open spec fn header_lines_text(lines: Seq<HeaderLine>) -> Seq<char>
    decreases lines.len(),
{
    if lines.len() == 0 {
        Seq::empty()
    } else {
        header_lines_text(lines.drop_last()) + lines.last().name@ + seq![':', ' ']
            + lines.last().value@ + seq!['\n']
    }
}

/// The body of a response, ready to be printed.
#[derive(Debug, Clone, PartialEq, Eq)]
pub enum Body {
    /// The text as it was received.
    Raw(String),
    /// The spans of each line of the text.
    Styled(Vec<Vec<Span>>),
}

/// A response, ready to be printed.
#[derive(Debug, Clone, PartialEq, Eq)]
pub struct Rendered {
    pub status: String,
    pub headers: Vec<HeaderLine>,
    pub body: Body,
}

/// Appends the decimal digits of `n`.
fn push_decimal(out: &mut String, n: u8)
    ensures
        final(out)@ == old(out)@ + decimal(n),
{
    let ghost before = out@;
    if n >= 100 {
        out.push((48 + n / 100) as char);
    }
    if n >= 10 {
        out.push((48 + (n / 10) % 10) as char);
    }
    out.push((48 + n % 10) as char);
    assert(out@ =~= before + decimal(n));
}

/// Appends the sequence that sets a colour.
fn push_colour(out: &mut String, ground: char, colour: Rgb)
    ensures
        final(out)@ == old(out)@ + colour_on(ground, colour),
{
    let ghost before = out@;
    out.push('\x1b');
    out.push('[');
    out.push(ground);
    out.push('8');
    out.push(';');
    out.push('2');
    out.push(';');
    push_decimal(out, colour.r);
    out.push(';');
    push_decimal(out, colour.g);
    out.push(';');
    push_decimal(out, colour.b);
    out.push('m');
    assert(out@ =~= before + colour_on(ground, colour));
}

/// Writes the spans of a line with escape sequences for a terminal of 24-bit
/// colours: before each span its background and its foreground.
pub fn escape_spans(spans: &Vec<Span>) -> (out: String)
    ensures
        out@ == escaped(spans_view(spans@)),
{
    let mut out = String::new();
    let mut i: usize = 0;
    assert(spans_view(spans@).take(0) =~= Seq::empty());
    while i < spans.len()
        invariant
            i <= spans.len(),
            out@ == escaped(spans_view(spans@).take(i as int)),
        decreases spans.len() - i,
    {
        let ghost before = out@;
        let span = &spans[i];
        push_colour(&mut out, '4', span.bg);
        push_colour(&mut out, '3', span.fg);
        out.append(span.text.as_str());
        proof {
            let seen = spans_view(spans@).take(i + 1);
            assert(seen.drop_last() =~= spans_view(spans@).take(i as int));
            assert(seen.last() == span@);
            assert(out@ =~= before + escaped_span(span@));
        }
        i += 1;
    }
    assert(spans_view(spans@).take(spans.len() as int) =~= spans_view(spans@));
    out
}

impl Body {
    /// What is printed for the body: a raw body as it is, a highlighted one
    /// line by line with its colours. Nothing else is added.
    pub open spec fn spec_text(&self) -> Seq<char> {
        match *self {
            Body::Raw(text) => text@,
            Body::Styled(lines) => styled_text(lines_view(lines@)),
        }
    }

    /// The text to print for the body.
    pub fn text(&self) -> (out: String)
        ensures
            out@ == self.spec_text(),
    {
        match self {
            Body::Raw(text) => String::from_str(text.as_str()),
            Body::Styled(lines) => {
                let mut out = String::new();
                let mut k: usize = 0;
                assert(lines_view(lines@).take(0) =~= Seq::empty());
                while k < lines.len()
                    invariant
                        k <= lines.len(),
                        out@ == styled_text(lines_view(lines@).take(k as int)),
                    decreases lines.len() - k,
                {
                    let ghost before = out@;
                    let line = escape_spans(&lines[k]);
                    out.append(line.as_str());
                    proof {
                        let seen = lines_view(lines@).take(k + 1);
                        assert(seen.drop_last() =~= lines_view(lines@).take(k as int));
                        assert(seen.last() == spans_view(lines[k as int]@));
                        assert(out@ =~= before + escaped(seen.last()));
                    }
                    k += 1;
                }
                assert(lines_view(lines@).take(lines.len() as int) =~= lines_view(lines@));
                out
            },
        }
    }
}

/// The status line with the empty line that follows it.
pub fn status_block(status: &str) -> (out: String)
    ensures
        out@ == status@ + seq!['\n', '\n'],
{
    let mut out = String::from_str(status);
    out.push('\n');
    out.push('\n');
    assert(out@ =~= status@ + seq!['\n', '\n']);
    out
}

/// The header lines with the empty line that follows them.
pub fn headers_block(headers: &Vec<HeaderLine>) -> (out: String)
    ensures
        out@ == header_lines_text(headers@) + seq!['\n'],
{
    let mut out = String::new();
    let mut i: usize = 0;
    assert(headers@.take(0) =~= Seq::empty());
    while i < headers.len()
        invariant
            i <= headers.len(),
            out@ == header_lines_text(headers@.take(i as int)),
        decreases headers.len() - i,
    {
        let ghost before = out@;
        out.append(headers[i].name.as_str());
        out.push(':');
        out.push(' ');
        out.append(headers[i].value.as_str());
        out.push('\n');
        proof {
            let seen = headers@.take(i + 1);
            assert(seen.drop_last() =~= headers@.take(i as int));
            assert(seen.last() == headers[i as int]);
            assert(out@ =~= before + seen.last().name@ + seq![':', ' '] + seen.last().value@
                + seq!['\n']);
        }
        i += 1;
    }
    assert(headers@.take(headers.len() as int) =~= headers@);
    out.push('\n');
    out
}

impl Rendered {
    /// Everything that is printed for the response: the status line and an
    /// empty line, the header lines and an empty line, the body.
    pub open spec fn spec_text(&self) -> Seq<char> {
        self.status@ + seq!['\n', '\n'] + header_lines_text(self.headers@) + seq!['\n']
            + self.body.spec_text()
    }

    /// The text to print for the response.
    pub fn text(&self) -> (out: String)
        ensures
            out@ == self.spec_text(),
    {
        let mut out = status_block(self.status.as_str());
        let headers = headers_block(&self.headers);
        out.append(headers.as_str());
        let body = self.body.text();
        out.append(body.as_str());
        assert(out@ =~= self.spec_text());
        out
    }
}

/// The file extension under which a kind of body finds its syntax.
pub open spec fn extension_of(kind: BodyKind) -> Seq<char> {
    match kind {
        BodyKind::Json => "json"@,
        BodyKind::Html => "html"@,
        BodyKind::Raw => Seq::empty(),
    }
}

/// `rendered` is what `body` is printed as where it is of kind `kind`: a
/// raw body unchanged, another one with the spans that the highlighter for
/// its kind gives each of its lines. The spans of a line hold its text.
pub open spec fn is_body_of(rendered: Body, kind: BodyKind, body: Seq<char>) -> bool {
    match rendered {
        Body::Raw(text) => kind == BodyKind::Raw && text@ == body,
        Body::Styled(styled) => {
            &&& kind != BodyKind::Raw
            &&& lines_view(styled@) == styled_lines(extension_of(kind), split_lines(body))
            &&& is_styling_of(lines_view(styled@), split_lines(body))
        },
    }
}

/// A body of this kind can be rendered: it is printed as it is, or the
/// definitions hold its syntax.
pub open spec fn can_render(kind: BodyKind) -> bool {
    kind == BodyKind::Raw || has_syntax(extension_of(kind))
}

/// The length of the colour sequence that `text` begins with: it ends with
/// the first `m`.
pub open spec fn sequence_len(text: Seq<char>) -> int
    decreases text.len(),
{
    if text.len() == 0 {
        0
    } else if text[0] == 'm' {
        1
    } else {
        1 + sequence_len(text.skip(1))
    }
}

/// `text` without its colour sequences: what a terminal shows of it. A
/// sequence begins with an escape character and ends with the next `m`.
pub open spec fn without_colours(text: Seq<char>) -> Seq<char>
    decreases text.len(),
    via without_colours_decreases
{
    if text.len() == 0 {
        Seq::empty()
    } else if text[0] == esc() {
        without_colours(text.skip(sequence_len(text)))
    } else {
        seq![text[0]] + without_colours(text.skip(1))
    }
}

#[via_fn]
proof fn without_colours_decreases(text: Seq<char>) {
    if text.len() > 0 {
        sequence_len_bounds(text);
    }
}

/// A colour sequence is not empty and lies in the text.
pub proof fn sequence_len_bounds(text: Seq<char>)
    requires
        text.len() > 0,
    ensures
        0 < sequence_len(text) <= text.len(),
    decreases text.len(),
{
    if text[0] != 'm' && text.len() > 1 {
        sequence_len_bounds(text.skip(1));
    } else if text[0] != 'm' {
        assert(sequence_len(text.skip(1)) == 0);
    }
}

/// A sequence whose head holds no `m` ends with the `m` behind the head.
proof fn sequence_ends_at_m(head: Seq<char>, rest: Seq<char>)
    requires
        !head.contains('m'),
    ensures
        sequence_len(head + seq!['m'] + rest) == head.len() + 1,
    decreases head.len(),
{
    let text = head + seq!['m'] + rest;
    if head.len() == 0 {
        assert(text[0] == 'm');
    } else {
        assert(text[0] == head[0]);
        assert(head[0] != 'm');
        assert forall|i: int| 0 <= i < head.skip(1).len() implies head.skip(1)[i] != 'm' by {
            assert(head[i + 1] != 'm');
        }
        sequence_ends_at_m(head.skip(1), rest);
        assert(text.skip(1) =~= head.skip(1) + seq!['m'] + rest);
    }
}

/// The sequence that sets a colour is dropped whole.
proof fn colour_is_dropped(ground: char, colour: Rgb, rest: Seq<char>)
    requires
        ground != 'm',
    ensures
        without_colours(colour_on(ground, colour) + rest) == without_colours(rest),
{
    let head = seq![esc(), '[', ground, '8', ';', '2', ';'] + decimal(colour.r) + seq![';']
        + decimal(colour.g) + seq![';'] + decimal(colour.b);
    let text = colour_on(ground, colour) + rest;
    assert(colour_on(ground, colour) =~= head + seq!['m']);
    assert(text =~= head + seq!['m'] + rest);
    assert forall|i: int| 0 <= i < head.len() implies head[i] != 'm' by {
        let r = decimal(colour.r);
        let g = decimal(colour.g);
        let b = decimal(colour.b);
        assert(forall|k: int| 0 <= k < r.len() ==> r[k] != 'm');
        assert(forall|k: int| 0 <= k < g.len() ==> g[k] != 'm');
        assert(forall|k: int| 0 <= k < b.len() ==> b[k] != 'm');
        if i < 7 {
        } else if i < 7 + r.len() {
            assert(head[i] == r[i - 7]);
        } else if i < 8 + r.len() {
        } else if i < 8 + r.len() + g.len() {
            assert(head[i] == g[i - 8 - r.len()]);
        } else if i < 9 + r.len() + g.len() {
        } else {
            assert(head[i] == b[i - 9 - r.len() - g.len()]);
        }
    }
    sequence_ends_at_m(head, rest);
    assert(text[0] == esc());
    assert(text.skip(head.len() as int + 1) =~= rest);
}

/// A text without an escape character is kept as it is.
proof fn plain_is_kept(text: Seq<char>, rest: Seq<char>)
    requires
        !text.contains(esc()),
    ensures
        without_colours(text + rest) == text + without_colours(rest),
    decreases text.len(),
{
    if text.len() == 0 {
        assert(text + rest =~= rest);
        assert(text + without_colours(rest) =~= without_colours(rest));
    } else {
        let all = text + rest;
        assert(all[0] == text[0]);
        assert(text[0] != esc());
        assert forall|i: int| 0 <= i < text.skip(1).len() implies text.skip(1)[i] != esc() by {
            assert(text[i + 1] != esc());
        }
        plain_is_kept(text.skip(1), rest);
        assert(all.skip(1) =~= text.skip(1) + rest);
        assert(seq![text[0]] + (text.skip(1) + without_colours(rest)) =~= text + without_colours(
            rest,
        ));
    }
}

/// Neither part of a text without an escape character holds one.
proof fn parts_without_escape(a: Seq<char>, b: Seq<char>)
    requires
        !(a + b).contains(esc()),
    ensures
        !a.contains(esc()),
        !b.contains(esc()),
{
    assert forall|i: int| 0 <= i < a.len() implies a[i] != esc() by {
        assert((a + b)[i] == a[i]);
    }
    assert forall|i: int| 0 <= i < b.len() implies b[i] != esc() by {
        assert((a + b)[a.len() + i] == b[i]);
    }
}

/// Of the escaped spans of a line, their text is what is left.
proof fn spans_without_colours(spans: Seq<SpanView>, rest: Seq<char>)
    requires
        !plain_text(spans).contains(esc()),
    ensures
        without_colours(escaped(spans) + rest) == plain_text(spans) + without_colours(rest),
    decreases spans.len(),
{
    if spans.len() == 0 {
        assert(escaped(spans) + rest =~= rest);
        assert(plain_text(spans) + without_colours(rest) =~= without_colours(rest));
    } else {
        let first = spans.drop_last();
        let last = spans.last();
        parts_without_escape(plain_text(first), last.text);
        let tail = escaped_span(last) + rest;
        spans_without_colours(first, tail);
        assert(escaped(spans) + rest =~= escaped(first) + tail);
        colour_is_dropped('4', last.bg, colour_on('3', last.fg) + last.text + rest);
        colour_is_dropped('3', last.fg, last.text + rest);
        plain_is_kept(last.text, rest);
        assert(tail =~= colour_on('4', last.bg) + (colour_on('3', last.fg) + last.text + rest));
        assert(colour_on('3', last.fg) + last.text + rest =~= colour_on('3', last.fg) + (last.text
            + rest));
        assert(plain_text(first) + (last.text + without_colours(rest)) =~= plain_text(spans)
            + without_colours(rest));
    }
}

/// Of the highlighted lines as they are printed, their text is what is left.
proof fn lines_without_colours(lines: Seq<Seq<SpanView>>, rest: Seq<char>)
    requires
        !joined(plain_lines(lines)).contains(esc()),
    ensures
        without_colours(styled_text(lines) + rest) == joined(plain_lines(lines)) + without_colours(
            rest,
        ),
    decreases lines.len(),
{
    if lines.len() == 0 {
        assert(plain_lines(lines) =~= Seq::<Seq<char>>::empty());
        assert(styled_text(lines) + rest =~= rest);
        assert(joined(plain_lines(lines)) + without_colours(rest) =~= without_colours(rest));
    } else {
        let first = lines.drop_last();
        let last = lines.last();
        assert(plain_lines(lines).drop_last() =~= plain_lines(first));
        assert(plain_lines(lines).last() == plain_text(last));
        parts_without_escape(joined(plain_lines(first)), plain_text(last));
        lines_without_colours(first, escaped(last) + rest);
        spans_without_colours(last, rest);
        assert(styled_text(lines) + rest =~= styled_text(first) + (escaped(last) + rest));
        assert(joined(plain_lines(first)) + (plain_text(last) + without_colours(rest)) =~= joined(
            plain_lines(lines),
        ) + without_colours(rest));
    }
}

/// Rendering adds colours and nothing else. What is printed for a body,
/// without its colour sequences, is the body: line for line, in the same
/// order. This is said of a body that holds no escape character itself.
pub proof fn colours_add_nothing(rendered: Body, kind: BodyKind, body: Seq<char>)
    requires
        is_body_of(rendered, kind, body),
        !body.contains(esc()),
    ensures
        without_colours(rendered.spec_text()) == body,
{
    let nothing = Seq::<char>::empty();
    assert(without_colours(nothing) =~= nothing);
    match rendered {
        Body::Raw(text) => {
            plain_is_kept(body, nothing);
            assert(body + nothing =~= body);
        },
        Body::Styled(styled) => {
            let lines = lines_view(styled@);
            styling_keeps_text(lines, body);
            lines_without_colours(lines, nothing);
            assert(styled_text(lines) + nothing =~= styled_text(lines));
            assert(body + nothing =~= body);
        },
    }
}

/// Renders a body of the given kind with the given definitions and theme.
/// A raw body always succeeds; a JSON or HTML body exactly when the
/// definitions know its syntax.
pub fn render_body_with(assets: &Assets, kind: BodyKind, body: &str) -> (r: Result<
    Body,
    RenderError,
>)
    ensures
        r is Ok <==> can_render(kind),
        r matches Ok(rendered) ==> is_body_of(rendered, kind, body@),
        r matches Err(e) ==> e == RenderError::SyntaxNotFound,
{
    match kind {
        BodyKind::Raw => Ok(Body::Raw(String::from_str(body))),
        BodyKind::Json => match highlight_with(assets, body, "json") {
            Ok(styled) => Ok(Body::Styled(styled)),
            Err(e) => Err(e),
        },
        BodyKind::Html => match highlight_with(assets, body, "html") {
            Ok(styled) => Ok(Body::Styled(styled)),
            Err(e) => Err(e),
        },
    }
}

/// Renders a body under its declared content type. A body that is neither
/// JSON nor HTML, or of no declared type, is kept as it is and never fails.
/// For the others the definitions and the theme are loaded, and the body is
/// highlighted exactly when its syntax is among the definitions.
pub fn render_body(found: Option<MediaMatch>, body: &str) -> (r: Result<Body, RenderError>)
    ensures
        r is Ok <==> can_render(kind_of(found)),
        r matches Ok(rendered) ==> is_body_of(rendered, kind_of(found), body@),
        r matches Err(e) ==> e == RenderError::SyntaxNotFound,
{
    match body_kind(found) {
        BodyKind::Raw => Ok(Body::Raw(String::from_str(body))),
        BodyKind::Json => match highlight(body, "json") {
            Ok(styled) => Ok(Body::Styled(styled)),
            Err(e) => Err(e),
        },
        BodyKind::Html => match highlight(body, "html") {
            Ok(styled) => Ok(Body::Styled(styled)),
            Err(e) => Err(e),
        },
    }
}

/// The header lines without colours: name, colon, space, value, newline.
pub open spec fn plain_header_lines(headers: Seq<ResponseHeader>) -> Seq<char>
    decreases headers.len(),
{
    if headers.len() == 0 {
        Seq::empty()
    } else {
        plain_header_lines(headers.drop_last()) + headers.last().name@ + seq![':', ' ']
            + shown_bytes(headers.last().value@) + seq!['\n']
    }
}

/// What a terminal shows of a response: the status line and an empty line,
/// the header lines and an empty line, the body.
pub open spec fn plain_response(response: Response) -> Seq<char> {
    status_line(response.version@, response.status@) + seq!['\n', '\n'] + plain_header_lines(
        response.headers@,
    ) + seq!['\n'] + response.body@
}

/// A sequence that begins with an escape character and ends with its first
/// `m` is dropped whole.
proof fn sequence_is_dropped(head: Seq<char>, rest: Seq<char>)
    requires
        head.len() > 0,
        head[0] == esc(),
        !head.contains('m'),
    ensures
        without_colours(head + seq!['m'] + rest) == without_colours(rest),
{
    let text = head + seq!['m'] + rest;
    sequence_ends_at_m(head, rest);
    assert(text[0] == esc());
    assert(text.skip(head.len() as int + 1) =~= rest);
}

/// Of a painted text without an escape character of its own, the text is
/// what is left.
proof fn painted_without_colours(out: Seq<char>, text: Seq<char>, on: Seq<char>, rest: Seq<char>)
    requires
        is_painted(out, text, on),
        on == blue_on() || on == green_on(),
        !text.contains(esc()),
    ensures
        without_colours(out + rest) == text + without_colours(rest),
{
    if out == text {
        plain_is_kept(text, rest);
    } else {
        renewed_without_escape(text, on);
        let head = on.drop_last();
        let reset_head = seq![esc(), '[', '0'];
        assert(on =~= head + seq!['m']);
        assert(reset() =~= reset_head + seq!['m']);
        assert(head =~= seq![esc(), '[', '3', '4'] || head =~= seq![esc(), '[', '3', '2']);
        assert forall|i: int| 0 <= i < head.len() implies head[i] != 'm' by {}
        assert forall|i: int| 0 <= i < reset_head.len() implies reset_head[i] != 'm' by {}
        sequence_is_dropped(head, text + (reset() + rest));
        plain_is_kept(text, reset() + rest);
        sequence_is_dropped(reset_head, rest);
        assert(out + rest =~= head + seq!['m'] + (text + (reset() + rest)));
        assert(reset() + rest =~= reset_head + seq!['m'] + rest);
    }
}

/// A shown header value holds no escape character.
proof fn shown_value_has_no_escape(value: Seq<u8>)
    ensures
        !shown_bytes(value).contains(esc()),
    decreases value.len(),
{
    if value.len() > 0 {
        shown_value_has_no_escape(value.drop_last());
        let first = shown_bytes(value.drop_last());
        let last = shown_byte(value.last());
        assert forall|i: int| 0 <= i < last.len() implies last[i] != esc() by {}
        assert forall|i: int| 0 <= i < (first + last).len() implies (first + last)[i] != esc() by {
            if i < first.len() {
                assert((first + last)[i] == first[i]);
            } else {
                assert((first + last)[i] == last[i - first.len()]);
            }
        }
    }
}

/// Of the header lines as they are printed, the lines without colours are
/// what is left.
proof fn header_lines_without_colours(
    lines: Seq<HeaderLine>,
    headers: Seq<ResponseHeader>,
    rest: Seq<char>,
)
    requires
        lines.len() == headers.len(),
        forall|i: int| 0 <= i < lines.len() ==> shows_header(#[trigger] lines[i], headers[i]),
        forall|i: int| 0 <= i < headers.len() ==> !(#[trigger] headers[i]).name@.contains(esc()),
    ensures
        without_colours(header_lines_text(lines) + rest) == plain_header_lines(headers)
            + without_colours(rest),
    decreases lines.len(),
{
    if lines.len() == 0 {
        assert(header_lines_text(lines) + rest =~= rest);
        assert(plain_header_lines(headers) + without_colours(rest) =~= without_colours(rest));
    } else {
        let line = lines.last();
        let header = headers.last();
        assert(shows_header(lines[lines.len() - 1], headers[lines.len() - 1]));
        assert(!headers[headers.len() - 1].name@.contains(esc()));
        let after = seq![':', ' '] + line.value@ + seq!['\n'];
        let tail = line.name@ + after + rest;
        assert forall|i: int| 0 <= i < lines.drop_last().len() implies shows_header(
            #[trigger] lines.drop_last()[i],
            headers.drop_last()[i],
        ) by {
            assert(shows_header(lines[i], headers[i]));
        }
        assert forall|i: int| 0 <= i < headers.drop_last().len() implies !(
        #[trigger] headers.drop_last()[i]).name@.contains(esc()) by {
            assert(!headers[i].name@.contains(esc()));
        }
        header_lines_without_colours(lines.drop_last(), headers.drop_last(), tail);
        shown_value_has_no_escape(header.value@);
        assert forall|i: int| 0 <= i < after.len() implies after[i] != esc() by {
            if 2 <= i < 2 + line.value@.len() {
                assert(after[i] == line.value@[i - 2]);
            }
        }
        painted_without_colours(line.name@, header.name@, green_on(), after + rest);
        plain_is_kept(after, rest);
        assert(tail =~= line.name@ + (after + rest));
        assert(header_lines_text(lines) + rest =~= header_lines_text(lines.drop_last()) + tail);
        assert(plain_header_lines(headers.drop_last()) + (header.name@ + (after + without_colours(
            rest,
        ))) =~= plain_header_lines(headers) + without_colours(rest));
    }
}

/// Rendering a response adds colours and nothing else. What is printed,
/// without its colour sequences, is the status line and an empty line, the
/// header lines as `Name: Value` and an empty line, and the body, in this
/// order. This is said of a response whose status line, header names and
/// body hold no escape character themselves.
pub proof fn response_without_colours(rendered: Rendered, response: Response, kind: BodyKind)
    requires
        shows_head(rendered, response),
        is_body_of(rendered.body, kind, response.body@),
        !status_line(response.version@, response.status@).contains(esc()),
        forall|i: int|
            0 <= i < response.headers.len() ==> !(#[trigger] response.headers[i]).name@.contains(
                esc(),
            ),
        !response.body@.contains(esc()),
    ensures
        without_colours(rendered.spec_text()) == plain_response(response),
{
    let status = status_line(response.version@, response.status@);
    let gap = seq!['\n', '\n'];
    let end = seq!['\n'];
    let body_text = rendered.body.spec_text();
    let lines_text = header_lines_text(rendered.headers@);
    let after_lines = end + body_text;
    let after_gap = lines_text + after_lines;
    let after_status = gap + after_gap;
    colours_add_nothing(rendered.body, kind, response.body@);
    assert forall|i: int| 0 <= i < end.len() implies end[i] != esc() by {}
    assert forall|i: int| 0 <= i < gap.len() implies gap[i] != esc() by {}
    plain_is_kept(end, body_text);
    header_lines_without_colours(rendered.headers@, response.headers@, after_lines);
    plain_is_kept(gap, after_gap);
    painted_without_colours(rendered.status@, status, blue_on(), after_status);
    assert(rendered.spec_text() =~= rendered.status@ + after_status);
    assert(status + (gap + (plain_header_lines(response.headers@) + (end + response.body@)))
        =~= plain_response(response));
}

/// `rendered` shows the status line and the headers of `response`, in the
/// order received.
pub open spec fn shows_head(rendered: Rendered, response: Response) -> bool {
    &&& is_painted(
        rendered.status@,
        status_line(response.version@, response.status@),
        blue_on(),
    )
    &&& rendered.headers.len() == response.headers.len()
    &&& forall|i: int|
        0 <= i < rendered.headers.len() ==> shows_header(
            #[trigger] rendered.headers[i],
            response.headers[i],
        )
}

/// Renders a response with the given definitions and theme. It fails with
/// the error of the content type if that is no text or no media type, with
/// a missing syntax if the body is JSON or HTML and the definitions lack
/// it, and not otherwise.
pub fn render_with(assets: &Assets, response: &Response) -> (r: Result<Rendered, RenderError>)
    ensures
        match declared_by(response.headers@) {
            Ok(found) => {
                &&& r is Ok <==> can_render(kind_of(found))
                &&& r matches Ok(rendered) ==> shows_head(rendered, *response) && is_body_of(
                    rendered.body,
                    kind_of(found),
                    response.body@,
                )
                &&& r matches Err(e) ==> e == RenderError::SyntaxNotFound
            },
            Err(e) => r == Err::<Rendered, RenderError>(e),
        },
{
    let status = render_status(response);
    let headers = render_headers(response);
    match content_type(response) {
        Ok(found) => match render_body_with(assets, body_kind(found), response.body.as_str()) {
            Ok(body) => Ok(Rendered { status, headers, body }),
            Err(e) => Err(e),
        },
        Err(e) => Err(e),
    }
}

/// Renders a response: its status line, its headers, and its body under the
/// declared content type. It fails with the error of the content type if
/// that is no text or no media type. A body that is neither JSON nor HTML
/// then never fails; one that is fails exactly when its syntax is missing.
pub fn render(response: &Response) -> (r: Result<Rendered, RenderError>)
    ensures
        match declared_by(response.headers@) {
            Ok(found) => {
                &&& r is Ok <==> can_render(kind_of(found))
                &&& r matches Ok(rendered) ==> shows_head(rendered, *response) && is_body_of(
                    rendered.body,
                    kind_of(found),
                    response.body@,
                )
                &&& r matches Err(e) ==> e == RenderError::SyntaxNotFound
            },
            Err(e) => r == Err::<Rendered, RenderError>(e),
        },
{
    let status = render_status(response);
    let headers = render_headers(response);
    match content_type(response) {
        Ok(found) => match render_body(found, response.body.as_str()) {
            Ok(body) => Ok(Rendered { status, headers, body }),
            Err(e) => Err(e),
        },
        Err(e) => Err(e),
    }
}

} // verus!
