//! A received response as plain values, and its status line and headers as
//! terminal text.

use vstd::prelude::*;
use vstd::string::*;
use crate::paint::{blue_on, green_on, is_painted, paint_blue, paint_green};

verus! {

/// One response header. The value is kept as bytes: it need not be text.
#[derive(Debug, Clone, PartialEq, Eq)]
pub struct ResponseHeader {
    pub name: String,
    pub value: Vec<u8>,
}

/// What was received: the protocol version (`HTTP/1.1`), the status code
/// with its reason (`200 OK`), the headers in the order received, and the
/// body as text.
#[derive(Debug, Clone, PartialEq, Eq)]
pub struct Response {
    pub version: String,
    pub status: String,
    pub headers: Vec<ResponseHeader>,
    pub body: String,
}

/// The status line before it is coloured.
pub open spec fn status_line(version: Seq<char>, status: Seq<char>) -> Seq<char> {
    version + seq![' '] + status
}

/// A byte that stands for itself in a header value: printable ASCII or a tab.
pub open spec fn is_visible(b: u8) -> bool {
    32 <= b < 127 || b == 9
}

/// The digit for a number below sixteen.
pub open spec fn hex_digit(n: u8) -> char {
    if n < 10 {
        (48 + n) as char
    } else {
        (87 + n) as char
    }
}

/// How one byte of a header value is shown: a visible byte as its
/// character, any other byte as `\x` and its hexadecimal digits, without a
/// leading zero.
pub open spec fn shown_byte(b: u8) -> Seq<char> {
    if is_visible(b) {
        seq![b as char]
    } else if b < 16 {
        seq!['\\', 'x', hex_digit(b)]
    } else {
        seq!['\\', 'x', hex_digit(b / 16), hex_digit(b % 16)]
    }
}

/// How a header value is shown: its bytes one after the other, so that a
/// value that is text is shown as that text, with nothing around it.
pub open spec fn shown_bytes(bytes: Seq<u8>) -> Seq<char>
    decreases bytes.len(),
{
    if bytes.len() == 0 {
        Seq::empty()
    } else {
        shown_bytes(bytes.drop_last()) + shown_byte(bytes.last())
    }
}

/// The digit for a number below sixteen.
fn hex_char(n: u8) -> (c: char)
    requires
        n < 16,
    ensures
        c == hex_digit(n),
{
    if n < 10 {
        (48 + n) as char
    } else {
        (87 + n) as char
    }
}

/// Shows a header value: its text, with the bytes that are not visible
/// escaped.
pub fn show_value(value: &Vec<u8>) -> (out: String)
    ensures
        out@ == shown_bytes(value@),
{
    let mut out = String::new();
    let mut i: usize = 0;
    assert(value@.take(0) =~= Seq::empty());
    while i < value.len()
        invariant
            i <= value.len(),
            out@ == shown_bytes(value@.take(i as int)),
        decreases value.len() - i,
    {
        let b = value[i];
        proof {
            assert(value@.take(i + 1).drop_last() =~= value@.take(i as int));
            assert(value@.take(i + 1).last() == b);
        }
        let ghost before = out@;
        if (32 <= b && b < 127) || b == 9 {
            out.push(b as char);
        } else if b < 16 {
            out.push('\\');
            out.push('x');
            out.push(hex_char(b));
        } else {
            out.push('\\');
            out.push('x');
            out.push(hex_char(b / 16));
            out.push(hex_char(b % 16));
        }
        assert(out@ =~= before + shown_byte(b));
        i += 1;
    }
    assert(value@.take(value.len() as int) =~= value@);
    out
}

/// The status line as it is printed, coloured blue where the terminal takes
/// colours.
pub fn render_status(response: &Response) -> (out: String)
    ensures
        is_painted(out@, status_line(response.version@, response.status@), blue_on()),
{
    let mut line = String::from_str(response.version.as_str());
    line.push(' ');
    line.append(response.status.as_str());
    assert(line@ =~= status_line(response.version@, response.status@));
    paint_blue(line.as_str())
}

/// One header as it is printed: its name, coloured or not, and its value.
#[derive(Debug, Clone, PartialEq, Eq)]
pub struct HeaderLine {
    pub name: String,
    pub value: String,
}

/// `line` shows `header`: the value as it is shown, the name coloured green
/// or left as it is.
pub open spec fn shows_header(line: HeaderLine, header: ResponseHeader) -> bool {
    &&& line.value@ == shown_bytes(header.value@)
    &&& is_painted(line.name@, header.name@, green_on())
}

/// The headers as they are printed, one line for each, in the order
/// received.
pub fn render_headers(response: &Response) -> (out: Vec<HeaderLine>)
    ensures
        out.len() == response.headers.len(),
        forall|i: int| 0 <= i < out.len() ==> shows_header(#[trigger] out[i], response.headers[i]),
{
    let mut out: Vec<HeaderLine> = Vec::new();
    let mut i: usize = 0;
    while i < response.headers.len()
        invariant
            i <= response.headers.len(),
            out.len() == i,
            forall|j: int| 0 <= j < i ==> shows_header(#[trigger] out[j], response.headers[j]),
        decreases response.headers.len() - i,
    {
        let header = &response.headers[i];
        let line = HeaderLine {
            name: paint_green(header.name.as_str()),
            value: show_value(&header.value),
        };
        out.push(line);
        i += 1;
    }
    out
}

} // verus!
