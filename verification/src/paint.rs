//! Terminal colours for the status line and the header names.

use vstd::prelude::*;
use vstd::string::*;
use colored::Colorize;

verus! {

/// The escape character, with which every terminal sequence starts.
pub open spec fn esc() -> char {
    '\x1b'
}

/// The sequence that switches the foreground to blue.
pub open spec fn blue_on() -> Seq<char> {
    seq![esc(), '[', '3', '4', 'm']
}

/// The sequence that switches the foreground to green.
pub open spec fn green_on() -> Seq<char> {
    seq![esc(), '[', '3', '2', 'm']
}

/// The sequence that switches all colouring off.
pub open spec fn reset() -> Seq<char> {
    seq![esc(), '[', '0', 'm']
}

/// `text` with the colour switched on again behind every reset sequence in
/// it, so that the colour lasts to the end of the text.
pub open spec fn renewed(text: Seq<char>, on: Seq<char>) -> Seq<char>
    decreases text.len(),
{
    if text.len() == 0 {
        Seq::empty()
    } else if text.len() >= 4 && text.take(4) == reset() {
        reset() + on + renewed(text.skip(4), on)
    } else {
        seq![text[0]] + renewed(text.skip(1), on)
    }
}

/// `out` is `text` as it is, or `text` in the colour that `on` switches on:
/// between `on` and the reset sequence, and with the colour renewed inside.
pub open spec fn is_painted(out: Seq<char>, text: Seq<char>, on: Seq<char>) -> bool {
    out == text || out == on + renewed(text, on) + reset()
}

/// A text without an escape character holds no reset sequence: in colour it
/// stands unchanged between `on` and the reset sequence.
pub proof fn renewed_without_escape(text: Seq<char>, on: Seq<char>)
    requires
        !text.contains(esc()),
    ensures
        renewed(text, on) == text,
    decreases text.len(),
{
    if text.len() > 0 {
        assert(text[0] != esc());
        if text.len() >= 4 {
            assert(text.take(4)[0] == text[0]);
            assert(reset()[0] == esc());
        }
        assert forall|i: int| 0 <= i < text.skip(1).len() implies text.skip(1)[i] != esc() by {
            assert(text[i + 1] != esc());
        }
        renewed_without_escape(text.skip(1), on);
        assert(seq![text[0]] + text.skip(1) =~= text);
    }
}

/// Calls `colored::Colorize::blue` on `text` and writes the result out.
/// Whether colours are used depends on the environment and the terminal, so
/// either form may come back.
#[verifier::external_body]
pub(crate) fn paint_blue(text: &str) -> (out: String)
    ensures
        is_painted(out@, text@, blue_on()),
{
    text.blue().to_string()
}

/// Calls `colored::Colorize::green` on `text` and writes the result out.
/// Whether colours are used depends on the environment and the terminal, so
/// either form may come back.
#[verifier::external_body]
pub(crate) fn paint_green(text: &str) -> (out: String)
    ensures
        is_painted(out@, text@, green_on()),
{
    text.green().to_string()
}

} // verus!
