//! The argument model: URLs, `key=value` tokens and the command they make.

use vstd::prelude::*;
use vstd::string::*;
use crate::error::ParseError;
use crate::text::{chars_of, string_of};

verus! {

/// What the URL parser found in an input: the URL written out in its
/// normal form, and whether it names a host.
pub struct UrlParts {
    pub text: String,
    pub has_host: bool,
}

/// What `reqwest::Url::parse` makes of `input`: nothing where it refuses the
/// input, else the URL's normal form and whether the URL has a host.
pub uninterp spec fn url_parsed(input: Seq<char>) -> Option<(Seq<char>, bool)>;

/// A character up to the space: a control character of ASCII or the space.
pub open spec fn is_blank(c: char) -> bool {
    c <= ' '
}

/// A letter of ASCII.
pub open spec fn is_ascii_letter(c: char) -> bool {
    'a' <= c <= 'z' || 'A' <= c <= 'Z'
}

/// A character that may stand in a scheme.
pub open spec fn is_scheme_char(c: char) -> bool {
    is_ascii_letter(c) || '0' <= c <= '9' || c == '+' || c == '-' || c == '.'
}

/// A scheme stands in `input` from `start` up to the colon at `colon`: only
/// blanks stand before it, it begins with a letter, and up to the colon only
/// characters of a scheme follow, or blanks.
pub open spec fn is_scheme_at(input: Seq<char>, start: int, colon: int) -> bool {
    &&& 0 <= start < colon < input.len()
    &&& forall|j: int| 0 <= j < start ==> is_blank(#[trigger] input[j])
    &&& is_ascii_letter(input[start])
    &&& input[colon] == ':'
    &&& forall|j: int| start < j < colon ==> is_scheme_char(#[trigger] input[j]) || is_blank(input[j])
}

/// `input` begins with a scheme. The parser drops blanks at the start and,
/// inside, tabs and newlines; a blank counts here wherever it stands, so that
/// an input without a scheme in this sense has none for the parser either.
pub open spec fn has_scheme(input: Seq<char>) -> bool {
    exists|start: int, colon: int| is_scheme_at(input, start, colon)
}

/// Calls `reqwest::Url::parse` on `input`, then `has_host` and the conversion
/// into a `String` on the URL. The outcome is a function of the input. The
/// parser is given no base URL, so it refuses an input that does not begin
/// with a scheme: a letter and characters of a scheme up to a colon, after
/// the blanks that it drops.
#[verifier::external_body]
fn parse_absolute(input: &str) -> (r: Option<UrlParts>)
    ensures
        match r {
            Some(parts) => url_parsed(input@) == Some((parts.text@, parts.has_host)),
            None => url_parsed(input@) is None,
        },
        !has_scheme(input@) ==> r is None,
{
    match reqwest::Url::parse(input) {
        Ok(url) => {
            let has_host = url.has_host();
            Some(UrlParts { text: url.into(), has_host })
        },
        Err(_) => None,
    }
}

/// `input` parses as an absolute URL with a host.
pub open spec fn is_valid_url(input: Seq<char>) -> bool {
    url_parsed(input) matches Some(parts) && parts.1
}

/// `text` is the normal form of some valid URL.
pub open spec fn is_normal_url(text: Seq<char>) -> bool {
    exists|input: Seq<char>| url_parsed(input) == Some((text, true))
}

/// Accepts a parsed URL if it has a host, and gives its normal form.
pub fn validate_url(parsed: Option<UrlParts>) -> (r: Result<String, ParseError>)
    ensures
        r == match parsed {
            Some(parts) => if parts.has_host {
                Ok::<String, ParseError>(parts.text)
            } else {
                Err(ParseError::InvalidUrl)
            },
            None => Err(ParseError::InvalidUrl),
        },
{
    match parsed {
        Some(parts) => if parts.has_host {
            Ok(parts.text)
        } else {
            Err(ParseError::InvalidUrl)
        },
        None => Err(ParseError::InvalidUrl),
    }
}

/// Validates `url` and gives its normal form. An input is accepted exactly
/// when it parses as an absolute URL that has a host. One that does not
/// begin with a scheme is refused, and so is every input without a colon.
pub fn parse_url(url: &str) -> (r: Result<String, ParseError>)
    ensures
        r is Ok <==> is_valid_url(url@),
        r matches Ok(text) ==> url_parsed(url@) == Some((text@, true)) && is_normal_url(text@),
        r matches Err(e) ==> e == ParseError::InvalidUrl,
        !has_scheme(url@) ==> r is Err,
        !url@.contains(':') ==> r is Err,
{
    proof {
        scheme_needs_colon(url@);
    }
    validate_url(parse_absolute(url))
}

/// A scheme ends at a colon: an input without a colon has no scheme, and
/// neither has one whose first character that is no blank is no letter.
pub proof fn scheme_needs_colon(input: Seq<char>)
    ensures
        has_scheme(input) ==> input.contains(':'),
        forall|first: int|
            0 <= first < input.len() && !is_blank(input[first]) && !is_ascii_letter(input[first])
                && (forall|j: int| 0 <= j < first ==> is_blank(#[trigger] input[j]))
                ==> !has_scheme(input),
{
    if has_scheme(input) {
        let (start, colon) = choose|start: int, colon: int| is_scheme_at(input, start, colon);
        assert(input[colon] == ':');
    }
    assert forall|first: int|
        0 <= first < input.len() && !is_blank(input[first]) && !is_ascii_letter(input[first]) && (
        forall|j: int| 0 <= j < first ==> is_blank(#[trigger] input[j])) implies !has_scheme(
        input,
    ) by {
        if has_scheme(input) {
            let (start, colon) = choose|start: int, colon: int| is_scheme_at(input, start, colon);
            if start < first {
                assert(is_blank(input[start]));
            } else if first < start {
                assert(is_blank(input[first]));
            }
        }
    }
}

/// `token` has a `=` with a key before it.
pub open spec fn is_pair_token(token: Seq<char>) -> bool {
    token.len() > 0 && token[0] != '=' && token.contains('=')
}

/// `pair` is `token` cut at its first `=`: the key is what stands before it,
/// the value everything after it.
pub open spec fn is_pair_of(pair: (Seq<char>, Seq<char>), token: Seq<char>) -> bool {
    &&& pair.0.len() > 0
    &&& !pair.0.contains('=')
    &&& token == pair.0 + seq!['='] + pair.1
}

/// One `key=value` token of a POST body.
#[derive(Debug, Clone, PartialEq, Eq)]
pub struct KvPair {
    pub k: String,
    pub v: String,
}

impl View for KvPair {
    type V = (Seq<char>, Seq<char>);

    open spec fn view(&self) -> (Seq<char>, Seq<char>) {
        (self.k@, self.v@)
    }
}

impl KvPair {
    /// Cuts `s` at its first `=`. The value may be empty, the key may not.
    pub fn from_str(s: &str) -> (r: Result<KvPair, ParseError>)
        ensures
            r is Ok <==> is_pair_token(s@),
            r matches Ok(pair) ==> is_pair_of(pair@, s@),
            r matches Err(e) ==> e.refuses(s@),
    {
        let chars = chars_of(s);
        let n = chars.len();
        let mut i: usize = 0;
        while i < n && chars[i] != '='
            invariant
                i <= n == chars.len(),
                forall|j: int| 0 <= j < i ==> chars@[j] != '=',
            decreases n - i,
        {
            i += 1;
        }
        if i == n || i == 0 {
            Err(ParseError::InvalidKeyValue(String::from_str(s)))
        } else {
            let k = string_of(&chars, 0, i);
            let v = string_of(&chars, i + 1, n);
            assert(s@ =~= k@ + seq!['='] + v@);
            Ok(KvPair { k, v })
        }
    }

    /// A copy of this pair.
    pub fn duplicate(&self) -> (out: KvPair)
        ensures
            out@ == self@,
            out == *self,
    {
        KvPair { k: self.k.clone(), v: self.v.clone() }
    }
}

/// The user's intent: one request to make.
#[derive(Debug, Clone, PartialEq, Eq)]
pub enum Command {
    Get { url: String },
    Post { url: String, pairs: Vec<KvPair> },
}

/// The views of `pairs`, in order.
pub open spec fn pairs_view(pairs: Seq<KvPair>) -> Seq<(Seq<char>, Seq<char>)> {
    pairs.map_values(|pair: KvPair| pair@)
}

impl Command {
    /// The target of the request.
    pub open spec fn target(&self) -> Seq<char> {
        match *self {
            Command::Get { url } => url@,
            Command::Post { url, pairs } => url@,
        }
    }

    /// The body pairs, in the order given; none for a GET.
    pub open spec fn fields(&self) -> Seq<(Seq<char>, Seq<char>)> {
        match *self {
            Command::Get { url } => Seq::empty(),
            Command::Post { url, pairs } => pairs_view(pairs@),
        }
    }

    /// The target is the normal form of a valid URL, and every pair has a
    /// key without `=`.
    pub open spec fn wf(&self) -> bool {
        &&& is_normal_url(self.target())
        &&& forall|i: int|
            0 <= i < self.fields().len() ==> {
                &&& (#[trigger] self.fields()[i]).0.len() > 0
                &&& !self.fields()[i].0.contains('=')
            }
    }

    /// The command `get <url>`.
    pub fn get(url: &str) -> (r: Result<Command, ParseError>)
        ensures
            r is Ok <==> is_valid_url(url@),
            r matches Ok(cmd) ==> {
                &&& cmd is Get
                &&& url_parsed(url@) == Some((cmd.target(), true))
                &&& cmd.wf()
            },
            r matches Err(e) ==> e == ParseError::InvalidUrl,
    {
        match parse_url(url) {
            Ok(url) => Ok(Command::Get { url }),
            Err(e) => Err(e),
        }
    }

    /// The command `post <url> [pair...]`. The URL is judged first, then the
    /// tokens from left to right; the pairs keep the tokens' order.
    pub fn post(url: &str, tokens: &Vec<String>) -> (r: Result<Command, ParseError>)
        ensures
            r is Ok <==> is_valid_url(url@) && forall|i: int|
                0 <= i < tokens.len() ==> is_pair_token(#[trigger] tokens[i]@),
            r matches Ok(cmd) ==> {
                &&& cmd is Post
                &&& url_parsed(url@) == Some((cmd.target(), true))
                &&& cmd.fields().len() == tokens.len()
                &&& forall|i: int|
                    0 <= i < tokens.len() ==> is_pair_of(#[trigger] cmd.fields()[i], tokens[i]@)
                &&& cmd.wf()
            },
            r matches Err(e) ==> if is_valid_url(url@) {
                exists|i: int| is_first_bad_token(tokens@, i) && e.refuses(tokens[i]@)
            } else {
                e == ParseError::InvalidUrl
            },
    {
        match parse_url(url) {
            Ok(url) => match parse_pairs(tokens) {
                Ok(pairs) => Ok(Command::Post { url, pairs }),
                Err(e) => Err(e),
            },
            Err(e) => Err(e),
        }
    }
}

/// The token at `i` is no pair, and every token before it is one.
pub open spec fn is_first_bad_token(tokens: Seq<String>, i: int) -> bool {
    &&& 0 <= i < tokens.len()
    &&& !is_pair_token(tokens[i]@)
    &&& forall|j: int| 0 <= j < i ==> is_pair_token(#[trigger] tokens[j]@)
}

/// Parses every token, in order. Fails if one of them is no pair, with the
/// error of the first such token.
pub fn parse_pairs(tokens: &Vec<String>) -> (r: Result<Vec<KvPair>, ParseError>)
    ensures
        r is Ok <==> forall|i: int| 0 <= i < tokens.len() ==> is_pair_token(#[trigger] tokens[i]@),
        r matches Ok(pairs) ==> {
            &&& pairs.len() == tokens.len()
            &&& forall|i: int|
                0 <= i < tokens.len() ==> is_pair_of(#[trigger] pairs_view(pairs@)[i], tokens[i]@)
        },
        r matches Err(e) ==> exists|i: int|
            is_first_bad_token(tokens@, i) && e.refuses(tokens[i]@),
{
    let mut pairs: Vec<KvPair> = Vec::new();
    let mut i: usize = 0;
    while i < tokens.len()
        invariant
            i <= tokens.len(),
            pairs.len() == i,
            forall|j: int| 0 <= j < i ==> is_pair_token(#[trigger] tokens[j]@),
            forall|j: int| 0 <= j < i ==> is_pair_of(#[trigger] pairs_view(pairs@)[j], tokens[j]@),
        decreases tokens.len() - i,
    {
        match KvPair::from_str(tokens[i].as_str()) {
            Ok(pair) => {
                let ghost before = pairs@;
                pairs.push(pair);
                assert forall|j: int| 0 <= j < i + 1 implies is_pair_of(
                    #[trigger] pairs_view(pairs@)[j],
                    tokens[j]@,
                ) by {
                    if j < i {
                        assert(pairs_view(pairs@)[j] == pairs_view(before)[j]);
                    }
                }
            },
            Err(e) => {
                assert(is_first_bad_token(tokens@, i as int) && e.refuses(tokens[i as int]@));
                return Err(e);
            },
        }
        i += 1;
    }
    Ok(pairs)
}

/// A token has at most one cut: the pair that `is_pair_of` describes is the
/// only one, and there is one exactly for the tokens that `is_pair_token`
/// accepts.
pub proof fn pair_is_unique(a: (Seq<char>, Seq<char>), b: (Seq<char>, Seq<char>), token: Seq<char>)
    requires
        is_pair_of(a, token),
        is_pair_of(b, token),
    ensures
        a == b,
        is_pair_token(token),
{
    let x = a.0 + seq!['='] + a.1;
    let y = b.0 + seq!['='] + b.1;
    assert(x[a.0.len() as int] == '=');
    assert(y[b.0.len() as int] == '=');
    if a.0.len() < b.0.len() {
        assert(b.0[a.0.len() as int] == y[a.0.len() as int]);
        assert(b.0.contains('='));
    }
    if b.0.len() < a.0.len() {
        assert(a.0[b.0.len() as int] == x[b.0.len() as int]);
        assert(a.0.contains('='));
    }
    assert(a.0 =~= token.take(a.0.len() as int));
    assert(b.0 =~= token.take(a.0.len() as int));
    assert(a.1 =~= token.skip(a.0.len() as int + 1));
    assert(b.1 =~= token.skip(a.0.len() as int + 1));
    assert(token[0] == a.0[0]);
    assert(token.contains('='));
}

} // verus!
