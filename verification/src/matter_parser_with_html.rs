//! Front matter written as an HTML comment of `key: value` lines.

use vstd::prelude::*;

use crate::state::HtmlVars;
use crate::state::ParseFailure;
use crate::state::pairs_view;
use crate::text::find_from;
use crate::text::find_from_str;
use crate::text::match_at;
use crate::text::starts_with;
use crate::text::starts_with_str;

verus! {

/// The split of `s` under the HTML-comment convention: the comment must open
/// the document with `<!--`, the matter text runs to the first `-->`, and
/// the content text is everything after that marker. `None` when the
/// markers are absent.
pub open spec fn html_split(s: Seq<char>) -> Option<(Seq<char>, Seq<char>)> {
    if starts_with(s, "<!--"@) {
        match find_from(s, "-->"@, 4) {
            Some(j) => Some((s.subrange(j + 3, s.len() as int), s.subrange(4, j))),
            None => None,
        }
    } else {
        None
    }
}

/// Horizontal whitespace that is trimmed around keys and values.
pub open spec fn is_matter_ws(c: char) -> bool {
    c == ' ' || c == '\t' || c == '\r'
}

/// The first position at or after `i` holding a non-whitespace character,
/// or the end of `s`.
pub open spec fn trim_lo(s: Seq<char>, i: int) -> int
    decreases s.len() - i + 1,
{
    if i < 0 || i >= s.len() {
        i
    } else if is_matter_ws(s[i]) {
        trim_lo(s, i + 1)
    } else {
        i
    }
}

/// The end of the last non-whitespace character at or before `j`, or 0.
pub open spec fn trim_hi(s: Seq<char>, j: int) -> int
    decreases j,
{
    if j <= 0 || j > s.len() {
        j
    } else if is_matter_ws(s[j - 1]) {
        trim_hi(s, j - 1)
    } else {
        j
    }
}

/// `s` without leading and trailing whitespace.
pub open spec fn trim(s: Seq<char>) -> Seq<char> {
    let lo = trim_lo(s, 0);
    let hi = trim_hi(s, s.len() as int);
    if lo <= hi {
        s.subrange(lo, hi)
    } else {
        Seq::empty()
    }
}

/// The key/value split of one line at its first colon, both sides trimmed;
/// `None` when the line has no colon.
pub open spec fn line_kv(l: Seq<char>) -> Option<(Seq<char>, Seq<char>)> {
    match find_from(l, ":"@, 0) {
        Some(j) => Some((trim(l.subrange(0, j)), trim(l.subrange(j + 1, l.len() as int)))),
        None => None,
    }
}

/// Fold one line into the pairs parsed from the lines after it: a blank line
/// is skipped, a `key: value` line contributes a pair, and a non-blank line
/// without a colon fails the whole parse.
pub open spec fn combine_line(
    line: Seq<char>,
    rest: Option<Seq<(Seq<char>, Seq<char>)>>,
) -> Option<Seq<(Seq<char>, Seq<char>)>> {
    if trim(line).len() == 0 {
        rest
    } else {
        match line_kv(line) {
            Some(kv) => match rest {
                Some(ps) => Some(seq![kv] + ps),
                None => None,
            },
            None => None,
        }
    }
}

/// The key/value pairs of a whole matter text, line by line, in order.
pub open spec fn parse_kv(s: Seq<char>) -> Option<Seq<(Seq<char>, Seq<char>)>>
    decreases s.len(),
    via parse_kv_dec
{
    match find_from(s, "\n"@, 0) {
        Some(j) => combine_line(s.subrange(0, j), parse_kv(s.subrange(j + 1, s.len() as int))),
        None => combine_line(s, Some(Seq::empty())),
    }
}

#[via_fn]
proof fn parse_kv_dec(s: Seq<char>) {
    reveal_strlit("\n");
    match find_from(s, "\n"@, 0) {
        Some(j) => {
            crate::text::lemma_find_from_is_first(s, "\n"@, 0, j);
        },
        None => {},
    }
}

/// What one line contributes to the parse.
enum LineAction {
    Skip,
    Pair(String, String),
    Bad,
}

/// Decide whether `c` is trimmed whitespace.
fn is_ws_char(c: char) -> (b: bool)
    ensures
        b == is_matter_ws(c),
{
    c == ' ' || c == '\t' || c == '\r'
}

/// `trim_hi` never runs below 0.
proof fn lemma_trim_hi_le(s: Seq<char>, j: int)
    requires
        0 <= j <= s.len(),
    ensures
        0 <= trim_hi(s, j) <= j,
    decreases j,
{
    if j > 0 && is_matter_ws(s[j - 1]) {
        lemma_trim_hi_le(s, j - 1);
    }
}

/// Trim whitespace from both ends of `s`.
fn trim_str(s: &str) -> (r: String)
    ensures
        r@ == trim(s@),
{
    let n = s.unicode_len();
    let mut lo: usize = 0;
    while lo < n && is_ws_char(s.get_char(lo))
        invariant
            n == s@.len(),
            0 <= lo <= n,
            trim_lo(s@, 0) == trim_lo(s@, lo as int),
        decreases n - lo,
    {
        lo += 1;
    }
    assert(trim_lo(s@, 0) == lo);
    let mut hi: usize = n;
    while hi > lo && is_ws_char(s.get_char(hi - 1))
        invariant
            n == s@.len(),
            lo <= hi <= n,
            trim_hi(s@, n as int) == trim_hi(s@, hi as int),
        decreases hi,
    {
        hi -= 1;
    }
    proof {
        if hi > lo {
            assert(trim_hi(s@, hi as int) == hi);
        } else {
            lemma_trim_hi_le(s@, hi as int);
            assert(s@.subrange(lo as int, lo as int) =~= Seq::<char>::empty());
        }
    }
    s.substring_char(lo, hi).to_owned()
}

/// Classify one line of matter text.
fn line_action(line: &str) -> (r: LineAction)
    ensures
        trim(line@).len() == 0 ==> r is Skip,
        trim(line@).len() != 0 ==> match line_kv(line@) {
            Some(kv) => r matches LineAction::Pair(k, v) && k@ == kv.0 && v@ == kv.1,
            None => r is Bad,
        },
{
    proof {
        reveal_strlit(":");
    }
    let t = trim_str(line);
    if t.as_str().unicode_len() == 0 {
        return LineAction::Skip;
    }
    let n = line.unicode_len();
    match find_from_str(line, ":", 0) {
        Some(j) => {
            proof {
                crate::text::lemma_find_from_is_first(line@, ":"@, 0, j as int);
            }
            let k = trim_str(line.substring_char(0, j));
            let v = trim_str(line.substring_char(j + 1, n));
            LineAction::Pair(k, v)
        },
        None => LineAction::Bad,
    }
}

/// Recognizes an HTML-comment matter block and parses its `key: value`
/// lines.
pub struct MatterParserWithHTML {}

impl MatterParserWithHTML {
    /// Split mix text into content text and matter text at the comment
    /// markers.
    pub fn parse_mix_text_to_content_text_and_matter_text(&self, mix_text: &str) -> (r: Result<
        (String, String),
        ParseFailure,
    >)
        ensures
            match html_split(mix_text@) {
                Some(cm) => r matches Ok(p) && p.0@ == cm.0 && p.1@ == cm.1,
                None => r == Err::<(String, String), ParseFailure>(
                    ParseFailure::StructuralMismatch,
                ),
            },
    {
        proof {
            reveal_strlit("<!--");
            reveal_strlit("-->");
        }
        if !starts_with_str(mix_text, "<!--") {
            return Err(ParseFailure::StructuralMismatch);
        }
        match find_from_str(mix_text, "-->", 4) {
            Some(j) => {
                proof {
                    crate::text::lemma_find_from_is_first(mix_text@, "-->"@, 4, j as int);
                }
                let n = mix_text.unicode_len();
                let matter = mix_text.substring_char(4, j).to_owned();
                let content = mix_text.substring_char(j + 3, n).to_owned();
                Ok((content, matter))
            },
            None => Err(ParseFailure::StructuralMismatch),
        }
    }

    /// Parse matter text into key/value pairs, line by line.
    pub fn parse_matter_text_to_state(&self, matter_text: &str) -> (r: Result<
        HtmlVars,
        ParseFailure,
    >)
        ensures
            match parse_kv(matter_text@) {
                Some(ps) => r matches Ok(h) && h.kv_view() == ps,
                None => r == Err::<HtmlVars, ParseFailure>(ParseFailure::DeserializationError),
            },
    {
        proof {
            reveal_strlit("\n");
        }
        let mut pairs: Vec<(String, String)> = Vec::new();
        let mut rem: &str = matter_text;
        proof {
            if let Some(ps) = parse_kv(matter_text@) {
                assert(pairs_view(pairs@) + ps =~= ps);
            }
        }
        loop
            invariant
                match parse_kv(rem@) {
                    Some(ps) => parse_kv(matter_text@) == Some(pairs_view(pairs@) + ps),
                    None => parse_kv(matter_text@) is None,
                },
            decreases rem@.len(),
        {
            proof {
                reveal_strlit("\n");
            }
            let rem_len = rem.unicode_len();
            match find_from_str(rem, "\n", 0) {
                Some(j) => {
                    proof {
                        crate::text::lemma_find_from_is_first(rem@, "\n"@, 0, j as int);
                    }
                    let line = rem.substring_char(0, j);
                    match line_action(line) {
                        LineAction::Skip => {},
                        LineAction::Pair(k, v) => {
                            proof {
                                lemma_pairs_view_push(pairs@, k, v);
                                let kv = (k@, v@);
                                if let Some(ps) = parse_kv(rem@.subrange(
                                    j + 1,
                                    rem@.len() as int,
                                )) {
                                    assert(pairs_view(pairs@).push(kv) + ps =~= pairs_view(pairs@)
                                        + (seq![kv] + ps));
                                }
                            }
                            pairs.push((k, v));
                        },
                        LineAction::Bad => {
                            return Err(ParseFailure::DeserializationError);
                        },
                    }
                    rem = rem.substring_char(j + 1, rem_len);
                },
                None => {
                    match line_action(rem) {
                        LineAction::Skip => {
                            proof {
                                assert(pairs_view(pairs@) + Seq::<
                                    (Seq<char>, Seq<char>),
                                >::empty() =~= pairs_view(pairs@));
                            }
                            return Ok(HtmlVars { pairs });
                        },
                        LineAction::Pair(k, v) => {
                            proof {
                                lemma_pairs_view_push(pairs@, k, v);
                                assert(pairs_view(pairs@).push((k@, v@)) =~= pairs_view(pairs@) + (
                                seq![(k@, v@)] + Seq::<(Seq<char>, Seq<char>)>::empty()));
                            }
                            pairs.push((k, v));
                            return Ok(HtmlVars { pairs });
                        },
                        LineAction::Bad => {
                            return Err(ParseFailure::DeserializationError);
                        },
                    }
                },
            }
        }
    }

    /// Split mix text at the comment markers and parse the matter lines;
    /// both must succeed.
    pub fn parse_mix_text_to_content_text_and_state(&self, mix_text: &str) -> (r: Result<
        (String, HtmlVars),
        ParseFailure,
    >)
        ensures
            match html_split(mix_text@) {
                Some(cm) => match parse_kv(cm.1) {
                    Some(ps) => r matches Ok(p) && p.0@ == cm.0 && p.1.kv_view() == ps,
                    None => r == Err::<(String, HtmlVars), ParseFailure>(
                        ParseFailure::DeserializationError,
                    ),
                },
                None => r == Err::<(String, HtmlVars), ParseFailure>(
                    ParseFailure::StructuralMismatch,
                ),
            },
    {
        let (content_text, matter_text) = match self.parse_mix_text_to_content_text_and_matter_text(
            mix_text,
        ) {
            Ok(p) => p,
            Err(e) => {
                return Err(e);
            },
        };
        match self.parse_matter_text_to_state(matter_text.as_str()) {
            Ok(state) => Ok((content_text, state)),
            Err(_e) => Err(ParseFailure::DeserializationError),
        }
    }
}

/// A document assembled from the comment markers, a matter body in which
/// the closing marker does not occur early, and arbitrary content splits
/// into exactly that content and that matter body.
pub proof fn lemma_split_of_composed(body: Seq<char>, rest: Seq<char>)
    requires
        find_from(body + "-->"@, "-->"@, 0) == Some(body.len() as int),
    ensures
        html_split("<!--"@ + body + "-->"@ + rest) == Some((rest, body)),
{
    reveal_strlit("<!--");
    reveal_strlit("-->");
    let open = "<!--"@;
    let close = "-->"@;
    let s = open + body + close + rest;
    let w = body + close;
    let j0 = 4 + body.len() as int;
    assert forall|k: int| 0 <= k < w.len() implies s[4 + k] == w[k] by {}
    assert(match_at(s, close, j0)) by {
        assert forall|t: int| 0 <= t < 3 implies s.subrange(j0, j0 + 3)[t] == close[t] by {
            assert(s[j0 + t] == w[body.len() + t]);
        }
        assert(s.subrange(j0, j0 + 3) =~= close);
    }
    crate::text::lemma_find_from_is_first(w, close, 0, body.len() as int);
    assert forall|k: int| 4 <= k < j0 implies !match_at(s, close, k) by {
        if match_at(s, close, k) {
            assert forall|t: int| 0 <= t < 3 implies w.subrange(k - 4, k - 1)[t] == close[t] by {
                assert(w[k - 4 + t] == s[k + t]);
                assert(s.subrange(k, k + 3)[t] == s[k + t]);
            }
            assert(w.subrange(k - 4, k - 1) =~= close);
            assert(match_at(w, close, k - 4));
        }
    }
    crate::text::lemma_find_from_exact(s, close, 4, j0);
    assert(s.subrange(0, 4) =~= open);
    assert(s.subrange(j0 + 3, s.len() as int) =~= rest);
    assert(s.subrange(4, j0) =~= body);
}

/// Splitting is lossless: the opening marker, the matter text, the closing
/// marker and the content text reassemble the original input exactly, no
/// byte gained or lost.
pub proof fn lemma_split_round_trip(s: Seq<char>, content: Seq<char>, matter: Seq<char>)
    requires
        html_split(s) == Some((content, matter)),
    ensures
        s =~= "<!--"@ + matter + "-->"@ + content,
{
    reveal_strlit("<!--");
    reveal_strlit("-->");
    match find_from(s, "-->"@, 4) {
        Some(j) => {
            crate::text::lemma_find_from_is_first(s, "-->"@, 4, j);
            let t = "<!--"@ + matter + "-->"@ + content;
            assert forall|i: int| 0 <= i < s.len() implies t[i] == s[i] by {
                if i < 4 {
                    assert(s.subrange(0, 4)[i] == s[i]);
                } else if i < j {
                    assert(s.subrange(4, j)[i - 4] == s[i]);
                } else if i < j + 3 {
                    assert(s.subrange(j, j + 3)[i - j] == s[i]);
                } else {
                    assert(s.subrange(j + 3, s.len() as int)[i - (j + 3)] == s[i]);
                }
            }
        },
        None => {},
    }
}

/// Appending a pair to a vector appends its view to the view of the vector.
proof fn lemma_pairs_view_push(ps: Seq<(String, String)>, k: String, v: String)
    ensures
        pairs_view(ps.push((k, v))) =~= pairs_view(ps).push((k@, v@)),
{
}

} // verus!
