//! Front matter written as TOML between `+++` delimiter lines.

use vstd::prelude::*;

use crate::state::ParseFailure;
use crate::text::find_from;
use crate::text::find_from_str;
use crate::text::match_at;
use crate::text::starts_with;
use crate::text::starts_with_str;

verus! {

#[verifier::external_type_specification]
#[verifier::external_body]
pub struct ExTomlValue(toml::Value);

/// Whether `s` parses as a TOML document. `toml::Value`'s `FromStr` is a
/// function of its input alone, so its success is too.
pub uninterp spec fn toml_parses(s: Seq<char>) -> bool;

/// The split of `s` under the TOML delimiter convention: the matter text sits
/// between an opening `+++` line and the first closing `+++` line, and keeps
/// its trailing newline; the content text is everything after the closing
/// line. `None` when the delimiters are absent.
pub open spec fn toml_split(s: Seq<char>) -> Option<(Seq<char>, Seq<char>)> {
    if starts_with(s, "+++\n"@) {
        match find_from(s, "\n+++\n"@, 4) {
            Some(j) => Some((s.subrange(j + 5, s.len() as int), s.subrange(4, j + 1))),
            None => None,
        }
    } else {
        None
    }
}

/// Recognizes TOML front matter and parses it with the toml crate.
pub struct MatterParserWithTOML {}

impl MatterParserWithTOML {
    /// Split mix text into content text and matter text at the TOML
    /// delimiter lines.
    pub fn parse_mix_text_to_content_text_and_matter_text(&self, mix_text: &str) -> (r: Result<
        (String, String),
        ParseFailure,
    >)
        ensures
            match toml_split(mix_text@) {
                Some(cm) => r matches Ok(p) && p.0@ == cm.0 && p.1@ == cm.1,
                None => r == Err::<(String, String), ParseFailure>(
                    ParseFailure::StructuralMismatch,
                ),
            },
    {
        proof {
            reveal_strlit("+++\n");
            reveal_strlit("\n+++\n");
        }
        if !starts_with_str(mix_text, "+++\n") {
            return Err(ParseFailure::StructuralMismatch);
        }
        match find_from_str(mix_text, "\n+++\n", 4) {
            Some(j) => {
                proof {
                    crate::text::lemma_find_from_is_first(mix_text@, "\n+++\n"@, 4, j as int);
                }
                let n = mix_text.unicode_len();
                let matter = mix_text.substring_char(4, j + 1).to_owned();
                let content = mix_text.substring_char(j + 5, n).to_owned();
                Ok((content, matter))
            },
            None => Err(ParseFailure::StructuralMismatch),
        }
    }

    /// Parse matter text into a TOML value.
    pub fn parse_matter_text_to_state(&self, matter_text: &str) -> (r: Result<
        toml::Value,
        ParseFailure,
    >)
        ensures
            (r is Ok) == toml_parses(matter_text@),
            (r is Err) ==> r == Err::<toml::Value, ParseFailure>(
                ParseFailure::DeserializationError,
            ),
    {
        match parse_matter_text_to_vars(matter_text) {
            Ok(v) => Ok(v),
            Err(_e) => Err(ParseFailure::DeserializationError),
        }
    }

    /// Split mix text at the TOML delimiters and parse the matter text; both
    /// must succeed.
    pub fn parse_mix_text_to_content_text_and_state(&self, mix_text: &str) -> (r: Result<
        (String, toml::Value),
        ParseFailure,
    >)
        ensures
            match toml_split(mix_text@) {
                Some(cm) => if toml_parses(cm.1) {
                    r matches Ok(p) && p.0@ == cm.0
                } else {
                    r == Err::<(String, toml::Value), ParseFailure>(
                        ParseFailure::DeserializationError,
                    )
                },
                None => r == Err::<(String, toml::Value), ParseFailure>(
                    ParseFailure::StructuralMismatch,
                ),
            },
    {
        let (content_text, matter_text) = match self.parse_mix_text_to_content_text_and_matter_text(
            mix_text,
        ) {
            Ok(p) => p,
            Err(e) => {
                return Err(e);
            },
        };
        match self.parse_matter_text_to_state(matter_text.as_str()) {
            Ok(state) => Ok((content_text, state)),
            Err(_e) => Err(ParseFailure::DeserializationError),
        }
    }
}

/// A document assembled from the delimiter lines, a matter body in which
/// the closing delimiter does not occur early, and arbitrary content splits
/// into exactly that content and that matter body with its line ending.
pub proof fn lemma_split_of_composed(body: Seq<char>, rest: Seq<char>)
    requires
        find_from(body + "\n+++\n"@, "\n+++\n"@, 0) == Some(body.len() as int),
    ensures
        toml_split("+++\n"@ + body + "\n+++\n"@ + rest) == Some((rest, body.push('\n'))),
{
    reveal_strlit("+++\n");
    reveal_strlit("\n+++\n");
    let open = "+++\n"@;
    let close = "\n+++\n"@;
    let s = open + body + close + rest;
    let w = body + close;
    let j0 = 4 + body.len() as int;
    assert forall|k: int| 0 <= k < w.len() implies s[4 + k] == w[k] by {}
    assert(match_at(s, close, j0)) by {
        assert forall|t: int| 0 <= t < 5 implies s.subrange(j0, j0 + 5)[t] == close[t] by {
            assert(s[j0 + t] == w[body.len() + t]);
        }
        assert(s.subrange(j0, j0 + 5) =~= close);
    }
    crate::text::lemma_find_from_is_first(w, close, 0, body.len() as int);
    assert forall|k: int| 4 <= k < j0 implies !match_at(s, close, k) by {
        if match_at(s, close, k) {
            assert forall|t: int| 0 <= t < 5 implies w.subrange(k - 4, k + 1)[t] == close[t] by {
                assert(w[k - 4 + t] == s[k + t]);
                assert(s.subrange(k, k + 5)[t] == s[k + t]);
            }
            assert(w.subrange(k - 4, k + 1) =~= close);
            assert(match_at(w, close, k - 4));
        }
    }
    crate::text::lemma_find_from_exact(s, close, 4, j0);
    assert(s.subrange(0, 4) =~= open);
    assert(s.subrange(j0 + 5, s.len() as int) =~= rest);
    assert(s.subrange(4, j0 + 1) =~= body.push('\n'));
}

/// Splitting is lossless: the opening delimiter line, the matter text, the
/// closing delimiter line and the content text reassemble the original
/// input exactly, no byte gained or lost.
pub proof fn lemma_split_round_trip(s: Seq<char>, content: Seq<char>, matter: Seq<char>)
    requires
        toml_split(s) == Some((content, matter)),
    ensures
        s =~= "+++\n"@ + matter + "+++\n"@ + content,
{
    reveal_strlit("+++\n");
    reveal_strlit("\n+++\n");
    match find_from(s, "\n+++\n"@, 4) {
        Some(j) => {
            crate::text::lemma_find_from_is_first(s, "\n+++\n"@, 4, j);
            let t = "+++\n"@ + matter + "+++\n"@ + content;
            assert forall|i: int| 0 <= i < s.len() implies t[i] == s[i] by {
                if i < 4 {
                    assert(s.subrange(0, 4)[i] == s[i]);
                } else if i < j + 1 {
                    assert(s.subrange(4, j + 1)[i - 4] == s[i]);
                } else if i < j + 5 {
                    assert(s.subrange(j, j + 5)[i - j] == s[i]);
                } else {
                    assert(s.subrange(j + 5, s.len() as int)[i - (j + 5)] == s[i]);
                }
            }
        },
        None => {},
    }
}

/// Relies on `toml::Table`'s `FromStr`: parsing a TOML document depends on
/// the input text alone.
#[verifier::external_body]
fn parse_matter_text_to_vars(matter_text: &str) -> (r: Result<toml::Value, ParseFailure>)
    ensures
        (r is Ok) == toml_parses(matter_text@),
{
    match matter_text.parse::<toml::Table>() {
        Ok(t) => Ok(toml::Value::Table(t)),
        Err(_e) => Err(ParseFailure::DeserializationError),
    }
}

} // verus!
