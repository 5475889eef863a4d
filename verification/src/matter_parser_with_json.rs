//! Front matter written as a JSON object at the start of the document.

use vstd::prelude::*;

use crate::state::ParseFailure;
use crate::text::find_from;
use crate::text::find_from_str;
use crate::text::match_at;
use crate::text::starts_with;
use crate::text::starts_with_str;

verus! {

#[verifier::external_type_specification]
#[verifier::external_body]
pub struct ExJsonValue(serde_json::Value);

/// Whether `s` deserializes as a JSON document. `serde_json::from_str` is a
/// function of its input alone, so its success is too.
pub uninterp spec fn json_parses(s: Seq<char>) -> bool;

/// The split of `s` under the JSON delimiter convention: the document opens
/// with `{` on a line of its own, and the matter text runs from that `{`
/// through the first later line holding exactly `}`, braces and final
/// newline included; the content text is everything after that line.
///
/// The closing line is found by first occurrence, not by brace depth: a
/// nested object whose own `}` sits alone on a line cuts the matter block
/// short. This keeps the recognized region exactly the one the delimiter
/// convention names.
pub open spec fn json_split(s: Seq<char>) -> Option<(Seq<char>, Seq<char>)> {
    if starts_with(s, "{\n"@) {
        match find_from(s, "\n}\n"@, 2) {
            Some(j) => Some((s.subrange(j + 3, s.len() as int), s.subrange(0, j + 3))),
            None => None,
        }
    } else {
        None
    }
}

/// Recognizes JSON front matter and deserializes it with serde_json.
pub struct MatterParserWithJSON {}

impl MatterParserWithJSON {
    /// Split mix text into content text and matter text at the JSON
    /// delimiters. The matter text includes the braces themselves.
    pub fn parse_mix_text_to_content_text_and_matter_text(&self, mix_text: &str) -> (r: Result<
        (String, String),
        ParseFailure,
    >)
        ensures
            match json_split(mix_text@) {
                Some(cm) => r matches Ok(p) && p.0@ == cm.0 && p.1@ == cm.1,
                None => r == Err::<(String, String), ParseFailure>(
                    ParseFailure::StructuralMismatch,
                ),
            },
    {
        proof {
            reveal_strlit("{\n");
            reveal_strlit("\n}\n");
        }
        if !starts_with_str(mix_text, "{\n") {
            return Err(ParseFailure::StructuralMismatch);
        }
        match find_from_str(mix_text, "\n}\n", 2) {
            Some(j) => {
                proof {
                    crate::text::lemma_find_from_is_first(mix_text@, "\n}\n"@, 2, j as int);
                }
                let n = mix_text.unicode_len();
                let matter = mix_text.substring_char(0, j + 3).to_owned();
                let content = mix_text.substring_char(j + 3, n).to_owned();
                Ok((content, matter))
            },
            None => Err(ParseFailure::StructuralMismatch),
        }
    }

    /// Deserialize matter text into a JSON value.
    pub fn parse_matter_text_to_state(&self, matter_text: &str) -> (r: Result<
        serde_json::Value,
        ParseFailure,
    >)
        ensures
            (r is Ok) == json_parses(matter_text@),
            (r is Err) ==> r == Err::<serde_json::Value, ParseFailure>(
                ParseFailure::DeserializationError,
            ),
    {
        match parse_matter_text_to_vars(matter_text) {
            Ok(v) => Ok(v),
            Err(_e) => Err(ParseFailure::DeserializationError),
        }
    }

    /// Split mix text at the JSON delimiters and deserialize the matter text;
    /// both must succeed.
    pub fn parse_mix_text_to_content_text_and_state(&self, mix_text: &str) -> (r: Result<
        (String, serde_json::Value),
        ParseFailure,
    >)
        ensures
            match json_split(mix_text@) {
                Some(cm) => if json_parses(cm.1) {
                    r matches Ok(p) && p.0@ == cm.0
                } else {
                    r == Err::<(String, serde_json::Value), ParseFailure>(
                        ParseFailure::DeserializationError,
                    )
                },
                None => r == Err::<(String, serde_json::Value), ParseFailure>(
                    ParseFailure::StructuralMismatch,
                ),
            },
    {
        let (content_text, matter_text) = match self.parse_mix_text_to_content_text_and_matter_text(
            mix_text,
        ) {
            Ok(p) => p,
            Err(e) => {
                return Err(e);
            },
        };
        match self.parse_matter_text_to_state(matter_text.as_str()) {
            Ok(state) => Ok((content_text, state)),
            Err(_e) => Err(ParseFailure::DeserializationError),
        }
    }
}

/// A document assembled from the brace lines, an object body in which the
/// closing line does not occur early, and arbitrary content splits into
/// exactly that content and the whole object as matter text.
pub proof fn lemma_split_of_composed(mid: Seq<char>, rest: Seq<char>)
    requires
        find_from(mid + "\n}\n"@, "\n}\n"@, 0) == Some(mid.len() as int),
    ensures
        json_split("{\n"@ + mid + "\n}\n"@ + rest) == Some((rest, "{\n"@ + mid + "\n}\n"@)),
{
    reveal_strlit("{\n");
    reveal_strlit("\n}\n");
    let open = "{\n"@;
    let close = "\n}\n"@;
    let s = open + mid + close + rest;
    let w = mid + close;
    let j0 = 2 + mid.len() as int;
    assert forall|k: int| 0 <= k < w.len() implies s[2 + k] == w[k] by {}
    assert(match_at(s, close, j0)) by {
        assert forall|t: int| 0 <= t < 3 implies s.subrange(j0, j0 + 3)[t] == close[t] by {
            assert(s[j0 + t] == w[mid.len() + t]);
        }
        assert(s.subrange(j0, j0 + 3) =~= close);
    }
    crate::text::lemma_find_from_is_first(w, close, 0, mid.len() as int);
    assert forall|k: int| 2 <= k < j0 implies !match_at(s, close, k) by {
        if match_at(s, close, k) {
            assert forall|t: int| 0 <= t < 3 implies w.subrange(k - 2, k + 1)[t] == close[t] by {
                assert(w[k - 2 + t] == s[k + t]);
                assert(s.subrange(k, k + 3)[t] == s[k + t]);
            }
            assert(w.subrange(k - 2, k + 1) =~= close);
            assert(match_at(w, close, k - 2));
        }
    }
    crate::text::lemma_find_from_exact(s, close, 2, j0);
    assert(s.subrange(0, 2) =~= open);
    assert(s.subrange(j0 + 3, s.len() as int) =~= rest);
    assert(s.subrange(0, j0 + 3) =~= open + mid + close);
}

/// Splitting is lossless: the matter text — which carries its own braces —
/// followed by the content text reassembles the original input exactly, no
/// byte gained or lost.
pub proof fn lemma_split_round_trip(s: Seq<char>, content: Seq<char>, matter: Seq<char>)
    requires
        json_split(s) == Some((content, matter)),
    ensures
        s =~= matter + content,
{
    reveal_strlit("{\n");
    reveal_strlit("\n}\n");
    match find_from(s, "\n}\n"@, 2) {
        Some(j) => {
            crate::text::lemma_find_from_is_first(s, "\n}\n"@, 2, j);
            let t = matter + content;
            assert forall|i: int| 0 <= i < s.len() implies t[i] == s[i] by {
                if i < j + 3 {
                    assert(s.subrange(0, j + 3)[i] == s[i]);
                } else {
                    assert(s.subrange(j + 3, s.len() as int)[i - (j + 3)] == s[i]);
                }
            }
        },
        None => {},
    }
}

/// Relies on `serde_json::from_str`: deserializing a JSON document depends on
/// the input text alone.
#[verifier::external_body]
fn parse_matter_text_to_vars(matter_text: &str) -> (r: Result<serde_json::Value, ParseFailure>)
    ensures
        (r is Ok) == json_parses(matter_text@),
{
    match serde_json::from_str(matter_text) {
        Ok(v) => Ok(v),
        Err(_e) => Err(ParseFailure::DeserializationError),
    }
}

} // verus!
