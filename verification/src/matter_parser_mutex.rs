//! The ordered-fallback dispatcher: try each format parser against the same
//! input, in the fixed priority order HTML comment, JSON, TOML, YAML, and
//! return the first success.
//!
//! Despite the module's name there is no locking here: the dispatcher is a
//! pure combinator over the format parsers.

use vstd::prelude::*;

use crate::matter_parser_with_html::MatterParserWithHTML;
use crate::matter_parser_with_html::html_split;
use crate::matter_parser_with_html::parse_kv;
use crate::matter_parser_with_json::MatterParserWithJSON;
use crate::matter_parser_with_json::json_parses;
use crate::matter_parser_with_json::json_split;
use crate::matter_parser_with_toml::MatterParserWithTOML;
use crate::matter_parser_with_toml::toml_parses;
use crate::matter_parser_with_toml::toml_split;
use crate::matter_parser_with_yaml::MatterParserWithYAML;
use crate::matter_parser_with_yaml::yaml_parses;
use crate::matter_parser_with_yaml::yaml_split;
use crate::state::FormatState;
use crate::state::NoMatterRecognized;
use crate::text::starts_with;

verus! {

/// The HTML-comment parser accepts `s`: the markers are present and every
/// non-blank matter line is a `key: value` line.
pub open spec fn html_succeeds(s: Seq<char>) -> bool {
    match html_split(s) {
        Some(cm) => parse_kv(cm.1) is Some,
        None => false,
    }
}

/// The JSON parser accepts `s`: the delimiters are present and the matter
/// text deserializes as JSON.
pub open spec fn json_succeeds(s: Seq<char>) -> bool {
    match json_split(s) {
        Some(cm) => json_parses(cm.1),
        None => false,
    }
}

/// The TOML parser accepts `s`: the delimiters are present and the matter
/// text parses as TOML.
pub open spec fn toml_succeeds(s: Seq<char>) -> bool {
    match toml_split(s) {
        Some(cm) => toml_parses(cm.1),
        None => false,
    }
}

/// The YAML parser accepts `s`: the delimiters are present and the matter
/// text deserializes as YAML.
pub open spec fn yaml_succeeds(s: Seq<char>) -> bool {
    match yaml_split(s) {
        Some(cm) => yaml_parses(cm.1),
        None => false,
    }
}

/// What a successful dispatch returns: the state variant of the first format
/// in priority order that accepts `s`, and the content text of that format's
/// split.
pub open spec fn dispatch_ok(s: Seq<char>, content: Seq<char>, state: FormatState) -> bool {
    if html_succeeds(s) {
        match (html_split(s), state) {
            (Some(cm), FormatState::Html(h)) => content == cm.0 && Some(h.kv_view()) == parse_kv(
                cm.1,
            ),
            _ => false,
        }
    } else if json_succeeds(s) {
        match (json_split(s), state) {
            (Some(cm), FormatState::Json(_)) => content == cm.0,
            _ => false,
        }
    } else if toml_succeeds(s) {
        match (toml_split(s), state) {
            (Some(cm), FormatState::Toml(_)) => content == cm.0,
            _ => false,
        }
    } else if yaml_succeeds(s) {
        match (yaml_split(s), state) {
            (Some(cm), FormatState::Yaml(_)) => content == cm.0,
            _ => false,
        }
    } else {
        false
    }
}

/// Parse mix text to content text and state, trying the formats in the
/// fixed priority order HTML comment, JSON, TOML, YAML against the same
/// original input. A failed attempt has no effect on the next one. When no
/// format accepts the input — whether its delimiters are absent or its
/// matter text is malformed — the result is `NoMatterRecognized`.
pub fn parse_mix_text_to_content_text_and_state(mix_text: &str) -> (r: Result<
    (String, FormatState),
    NoMatterRecognized,
>)
    ensures
        match r {
            Ok(p) => dispatch_ok(mix_text@, p.0@, p.1),
            Err(_) => !html_succeeds(mix_text@) && !json_succeeds(mix_text@) && !toml_succeeds(
                mix_text@,
            ) && !yaml_succeeds(mix_text@),
        },
{
    match (MatterParserWithHTML {  }).parse_mix_text_to_content_text_and_state(mix_text) {
        Ok((s, state)) => {
            return Ok((s, FormatState::Html(state)));
        },
        Err(_e) => {},
    }
    match (MatterParserWithJSON {  }).parse_mix_text_to_content_text_and_state(mix_text) {
        Ok((s, state)) => {
            return Ok((s, FormatState::Json(state)));
        },
        Err(_e) => {},
    }
    match (MatterParserWithTOML {  }).parse_mix_text_to_content_text_and_state(mix_text) {
        Ok((s, state)) => {
            return Ok((s, FormatState::Toml(state)));
        },
        Err(_e) => {},
    }
    match (MatterParserWithYAML {  }).parse_mix_text_to_content_text_and_state(mix_text) {
        Ok((s, state)) => {
            return Ok((s, FormatState::Yaml(state)));
        },
        Err(_e) => {},
    }
    Err(NoMatterRecognized)
}

/// A dispatch of a document assembled from the HTML comment markers, a
/// matter body of `key: value` lines free of an early closing marker, and
/// arbitrary content returns exactly that content, and the state holds
/// exactly the pairs of those lines.
pub proof fn lemma_dispatch_of_composed_html(
    body: Seq<char>,
    rest: Seq<char>,
    content: Seq<char>,
    state: FormatState,
)
    requires
        crate::text::find_from(body + "-->"@, "-->"@, 0) == Some(body.len() as int),
        dispatch_ok("<!--"@ + body + "-->"@ + rest, content, state),
    ensures
        content == rest,
        state matches FormatState::Html(h) && Some(h.kv_view()) == parse_kv(body),
{
    crate::matter_parser_with_html::lemma_split_of_composed(body, rest);
    lemma_matchers_exclusive("<!--"@ + body + "-->"@ + rest);
}

/// A dispatch of a document assembled from the JSON brace lines, an object
/// body free of an early closing line, and arbitrary content returns
/// exactly that content and the JSON state variant.
pub proof fn lemma_dispatch_of_composed_json(
    mid: Seq<char>,
    rest: Seq<char>,
    content: Seq<char>,
    state: FormatState,
)
    requires
        crate::text::find_from(mid + "\n}\n"@, "\n}\n"@, 0) == Some(mid.len() as int),
        dispatch_ok("{\n"@ + mid + "\n}\n"@ + rest, content, state),
    ensures
        content == rest,
        state is Json,
{
    crate::matter_parser_with_json::lemma_split_of_composed(mid, rest);
    lemma_matchers_exclusive("{\n"@ + mid + "\n}\n"@ + rest);
}

/// A dispatch of a document assembled from the TOML delimiter lines, a
/// matter body free of an early closing line, and arbitrary content returns
/// exactly that content and the TOML state variant.
pub proof fn lemma_dispatch_of_composed_toml(
    body: Seq<char>,
    rest: Seq<char>,
    content: Seq<char>,
    state: FormatState,
)
    requires
        crate::text::find_from(body + "\n+++\n"@, "\n+++\n"@, 0) == Some(body.len() as int),
        dispatch_ok("+++\n"@ + body + "\n+++\n"@ + rest, content, state),
    ensures
        content == rest,
        state is Toml,
{
    crate::matter_parser_with_toml::lemma_split_of_composed(body, rest);
    lemma_matchers_exclusive("+++\n"@ + body + "\n+++\n"@ + rest);
}

/// A dispatch of a document assembled from the YAML delimiter lines, a
/// matter body free of an early closing line, and arbitrary content returns
/// exactly that content and the YAML state variant.
pub proof fn lemma_dispatch_of_composed_yaml(
    body: Seq<char>,
    rest: Seq<char>,
    content: Seq<char>,
    state: FormatState,
)
    requires
        crate::text::find_from(body + "\n---\n"@, "\n---\n"@, 0) == Some(body.len() as int),
        dispatch_ok("---\n"@ + body + "\n---\n"@ + rest, content, state),
    ensures
        content == rest,
        state is Yaml,
{
    crate::matter_parser_with_yaml::lemma_split_of_composed(body, rest);
    lemma_matchers_exclusive("---\n"@ + body + "\n---\n"@ + rest);
}

/// The four delimiter conventions are mutually exclusive: each opens with a
/// different character, so at most one matcher can structurally accept a
/// document, and the dispatcher's fixed priority order can never override
/// one format's split with another's.
pub proof fn lemma_matchers_exclusive(s: Seq<char>)
    ensures
        html_split(s) is Some ==> json_split(s) is None && toml_split(s) is None && yaml_split(s)
            is None,
        json_split(s) is Some ==> html_split(s) is None && toml_split(s) is None && yaml_split(s)
            is None,
        toml_split(s) is Some ==> html_split(s) is None && json_split(s) is None && yaml_split(s)
            is None,
        yaml_split(s) is Some ==> html_split(s) is None && json_split(s) is None && toml_split(s)
            is None,
{
    reveal_strlit("<!--");
    reveal_strlit("{\n");
    reveal_strlit("+++\n");
    reveal_strlit("---\n");
    if starts_with(s, "<!--"@) {
        assert(s.subrange(0, 4)[0] == s[0]);
        assert(s[0] == '<');
    }
    if starts_with(s, "{\n"@) {
        assert(s.subrange(0, 2)[0] == s[0]);
        assert(s[0] == '{');
    }
    if starts_with(s, "+++\n"@) {
        assert(s.subrange(0, 4)[0] == s[0]);
        assert(s[0] == '+');
    }
    if starts_with(s, "---\n"@) {
        assert(s.subrange(0, 4)[0] == s[0]);
        assert(s[0] == '-');
    }
}

} // verus!

