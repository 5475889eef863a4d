use sita::matter_parser_with_html::MatterParserWithHTML;
use sita::state::ParseFailure;

const MIX_TEXT: &str = "<!--\n  alpha: bravo\n  charlie: delta\n-->\necho\nfoxtrot\n";

#[test]
fn html_test_present() {
    let result = MatterParserWithHTML {}.parse_mix_text_to_content_text_and_state(MIX_TEXT);
    assert!(result.is_ok());
    let (content_text, vars) = result.unwrap();
    assert_eq!(content_text, "\necho\nfoxtrot\n");
    assert_eq!(vars.pairs.len(), 2);
    assert_eq!(vars.pairs[0].0, "alpha");
    assert_eq!(vars.pairs[0].1, "bravo");
    assert_eq!(vars.pairs[1].0, "charlie");
    assert_eq!(vars.pairs[1].1, "delta");
    assert_eq!(vars.get("alpha").unwrap().as_str(), "bravo");
    assert!(vars.get("echo").is_none());
}

#[test]
fn html_test_absent() {
    let result = MatterParserWithHTML {}.parse_mix_text_to_content_text_and_state(
        "echo\nfoxtrot\n",
    );
    assert!(result.is_err());
    assert_eq!(result.unwrap_err(), ParseFailure::StructuralMismatch);
}

#[test]
fn html_test_matter_text() {
    let result = MatterParserWithHTML {}.parse_mix_text_to_content_text_and_matter_text(MIX_TEXT);
    assert!(result.is_ok());
    let (content_text, matter_text) = result.unwrap();
    assert_eq!(matter_text, "\n  alpha: bravo\n  charlie: delta\n");
    assert_eq!(content_text, "\necho\nfoxtrot\n");
    // round trip: markers, matter text and content text reassemble the input
    let rejoined = format!("<!--{}-->{}", matter_text, content_text);
    assert_eq!(rejoined, MIX_TEXT);
}

#[test]
fn html_test_line_without_colon_fails() {
    let result = MatterParserWithHTML {}.parse_mix_text_to_content_text_and_state(
        "<!--\nalpha: bravo\nnot a pair\n-->\nrest\n",
    );
    assert!(result.is_err());
    assert_eq!(result.unwrap_err(), ParseFailure::DeserializationError);
}

#[test]
fn html_test_value_keeps_later_colons() {
    let result = MatterParserWithHTML {}.parse_mix_text_to_content_text_and_state(
        "<!--\ntime: 10:30:00\n-->\nrest\n",
    );
    let (_content, vars) = result.unwrap();
    assert_eq!(vars.pairs.len(), 1);
    assert_eq!(vars.pairs[0].0, "time");
    assert_eq!(vars.pairs[0].1, "10:30:00");
}

#[test]
fn html_test_blank_lines_skipped() {
    let result = MatterParserWithHTML {}.parse_mix_text_to_content_text_and_state(
        "<!--\n\n  \t\nalpha: bravo\n\n-->\nrest\n",
    );
    let (_content, vars) = result.unwrap();
    assert_eq!(vars.pairs.len(), 1);
    assert_eq!(vars.pairs[0].0, "alpha");
    assert_eq!(vars.pairs[0].1, "bravo");
}
