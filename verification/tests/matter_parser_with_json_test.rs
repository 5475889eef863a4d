use sita::matter_parser_with_json::MatterParserWithJSON;
use sita::state::ParseFailure;

const MIX_TEXT: &str = "{\n    \"alpha\": \"bravo\",\n    \"charlie\": \"delta\"\n}\necho\nfoxtrot\n";

const CONTENT_TEXT: &str = "echo\nfoxtrot\n";

const MATTER_TEXT: &str = "{\n    \"alpha\": \"bravo\",\n    \"charlie\": \"delta\"\n}\n";

#[test]
fn json_test_present() {
    let result = MatterParserWithJSON {}.parse_mix_text_to_content_text_and_state(MIX_TEXT);
    assert!(result.is_ok());
    let (content_text, front) = result.unwrap();
    assert_eq!(content_text, CONTENT_TEXT);
    assert_eq!(front["alpha"].as_str().unwrap(), "bravo");
    assert_eq!(front["charlie"].as_str().unwrap(), "delta");
}

#[test]
fn json_test_absent() {
    let result = MatterParserWithJSON {}.parse_mix_text_to_content_text_and_state(CONTENT_TEXT);
    assert!(result.is_err());
    assert_eq!(result.unwrap_err(), ParseFailure::StructuralMismatch);
}

#[test]
fn json_test_matter_text_includes_braces() {
    let result = MatterParserWithJSON {}.parse_mix_text_to_content_text_and_matter_text(MIX_TEXT);
    assert!(result.is_ok());
    let (content_text, matter_text) = result.unwrap();
    assert_eq!(content_text, CONTENT_TEXT);
    assert_eq!(matter_text, MATTER_TEXT);
    // round trip: matter text and content text reassemble the input
    let rejoined = format!("{}{}", matter_text, content_text);
    assert_eq!(rejoined, MIX_TEXT);
}

#[test]
fn json_test_nested_object_cuts_matter_short() {
    // The closing line is found by first occurrence, not by brace depth: a
    // nested object closed by a lone `}` line truncates the matter block,
    // and what remains is not valid JSON.
    let mix_text = "{\n\"a\": {\n\"b\": \"c\"\n}\n}\nrest\n";
    let result = MatterParserWithJSON {}.parse_mix_text_to_content_text_and_state(mix_text);
    assert!(result.is_err());
    assert_eq!(result.unwrap_err(), ParseFailure::DeserializationError);
    let (content_text, matter_text) = MatterParserWithJSON {}
        .parse_mix_text_to_content_text_and_matter_text(mix_text)
        .unwrap();
    assert_eq!(matter_text, "{\n\"a\": {\n\"b\": \"c\"\n}\n");
    assert_eq!(content_text, "}\nrest\n");
}

#[test]
fn json_test_malformed_matter() {
    let result = MatterParserWithJSON {}.parse_mix_text_to_content_text_and_state(
        "{\n\"alpha\" \"bravo\"\n}\nrest\n",
    );
    assert!(result.is_err());
    assert_eq!(result.unwrap_err(), ParseFailure::DeserializationError);
}
