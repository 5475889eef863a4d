use sita::matter_parser_with_toml::MatterParserWithTOML;
use sita::state::ParseFailure;

const MIX_TEXT: &str = "+++\nalpha = \"bravo\"\ncharlie = \"delta\"\n+++\necho\nfoxtrot\n";

const CONTENT_TEXT: &str = "echo\nfoxtrot\n";

const MATTER_TEXT: &str = "alpha = \"bravo\"\ncharlie = \"delta\"\n";

#[test]
fn toml_test_present() {
    let result = MatterParserWithTOML {}.parse_mix_text_to_content_text_and_state(MIX_TEXT);
    assert!(result.is_ok());
    let (content_text, front) = result.unwrap();
    assert_eq!(content_text, CONTENT_TEXT);
    assert_eq!(front["alpha"].as_str().unwrap(), "bravo");
    assert_eq!(front["charlie"].as_str().unwrap(), "delta");
}

#[test]
fn toml_test_absent() {
    let result = MatterParserWithTOML {}.parse_mix_text_to_content_text_and_state(CONTENT_TEXT);
    assert!(result.is_err());
    assert_eq!(result.unwrap_err(), ParseFailure::StructuralMismatch);
}

#[test]
fn toml_test_matter_text() {
    let result = MatterParserWithTOML {}.parse_mix_text_to_content_text_and_matter_text(MIX_TEXT);
    assert!(result.is_ok());
    let (content_text, matter_text) = result.unwrap();
    assert_eq!(content_text, CONTENT_TEXT);
    assert_eq!(matter_text, MATTER_TEXT);
    // round trip: delimiters, matter text and content text reassemble the input
    let rejoined = format!("+++\n{}+++\n{}", matter_text, content_text);
    assert_eq!(rejoined, MIX_TEXT);
}

#[test]
fn toml_test_malformed_matter() {
    let result = MatterParserWithTOML {}.parse_mix_text_to_content_text_and_state(
        "+++\nalpha =\n+++\nrest\n",
    );
    assert!(result.is_err());
    assert_eq!(result.unwrap_err(), ParseFailure::DeserializationError);
}
