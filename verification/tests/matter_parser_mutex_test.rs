use sita::matter_parser_mutex::parse_mix_text_to_content_text_and_state;
use sita::state::FormatState;
use sita::templating;

#[test]
fn test_parse_mix_text_x_html() {
    let mix_text = "<!--\nalpha: bravo\ncharlie: delta\n-->\necho\nfoxtrot\n";
    let result = parse_mix_text_to_content_text_and_state(mix_text);
    assert!(result.is_ok());
    let (content_text, state) = result.unwrap();
    assert_eq!(content_text, "\necho\nfoxtrot\n");
    assert!(matches!(state, FormatState::Html(_)));
}

#[test]
fn test_parse_mix_text_x_json() {
    // End-to-end JSON: the object is consumed and the rest is the content.
    let mix_text = "{\n\"title\": \"Hello\"\n}\necho\n";
    let result = parse_mix_text_to_content_text_and_state(mix_text);
    assert!(result.is_ok());
    let (content_text, state) = result.unwrap();
    assert_eq!(content_text, "echo\n");
    match state {
        FormatState::Json(v) => {
            assert_eq!(v["title"].as_str().unwrap(), "Hello");
        },
        _ => panic!("expected the JSON variant"),
    }
}

#[test]
fn test_parse_mix_text_x_toml() {
    let mix_text = "+++\ntitle = \"Hello\"\n+++\nWorld\n";
    let result = parse_mix_text_to_content_text_and_state(mix_text);
    assert!(result.is_ok());
    let (content_text, state) = result.unwrap();
    assert_eq!(content_text, "World\n");
    match state {
        FormatState::Toml(v) => {
            assert_eq!(v["title"].as_str().unwrap(), "Hello");
        },
        _ => panic!("expected the TOML variant"),
    }
}

#[test]
fn test_parse_mix_text_x_yaml() {
    let mix_text = "---\ntitle: Hello\n---\nWorld\n";
    let result = parse_mix_text_to_content_text_and_state(mix_text);
    assert!(result.is_ok());
    let (content_text, state) = result.unwrap();
    assert_eq!(content_text, "World\n");
    match state {
        FormatState::Yaml(v) => {
            assert_eq!(v["title"].as_str().unwrap(), "Hello");
        },
        _ => panic!("expected the YAML variant"),
    }
}

#[test]
fn test_parse_mix_text_x_absent() {
    // None of the four delimiter conventions is present.
    let result = parse_mix_text_to_content_text_and_state("plain markdown\nno matter here\n");
    assert!(result.is_err());
}

#[test]
fn test_parse_mix_text_x_malformed_matter_is_not_recognized() {
    // The YAML delimiters are present but the matter body is malformed, and
    // no other format's delimiters match: a parser-level failure collapses
    // into the dispatcher's single no-matter outcome.
    let result = parse_mix_text_to_content_text_and_state("---\n: : :\n---\nBody\n");
    assert!(result.is_err());
}

#[test]
fn test_priority_x_html_wins_over_yaml_lookalike() {
    // The comment block embeds text that looks like YAML matter; the HTML
    // parser stands earlier in the priority order and takes it.
    let mix_text = "<!--\ntitle: Hello\n-->\n---\ntitle: Later\n---\nrest\n";
    let result = parse_mix_text_to_content_text_and_state(mix_text);
    let (content_text, state) = result.unwrap();
    assert!(matches!(state, FormatState::Html(_)));
    assert_eq!(content_text, "\n---\ntitle: Later\n---\nrest\n");
}

#[test]
fn test_round_trip_x_yaml() {
    // No bytes are gained or lost by the split.
    let mix_text = "---\ntitle: Hello\n---\nWorld\n";
    let (content_text, _state) = parse_mix_text_to_content_text_and_state(mix_text).unwrap();
    let consumed_len = mix_text.len() - content_text.len();
    let rejoined = format!("{}{}", &mix_text[..consumed_len], content_text);
    assert_eq!(rejoined, mix_text);
}

#[test]
fn test_end_to_end_x_yaml_default_template() {
    // Parse, then render the content with the default template.
    let mix_text = "---\ntitle: Hello\n---\nWorld\n";
    let (content_text, state) = parse_mix_text_to_content_text_and_state(mix_text).unwrap();
    assert_eq!(content_text, "World\n");
    match &state {
        FormatState::Yaml(v) => {
            assert_eq!(v["title"].as_str().unwrap(), "Hello");
        },
        _ => panic!("expected the YAML variant"),
    }
    let tera = templating::init(&None, &None).unwrap();
    let mut context = tera::Context::new();
    context.insert("content", &content_text);
    let name = templating::best_template_name(&tera);
    let rendered = tera.render(&name, &context).unwrap();
    assert_eq!(rendered, "World\n");
}

#[test]
fn mod_test() {
    // A markdown document whose matter block is an HTML comment, taken
    // through the whole pipeline with the default template: the rendered
    // output is the content text itself.
    let mix_text = "<!--\ntitle: Example\n-->\nhello world\n";
    let (content_text, state) = parse_mix_text_to_content_text_and_state(mix_text).unwrap();
    let vars = match state {
        FormatState::Html(h) => h,
        _ => panic!("expected the HTML variant"),
    };
    assert_eq!(vars.get("title").unwrap().as_str(), "Example");
    let tera = templating::init(&None, &None).unwrap();
    let mut context = tera::Context::new();
    context.insert("title", vars.get("title").unwrap());
    context.insert("content", &content_text);
    let rendered = tera.render(&templating::best_template_name(&tera), &context).unwrap();
    assert_eq!(rendered, "\nhello world\n");
}

#[test]
fn test_reserved_content_key_wins() {
    // A matter key named `content` collides with the reserved key; the
    // rendered output carries the document's content text, not the matter
    // value.
    let mix_text = "<!--\ncontent: from-matter\ntitle: t\n-->\nreal body\n";
    let (content_text, state) = parse_mix_text_to_content_text_and_state(mix_text).unwrap();
    assert_eq!(content_text, "\nreal body\n");
    let context = templating::build_template_context(&state, &content_text).unwrap();
    let tera = templating::init(&None, &None).unwrap();
    let rendered = tera.render(&templating::best_template_name(&tera), &context).unwrap();
    assert_eq!(rendered, "\nreal body\n");
}

#[test]
fn test_build_template_context_x_yaml() {
    let mix_text = "---\ntitle: Hello\n---\nWorld\n";
    let (content_text, state) = parse_mix_text_to_content_text_and_state(mix_text).unwrap();
    let context = templating::build_template_context(&state, &content_text).unwrap();
    let tera = templating::init(&None, &None).unwrap();
    let rendered = tera.render(&templating::best_template_name(&tera), &context).unwrap();
    assert_eq!(rendered, "World\n");
}
