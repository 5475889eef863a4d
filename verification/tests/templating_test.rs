use sita::templating;
use sita::templating::best_template_name;
use sita::templating::has_template;
use sita::templating::template_default_content;
use sita::templating::template_default_name;
use sita::vars::Vars;

fn fab_tera() -> tera::Tera {
    templating::init(&None, &None).unwrap()
}

const FAB_OUTPUT_HTML: &str = "my content";

#[test]
fn test_init() {
    let tera = templating::init(&None, &None);
    assert!(tera.is_ok());
}

#[test]
fn test_new_or_default_via_args_x_new() {
    let template_glob = Some(String::from("./templates/**/*"));
    let tera = templating::new_or_default_via_args(&template_glob);
    assert!(tera.is_ok());
}

#[test]
fn test_new_or_default_via_args_x_default() {
    let tera = templating::new_or_default_via_args(&None);
    assert!(tera.is_ok());
}

#[test]
fn test_has_template_x_true() {
    let mut tera = tera::Tera::default();
    tera.add_raw_template("my-name", "my-content").unwrap();
    let flag = has_template(&tera);
    assert_eq!(flag, true);
}

#[test]
fn test_has_template_x_false() {
    let tera = tera::Tera::default();
    let flag = has_template(&tera);
    assert_eq!(flag, false);
}

#[test]
fn test_best_template_name_x_default_name() {
    let tera = tera::Tera::default();
    let name = best_template_name(&tera);
    assert_eq!(name, "default");
}

#[test]
fn test_best_template_name_x_custom_name() {
    let mut tera = tera::Tera::default();
    tera.add_raw_template("my-name", "{{ my-content }}").unwrap();
    let name = best_template_name(&tera);
    assert_eq!(name, "my-name");
}

#[test]
fn test_best_template_name_x_lexicographic_order() {
    let mut tera = tera::Tera::default();
    tera.add_raw_template("b.html", "b").unwrap();
    tera.add_raw_template("a.html", "a").unwrap();
    let name = best_template_name(&tera);
    assert_eq!(name, "a.html");
}

#[test]
fn test_template_default_name() {
    assert_eq!(template_default_name(), "default");
}

#[test]
fn test_template_default_content() {
    assert_eq!(template_default_content(), "{{ content }}");
}

#[test]
fn test_add_template_files_via_args_x_missing_file() {
    let mut tera = tera::Tera::default();
    let files = Some(vec![String::from("no-such-template.html")]);
    let result = templating::add_template_files_via_args(&mut tera, &files);
    assert_eq!(result.unwrap_err(), templating::TemplateError::TemplateFiles);
}

#[test]
fn test_init_x_missing_template_file_is_an_error() {
    let files = Some(vec![String::from("no-such-template.html")]);
    let result = templating::init(&None, &files);
    assert!(result.is_err());
}

#[test]
fn test_is_safe_glob() {
    assert!(templating::is_safe_glob("./templates/**/*"));
    assert!(templating::is_safe_glob("*.html"));
    assert!(templating::is_safe_glob("templates/{a,b}/*"));
    assert!(templating::is_safe_glob("templates/*[ab].html"));
    assert!(!templating::is_safe_glob("templates/page.html"));
    assert!(!templating::is_safe_glob("[ab]/templates/*"));
    assert!(!templating::is_safe_glob("templates/*{a,b"));
}

#[test]
fn test_init_x_unsafe_glob_is_an_error() {
    let template_glob = Some(String::from("[ab]/templates/*"));
    let result = templating::init(&template_glob, &None);
    assert_eq!(result.unwrap_err(), templating::TemplateError::Glob);
}

#[test]
fn test_tera_x_vars() {
    let tera = fab_tera();
    let vars = Vars { title: Some("my title".into()), content: Some("my content".into()) };
    let mut context = tera::Context::new();
    context.insert("title", &vars.title);
    context.insert("content", &vars.content);
    let actual = tera.render(&template_default_name(), &context).unwrap();
    assert_eq!(actual, FAB_OUTPUT_HTML);
}

#[test]
fn test_tera_x_json() {
    let tera = fab_tera();
    let vars = "{\n    \"title\": \"my title\",\n    \"content\": \"my content\"\n}\n";
    let vars: serde_json::Value = serde_json::from_str(vars).unwrap();
    let actual = tera.render(
        &template_default_name(),
        &tera::Context::from_serialize(&vars).unwrap(),
    ).unwrap();
    assert_eq!(actual, FAB_OUTPUT_HTML);
}

#[test]
fn test_tera_x_toml() {
    let tera = fab_tera();
    let vars = "title = \"my title\"\ncontent = \"my content\"\n";
    let vars: toml::Table = vars.parse::<toml::Table>().unwrap();
    let actual = tera.render(
        &template_default_name(),
        &tera::Context::from_serialize(&vars).unwrap(),
    ).unwrap();
    assert_eq!(actual, FAB_OUTPUT_HTML);
}

#[test]
fn test_tera_x_yaml() {
    let tera = fab_tera();
    let vars = "title: \"my title\"\ncontent: \"my content\"\n";
    let vars: serde_yaml::Value = serde_yaml::from_str(vars).unwrap();
    let actual = tera.render(
        &template_default_name(),
        &tera::Context::from_serialize(&vars).unwrap(),
    ).unwrap();
    assert_eq!(actual, FAB_OUTPUT_HTML);
}
