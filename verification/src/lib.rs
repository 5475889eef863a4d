//! Front-matter extraction and templating for mixed text documents.
//!
//! A mixed document is prose content with an optional leading metadata block
//! ("front matter") written in one of four delimiter conventions: an HTML
//! comment, a JSON object, a TOML block, or a YAML block. The library splits
//! such a document into its content text and a typed variable state, and
//! prepares a template registry that can render the content together with the
//! variables.

pub mod matter_parser_mutex;
pub mod matter_parser_with_html;
pub mod matter_parser_with_json;
pub mod matter_parser_with_toml;
pub mod matter_parser_with_yaml;
pub mod state;
pub mod templating;
pub mod vars;
pub mod text;
