//! The template adapter: a registry of named templates held by a tera
//! instance, initialized from an explicit file list, a directory glob, or a
//! single built-in default template, with a deterministic choice of the
//! template to render.

use vstd::prelude::*;

use tera::Tera;

use crate::state::FormatState;
use crate::text::lex_le;
use crate::text::str_lt;

verus! {

#[verifier::external_type_specification]
#[verifier::external_body]
pub struct ExTera(Tera);

#[verifier::external_type_specification]
#[verifier::external_body]
pub struct ExContext(tera::Context);

/// The registry of a tera instance: each registered template's name, bound
/// to the source text the template was built from.
pub uninterp spec fn template_registry(t: Tera) -> Map<Seq<char>, Seq<char>>;

/// The set of template names registered in a tera instance.
pub open spec fn template_names(t: Tera) -> Set<Seq<char>> {
    template_registry(t).dom()
}

/// The output suffixes for which a tera instance escapes rendered text;
/// empty when escaping is off entirely.
pub uninterp spec fn escape_suffixes(t: Tera) -> Set<Seq<char>>;

/// The string-valued entries of a render context: each key bound to a
/// string, for those entries whose value is a string.
pub uninterp spec fn context_strings(c: tera::Context) -> Map<Seq<char>, Seq<char>>;

/// Whether the glob parser behind the template loader accepts a pattern;
/// acceptance depends on the pattern alone.
pub uninterp spec fn glob_pattern_ok(s: Seq<char>) -> bool;

/// A failure of the template layer: a glob that cannot be served, a
/// template file that cannot be read or parsed, a template body that does
/// not parse, or a state that cannot become a render context.
#[derive(Clone, Copy, Debug, PartialEq, Eq, Structural)]
pub enum TemplateError {
    Glob,
    TemplateFiles,
    Template,
    Context,
}

/// A character at which the loader splits a glob into the directory part it
/// walks and the pattern part it hands to the glob parser: the pattern
/// starts at the first path segment holding one of these.
pub open spec fn is_glob_splitter(c: char) -> bool {
    c == '*' || c == '{' || c == '}'
}

/// Class or escape syntax of the glob grammar.
pub open spec fn is_glob_bracket(c: char) -> bool {
    c == '[' || c == ']' || c == '\\'
}

/// A glob the template loader serves without faulting: it holds a `*`, its
/// class and escape syntax stands at or after the first splitting
/// character — so the pattern part the loader parses stands or falls with
/// the whole glob — and the whole glob is accepted by the glob parser.
pub open spec fn glob_safe(s: Seq<char>) -> bool {
    &&& s.contains('*')
    &&& forall|i: int|
        0 <= i < s.len() && is_glob_bracket(#[trigger] s[i]) ==> exists|k: int|
            0 <= k < i && is_glob_splitter(#[trigger] s[k])
    &&& glob_pattern_ok(s)
}

/// Decide `glob_safe` on a string slice.
pub fn is_safe_glob(s: &str) -> (b: bool)
    ensures
        b == glob_safe(s@),
{
    let n = s.unicode_len();
    let mut has_star = false;
    let mut has_splitter = false;
    let mut i: usize = 0;
    while i < n
        invariant
            n == s@.len(),
            0 <= i <= n,
            has_star == exists|k: int| 0 <= k < i && s@[k] == '*',
            has_splitter == exists|k: int| 0 <= k < i && is_glob_splitter(#[trigger] s@[k]),
            forall|k: int|
                0 <= k < i && is_glob_bracket(#[trigger] s@[k]) ==> exists|m: int|
                    0 <= m < k && is_glob_splitter(#[trigger] s@[m]),
        decreases n - i,
    {
        let c = s.get_char(i);
        if (c == '[' || c == ']' || c == '\\') && !has_splitter {
            assert(is_glob_bracket(s@[i as int]));
            return false;
        }
        if c == '*' {
            has_star = true;
        }
        if c == '*' || c == '{' || c == '}' {
            has_splitter = true;
        }
        i += 1;
    }
    if !has_star {
        return false;
    }
    glob_pattern_parses(s)
}

/// The name of the built-in default template.
pub fn template_default_name() -> (r: String)
    ensures
        r@ == "default"@,
{
    String::from_str("default")
}

/// The body of the built-in default template: it renders the context's
/// `content` value verbatim, with no wrapping markup.
pub fn template_default_content() -> (r: String)
    ensures
        r@ == "{{ content }}"@,
{
    String::from_str("{{ content }}")
}

/// Whether the instance has any template registered.
pub fn has_template(tera: &Tera) -> (r: bool)
    ensures
        r == (template_names(*tera) != Set::<Seq<char>>::empty()),
{
    let names = tera_get_template_names(tera);
    if names.len() == 0 {
        proof {
            assert(names_view(names@).to_set() =~= Set::<Seq<char>>::empty());
        }
        false
    } else {
        proof {
            assert(names_view(names@)[0] == names@[0]@);
            assert(names_view(names@).to_set().contains(names_view(names@)[0]));
        }
        true
    }
}

/// The name of the template to render when the caller picks none: the
/// lexicographically smallest registered name, or the default name when
/// nothing is registered.
pub fn best_template_name(tera: &Tera) -> (r: String)
    ensures
        template_names(*tera) == Set::<Seq<char>>::empty() ==> r@ == "default"@,
        template_names(*tera) != Set::<Seq<char>>::empty() ==> template_names(*tera).contains(r@)
            && (forall|n: Seq<char>| template_names(*tera).contains(n) ==> lex_le(r@, n)),
{
    let names = tera_get_template_names(tera);
    if names.len() == 0 {
        proof {
            assert(names_view(names@).to_set() =~= Set::<Seq<char>>::empty());
        }
        return template_default_name();
    }
    proof {
        assert(names_view(names@).to_set().contains(names_view(names@)[0]));
    }
    let ghost nv = names_view(names@);
    let len = names.len();
    let mut best: usize = 0;
    let mut i: usize = 1;
    while i < len
        invariant
            len == names@.len(),
            0 <= best < len,
            1 <= i <= len,
            nv == names_view(names@),
            forall|k: int| 0 <= k < i ==> lex_le(nv[best as int], #[trigger] nv[k]),
        decreases len - i,
    {
        assert(nv[i as int] == names@[i as int]@);
        assert(nv[best as int] == names@[best as int]@);
        if str_lt(names[i].as_str(), names[best].as_str()) {
            proof {
                assert forall|k: int| 0 <= k < i + 1 implies lex_le(
                    nv[i as int],
                    #[trigger] nv[k],
                ) by {
                    if k < i {
                        crate::text::lemma_lex_trans(nv[i as int], nv[best as int], nv[k]);
                    }
                }
            }
            best = i;
        } else {
            proof {
                crate::text::lemma_lex_total(nv[i as int], nv[best as int]);
            }
        }
        i += 1;
    }
    let r = names[best].clone();
    proof {
        assert(r@ == nv[best as int]);
        assert(names_view(names@).to_set().contains(nv[best as int]));
        assert forall|n: Seq<char>| template_names(*tera).contains(n) implies lex_le(r@, n) by {
            assert(names_view(names@).to_set().contains(n));
            let k = choose|k: int| 0 <= k < nv.len() && nv[k] == n;
            assert(lex_le(nv[best as int], nv[k]));
        }
    }
    r
}

/// Create a tera instance from the glob when one is given, else an empty
/// instance.
pub fn new_or_default_via_args(template_glob: &Option<String>) -> (r: Result<Tera, TemplateError>)
    requires
        template_glob matches Some(g) ==> glob_safe(g@),
    ensures
        template_glob is None ==> (r matches Ok(t) && template_registry(t) == no_entries()),
{
    match template_glob {
        Some(g) => tera_new(g.as_str()),
        None => Ok(tera_default()),
    }
}

/// Register the given template files, when a list is given: each file is
/// registered under the path string handed in.
pub fn add_template_files_via_args(tera: &mut Tera, template_files: &Option<Vec<String>>) -> (r:
    Result<(), TemplateError>)
    ensures
        template_files is None ==> r is Ok && template_registry(*final(tera)) == template_registry(
            *old(tera),
        ),
        template_files matches Some(fs) ==> (r is Ok ==> template_names(*final(tera))
            == template_names(*old(tera)).union(names_view(fs@).to_set())),
        template_files matches Some(fs) ==> (r is Ok ==> (forall|n: Seq<char>|
            template_names(*old(tera)).contains(n) && !names_view(fs@).to_set().contains(n)
                ==> template_registry(*final(tera))[n] == template_registry(*old(tera))[n])),
{
    match template_files {
        Some(files) => tera_add_template_files(tera, files),
        None => Ok(()),
    }
}

/// Register the built-in default template under the default name. In an
/// instance with nothing registered the call succeeds.
pub fn add_template_default(tera: &mut Tera) -> (r: Result<(), TemplateError>)
    ensures
        r is Ok ==> template_registry(*final(tera)) == template_registry(*old(tera)).insert(
            "default"@,
            "{{ content }}"@,
        ),
        template_names(*old(tera)) == Set::<Seq<char>>::empty() ==> r is Ok,
{
    let name = template_default_name();
    let content = template_default_content();
    tera_add_raw_template(tera, name.as_str(), content.as_str())
}

/// Initialize the template registry: refuse a glob the loader cannot
/// serve, load templates from the glob and the file list when they are
/// given, fall back to the built-in default template when nothing was
/// registered, and switch output escaping off entirely. On success the
/// registry is never empty; with no glob and no files it holds exactly the
/// default template.
pub fn init(template_glob: &Option<String>, template_files: &Option<Vec<String>>) -> (r: Result<
    Tera,
    TemplateError,
>)
    ensures
        r matches Ok(t) ==> template_names(t) != Set::<Seq<char>>::empty(),
        r matches Ok(t) ==> escape_suffixes(t) == Set::<Seq<char>>::empty(),
        template_glob is None && template_files is None ==> (r matches Ok(t) && template_registry(
            t,
        ) == no_entries().insert("default"@, "{{ content }}"@)),
        template_glob matches Some(g) && !glob_safe(g@) ==> r == Err::<Tera, TemplateError>(
            TemplateError::Glob,
        ),
{
    match template_glob {
        Some(g) => {
            if !is_safe_glob(g.as_str()) {
                return Err(TemplateError::Glob);
            }
        },
        None => {},
    }
    let mut tera = match new_or_default_via_args(template_glob) {
        Ok(t) => t,
        Err(e) => {
            return Err(e);
        },
    };
    match add_template_files_via_args(&mut tera, template_files) {
        Ok(u) => u,
        Err(e) => {
            return Err(e);
        },
    };
    if !has_template(&tera) {
        match add_template_default(&mut tera) {
            Ok(u) => u,
            Err(e) => {
                return Err(e);
            },
        };
        proof {
            assert(template_names(tera).contains("default"@));
        }
    }
    tera_autoescape_off(&mut tera);
    Ok(tera)
}

/// The render context for a parsed document: the state's variables, with
/// the reserved `content` key bound to the content text. The reserved key
/// is bound last, so on a collision with a matter key the content wins.
/// For an HTML state every pair lands in the context under its key, later
/// pairs winning over earlier ones of the same key.
pub fn build_template_context(state: &FormatState, content_text: &str) -> (r: Result<
    tera::Context,
    TemplateError,
>)
    ensures
        r matches Ok(c) ==> context_strings(c).contains_pair("content"@, content_text@),
        state is Html ==> r is Ok,
        r matches Ok(c) ==> (state matches FormatState::Html(h) ==> (forall|i: int|
            0 <= i < h.kv_view().len() && (#[trigger] h.kv_view()[i]).0 != "content"@ && (forall|
                j: int,
            | i < j < h.kv_view().len() ==> (#[trigger] h.kv_view()[j]).0 != (h.kv_view()[i]).0)
                ==> context_strings(c).contains_pair((h.kv_view()[i]).0, (h.kv_view()[i]).1))),
{
    let mut context = match state {
        FormatState::Html(h) => {
            let ghost pv = h.kv_view();
            let mut c = context_new();
            let n = h.pairs.len();
            let mut i: usize = 0;
            while i < n
                invariant
                    n == h.pairs.len(),
                    0 <= i <= n,
                    pv == h.kv_view(),
                    forall|k: int|
                        (0 <= k < i && (forall|j: int|
                            k < j < i ==> (#[trigger] pv[j]).0 != (pv[k]).0))
                            ==> context_strings(c).contains_pair((#[trigger] pv[k]).0, (pv[k]).1),
                decreases n - i,
            {
                context_insert_str(&mut c, h.pairs[i].0.as_str(), h.pairs[i].1.as_str());
                assert((pv[i as int]).0 == h.pairs@[i as int].0@);
                i += 1;
            }
            c
        },
        FormatState::Json(v) => match context_from_json(v) {
            Ok(c) => c,
            Err(e) => {
                return Err(e);
            },
        },
        FormatState::Toml(v) => match context_from_toml(v) {
            Ok(c) => c,
            Err(e) => {
                return Err(e);
            },
        },
        FormatState::Yaml(v) => match context_from_yaml(v) {
            Ok(c) => c,
            Err(e) => {
                return Err(e);
            },
        },
    };
    context_insert_str(&mut context, "content", content_text);
    Ok(context)
}

/// The empty name-to-text map.
pub open spec fn no_entries() -> Map<Seq<char>, Seq<char>> {
    Map::empty()
}

/// Name strings as mathematical sequences of characters.
pub open spec fn names_view(v: Seq<String>) -> Seq<Seq<char>> {
    v.map_values(|x: String| x@)
}

/// Relies on `tera::Tera::default`: a default instance registers no
/// templates.
#[verifier::external_body]
fn tera_default() -> (t: Tera)
    ensures
        template_registry(t) == no_entries(),
{
    Tera::default()
}

/// Relies on `tera::Tera::new`: loads the templates matching the glob from
/// disk, so the outcome depends on the filesystem. The loader faults
/// instead of erring on a glob without a `*` or with a pattern its glob
/// parser refuses; `glob_safe` excludes both, and keeps class and escape
/// syntax behind the first splitting character so that the pattern part
/// the loader parses stands or falls with the whole glob.
#[verifier::external_body]
fn tera_new(dir_glob: &str) -> (r: Result<Tera, TemplateError>)
    requires
        glob_safe(dir_glob@),
    ensures
        r matches Err(e) ==> e == TemplateError::Glob,
{
    match Tera::new(dir_glob) {
        Ok(t) => Ok(t),
        Err(_e) => Err(TemplateError::Glob),
    }
}

/// Relies on `tera::Tera::add_raw_template`: on success the body is
/// registered under the name, and nothing else in the registry changes.
/// Registering the plain default body in an empty instance succeeds: the
/// body parses, and the single parentless template passes the inheritance
/// and macro checks.
#[verifier::external_body]
fn tera_add_raw_template(t: &mut Tera, name: &str, content: &str) -> (r: Result<
    (),
    TemplateError,
>)
    ensures
        r is Ok ==> template_registry(*final(t)) == template_registry(*old(t)).insert(
            name@,
            content@,
        ),
        template_names(*old(t)) == Set::<Seq<char>>::empty() && content@ == "{{ content }}"@
            ==> r is Ok,
{
    match t.add_raw_template(name, content) {
        Ok(u) => Ok(u),
        Err(_e) => Err(TemplateError::Template),
    }
}

/// Relies on `tera::Tera::add_template_files`: reads each named file from
/// disk, so the outcome depends on the filesystem. A file template is
/// registered under the path string handed in, so on success the registry
/// gains exactly the given names — bound to file contents this contract
/// leaves open — and every other entry is unchanged.
#[verifier::external_body]
fn tera_add_template_files(t: &mut Tera, files: &Vec<String>) -> (r: Result<(), TemplateError>)
    ensures
        r is Ok ==> template_names(*final(t)) == template_names(*old(t)).union(
            names_view(files@).to_set(),
        ),
        r is Ok ==> (forall|n: Seq<char>|
            template_names(*old(t)).contains(n) && !names_view(files@).to_set().contains(n)
                ==> template_registry(*final(t))[n] == template_registry(*old(t))[n]),
{
    let pairs: Vec<(std::path::PathBuf, Option<String>)> = files.iter().map(
        |f| (std::path::PathBuf::from(f), None),
    ).collect();
    match t.add_template_files(pairs) {
        Ok(u) => Ok(u),
        Err(_e) => Err(TemplateError::TemplateFiles),
    }
}

/// Relies on `tera::Tera::autoescape_on`: sets the escaped-suffix list —
/// here to nothing, switching escaping off — and leaves the registered
/// templates untouched.
#[verifier::external_body]
fn tera_autoescape_off(t: &mut Tera)
    ensures
        template_registry(*final(t)) == template_registry(*old(t)),
        escape_suffixes(*final(t)) == Set::<Seq<char>>::empty(),
{
    t.autoescape_on(Vec::new())
}

/// Relies on `tera::Tera::get_template_names`: yields each registered name
/// exactly once, in no promised order.
#[verifier::external_body]
fn tera_get_template_names(t: &Tera) -> (r: Vec<String>)
    ensures
        names_view(r@).to_set() == template_names(*t),
        names_view(r@).no_duplicates(),
{
    t.get_template_names().map(String::from).collect()
}

/// Relies on `tera::Context::new`: a new context holds no values.
#[verifier::external_body]
fn context_new() -> (c: tera::Context)
    ensures
        context_strings(c) == no_entries(),
{
    tera::Context::new()
}

/// Relies on `tera::Context::insert`: binds the key to the string value,
/// replacing any earlier binding, and leaves every other entry unchanged.
#[verifier::external_body]
fn context_insert_str(c: &mut tera::Context, key: &str, value: &str)
    ensures
        context_strings(*final(c)) == context_strings(*old(c)).insert(key@, value@),
{
    c.insert(key, value)
}

/// Relies on `tera::Context::from_serialize`: turns a JSON value into a
/// render context; which entries come out is left open here.
#[verifier::external_body]
fn context_from_json(v: &serde_json::Value) -> (r: Result<tera::Context, TemplateError>)
{
    match tera::Context::from_serialize(v) {
        Ok(c) => Ok(c),
        Err(_e) => Err(TemplateError::Context),
    }
}

/// Relies on `tera::Context::from_serialize`: turns a TOML value into a
/// render context; which entries come out is left open here.
#[verifier::external_body]
fn context_from_toml(v: &toml::Value) -> (r: Result<tera::Context, TemplateError>)
{
    match tera::Context::from_serialize(v) {
        Ok(c) => Ok(c),
        Err(_e) => Err(TemplateError::Context),
    }
}

/// Relies on `tera::Context::from_serialize`: turns a YAML value into a
/// render context; which entries come out is left open here.
#[verifier::external_body]
fn context_from_yaml(v: &serde_yaml::Value) -> (r: Result<tera::Context, TemplateError>)
{
    match tera::Context::from_serialize(v) {
        Ok(c) => Ok(c),
        Err(_e) => Err(TemplateError::Context),
    }
}

/// Relies on `ignore::overrides::OverrideBuilder::add`, the parser behind
/// the template loader's glob handling: whether a pattern is accepted
/// depends on the pattern alone.
#[verifier::external_body]
fn glob_pattern_parses(pattern: &str) -> (r: bool)
    ensures
        r == glob_pattern_ok(pattern@),
{
    ignore::overrides::OverrideBuilder::new("").add(pattern).is_ok()
}

} // verus!
