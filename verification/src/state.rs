//! The typed variable state produced by a successful front-matter parse, and
//! the failure values of the parsing layer.

use vstd::prelude::*;

verus! {

/// A parser-level failure: either the format's delimiters are not present in
/// the mix text, or they are present but the enclosed matter text is not
/// valid under the format's grammar.
#[derive(Clone, Copy, Debug, PartialEq, Eq, Structural)]
pub enum ParseFailure {
    StructuralMismatch,
    DeserializationError,
}

/// The dispatcher's failure: none of the supported delimiter conventions
/// produced a successful parse of the input.
#[derive(Clone, Copy, Debug, PartialEq, Eq, Structural)]
pub struct NoMatterRecognized;

/// Key/value pairs parsed from an HTML-comment matter block, in the order
/// the lines appear.
#[derive(Debug)]
pub struct HtmlVars {
    pub pairs: Vec<(String, String)>,
}

/// Key/value pairs as mathematical sequences of characters.
pub open spec fn pairs_view(ps: Seq<(String, String)>) -> Seq<(Seq<char>, Seq<char>)> {
    ps.map_values(|p: (String, String)| (p.0@, p.1@))
}

impl HtmlVars {
    /// The pairs as mathematical sequences of characters.
    pub open spec fn kv_view(&self) -> Seq<(Seq<char>, Seq<char>)> {
        pairs_view(self.pairs@)
    }

    /// The value bound to `key`: the first pair with that key wins.
    pub fn get(&self, key: &str) -> (r: Option<&String>)
        ensures
            match r {
                Some(v) => exists|i: int|
                    0 <= i < self.kv_view().len() && self.kv_view()[i] == (key@, v@) && forall|
                        k: int,
                    | 0 <= k < i ==> (#[trigger] self.kv_view()[k]).0 != key@,
                None => forall|i: int|
                    0 <= i < self.kv_view().len() ==> (#[trigger] self.kv_view()[i]).0 != key@,
            },
    {
        let n = self.pairs.len();
        let mut i: usize = 0;
        while i < n
            invariant
                n == self.pairs.len(),
                0 <= i <= n,
                forall|k: int| 0 <= k < i ==> (#[trigger] self.kv_view()[k]).0 != key@,
            decreases n - i,
        {
            let p = &self.pairs[i];
            if str_eq(p.0.as_str(), key) {
                assert(self.kv_view()[i as int] == (key@, p.1@));
                return Some(&self.pairs[i].1);
            }
            assert((self.kv_view()[i as int]).0 != key@);
            i += 1;
        }
        None
    }
}

/// Decide equality of two string slices by their characters.
fn str_eq(a: &str, b: &str) -> (r: bool)
    ensures
        r == (a@ == b@),
{
    let an = a.unicode_len();
    let bn = b.unicode_len();
    if an != bn {
        return false;
    }
    let mut i: usize = 0;
    while i < an
        invariant
            an == a@.len(),
            bn == b@.len(),
            an == bn,
            0 <= i <= an,
            forall|k: int| 0 <= k < i ==> a@[k] == b@[k],
        decreases an - i,
    {
        if a.get_char(i) != b.get_char(i) {
            assert(a@ != b@);
            return false;
        }
        i += 1;
    }
    assert(a@ =~= b@);
    true
}

/// The typed variable bag produced by a successful parse: one variant per
/// supported front-matter format.
#[derive(Debug)]
pub enum FormatState {
    Html(HtmlVars),
    Json(serde_json::Value),
    Toml(toml::Value),
    Yaml(serde_yaml::Value),
}

} // verus!
