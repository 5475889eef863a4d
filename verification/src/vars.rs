//! Variables as a plain struct for use with the template renderer.

use vstd::prelude::*;

verus! {

/// The two variables the renderer cares about; `content` is the content
/// text, already rendered to HTML upstream.
#[derive(Debug)]
pub struct Vars {
    pub title: Option<String>,
    pub content: Option<String>,
}

} // verus!
