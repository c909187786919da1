//! One physical line of source text.
use vstd::prelude::*;

verus! {

/// A line of source text, with its line number where one is known.
#[derive(Clone, Debug)]
pub struct SourceLine {
    pub line: String,
    pub number: Option<usize>,
}

} // verus!
