//! The token stream: a sequence of strings, each seen through its characters.
use vstd::prelude::*;

verus! {

/// The contents of each string of a token sequence.
pub open spec fn unit_views(units: Seq<String>) -> Seq<Seq<char>> {
    units.map_values(|s: String| s@)
}

/// The token sequence that holds each character of `s` as a string of its own.
pub open spec fn singletons(s: Seq<char>) -> Seq<Seq<char>> {
    s.map_values(|c: char| seq![c])
}

} // verus!
