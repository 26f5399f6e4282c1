use vstd::prelude::*;
use vstd::string::StrSliceExecFns;

verus! {

/// An adjacent two-character substring of a word.
#[derive(Clone, Copy, Debug, PartialEq, Eq, Structural)]
pub struct Bigram {
    pub first: char,
    pub second: char,
}

impl Bigram {
    pub fn new(first: char, second: char) -> (b: Bigram)
        ensures
            b.first == first,
            b.second == second,
    {
        Bigram { first, second }
    }

    /// The bigram formed by the first two characters of `word`.
    pub fn from_string(word: &str) -> (b: Bigram)
        requires
            word@.len() >= 2,
        ensures
            b.first == word@[0],
            b.second == word@[1],
    {
        let first = word.get_char(0);
        let second = word.get_char(1);
        Bigram { first, second }
    }
}

} // verus!
