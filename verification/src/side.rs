use vstd::prelude::*;
use vstd::string::StrSliceExecFns;

use crate::bigram::Bigram;

verus! {

/// The outcome of a successful scan: the leftmost crossing pair of a word,
/// with the word split into the part before the pair, the pair itself, and
/// the part after it, ready for a renderer to highlight.
pub struct CrossingMatch {
    /// Index in the word of the pair's first character.
    pub position: usize,
    /// The two characters that cross the column boundary.
    pub pair: Bigram,
    /// The characters of the word before the pair.
    pub prefix: String,
    /// The characters of the word after the pair.
    pub suffix: String,
}

/// The bigram formed by the first two characters of a word of length at
/// least two.
pub open spec fn leading_bigram(w: Seq<char>) -> Bigram {
    Bigram { first: w[0], second: w[1] }
}

/// One hand's two non-home-row finger columns: three letters on the outer
/// column and three on the inner column. Built once per hand and never
/// mutated afterwards.
pub struct KeyboardSide {
    pub outer: [char; 3],
    pub inner: [char; 3],
}

/// Whether a three-letter column holds the character `c`.
pub open spec fn col_contains(col: [char; 3], c: char) -> bool {
    col@.contains(c)
}

/// The row index (0, 1 or 2) of the first slot of `col` holding either
/// character of `b`, or `None` when neither character is in the column.
pub open spec fn col_position(col: [char; 3], b: Bigram) -> Option<int> {
    if col@[0] == b.first || col@[0] == b.second {
        Some(0int)
    } else if col@[1] == b.first || col@[1] == b.second {
        Some(1int)
    } else if col@[2] == b.first || col@[2] == b.second {
        Some(2int)
    } else {
        None
    }
}

fn find_position(col: &[char; 3], b: &Bigram) -> (r: Option<usize>)
    ensures
        match r {
            Some(p) => col_position(*col, *b) == Some(p as int),
            None => col_position(*col, *b) is None,
        },
{
    if col[0] == b.first || col[0] == b.second {
        Some(0)
    } else if col[1] == b.first || col[1] == b.second {
        Some(1)
    } else if col[2] == b.first || col[2] == b.second {
        Some(2)
    } else {
        None
    }
}

impl KeyboardSide {
    pub open spec fn spec_in_outer(self, c: char) -> bool {
        col_contains(self.outer, c)
    }

    pub open spec fn spec_in_inner(self, c: char) -> bool {
        col_contains(self.inner, c)
    }

    /// A pair of characters crosses the column boundary when one belongs to
    /// the outer column and the other to the inner column.
    pub open spec fn spec_crosses(self, first: char, second: char) -> bool {
        (self.spec_in_outer(first) && self.spec_in_inner(second)) || (self.spec_in_inner(first)
            && self.spec_in_outer(second))
    }

    fn in_outer(&self, c: char) -> (r: bool)
        ensures
            r == self.spec_in_outer(c),
    {
        let hit = self.outer[0] == c || self.outer[1] == c || self.outer[2] == c;
        proof {
            if hit {
                assert(self.outer@.contains(c)) by {
                    if self.outer@[0] != c && self.outer@[1] != c {
                        assert(self.outer@[2] == c);
                    }
                }
            }
        }
        hit
    }

    fn in_inner(&self, c: char) -> (r: bool)
        ensures
            r == self.spec_in_inner(c),
    {
        let hit = self.inner[0] == c || self.inner[1] == c || self.inner[2] == c;
        proof {
            if hit {
                assert(self.inner@.contains(c)) by {
                    if self.inner@[0] != c && self.inner@[1] != c {
                        assert(self.inner@[2] == c);
                    }
                }
            }
        }
        hit
    }

    /// The same-row score of a bigram against this side: 1 when both columns
    /// hold a character of the bigram and the first outer slot holding one
    /// shares its row index with the first inner slot holding one; 0
    /// otherwise.
    pub open spec fn spec_strength(self, b: Bigram) -> int {
        match (col_position(self.outer, b), col_position(self.inner, b)) {
            (Some(o), Some(i)) => if o == i {
                1int
            } else {
                0int
            },
            _ => 0int,
        }
    }

    /// Score a bigram: 1 when its characters occupy matching row slots of the
    /// outer and inner columns, 0 otherwise.
    pub fn strength(&self, bigram: Bigram) -> (r: i32)
        ensures
            r == self.spec_strength(bigram),
            0 <= r <= 1,
    {
        let outer_pos = find_position(&self.outer, &bigram);
        let inner_pos = find_position(&self.inner, &bigram);
        match (outer_pos, inner_pos) {
            (Some(o), Some(i)) => if o == i {
                1
            } else {
                0
            },
            _ => 0,
        }
    }

    pub fn crosses(&self, first: char, second: char) -> (r: bool)
        ensures
            r == self.spec_crosses(first, second),
    {
        (self.in_outer(first) && self.in_inner(second)) || (self.in_inner(first) && self.in_outer(
            second,
        ))
    }

    /// The adjacent pair of `w` starting at index `i` crosses the column
    /// boundary. The pair formed by the last character and the end of the
    /// word never qualifies: only indices with a real successor count.
    pub open spec fn crossing_at(self, w: Seq<char>, i: int) -> bool {
        0 <= i && i + 1 < w.len() && self.spec_crosses(w[i], w[i + 1])
    }

    /// The index of the first crossing pair of `w` at or after index `i`.
    pub open spec fn first_crossing_from(self, w: Seq<char>, i: int) -> Option<int>
        decreases w.len() - i,
    {
        if i < 0 || i + 1 >= w.len() {
            None
        } else if self.spec_crosses(w[i], w[i + 1]) {
            Some(i)
        } else {
            self.first_crossing_from(w, i + 1)
        }
    }

    /// The index of the leftmost crossing pair of `w`, if any.
    pub open spec fn first_crossing(self, w: Seq<char>) -> Option<int> {
        self.first_crossing_from(w, 0)
    }

    proof fn lemma_first_crossing_from_sound(self, w: Seq<char>, i: int)
        requires
            0 <= i,
        ensures
            match self.first_crossing_from(w, i) {
                Some(k) => i <= k && self.crossing_at(w, k) && (forall|j: int|
                    i <= j < k ==> !self.crossing_at(w, j)),
                None => forall|j: int| i <= j ==> !self.crossing_at(w, j),
            },
        decreases w.len() - i,
    {
        if i + 1 < w.len() && !self.spec_crosses(w[i], w[i + 1]) {
            self.lemma_first_crossing_from_sound(w, i + 1);
        }
    }

    proof fn lemma_first_crossing_from_complete(self, w: Seq<char>, i: int, k: int)
        requires
            0 <= i <= k,
            self.crossing_at(w, k),
            forall|j: int| i <= j < k ==> !self.crossing_at(w, j),
        ensures
            self.first_crossing_from(w, i) == Some(k),
        decreases k - i,
    {
        if i < k {
            assert(!self.crossing_at(w, i));
            self.lemma_first_crossing_from_complete(w, i + 1, k);
        }
    }

    /// The classifier returns the leftmost crossing pair and never a later
    /// one: a reported index is a crossing, every earlier index is not, and
    /// when nothing is reported no index crosses at all.
    pub proof fn lemma_first_crossing_leftmost(self, w: Seq<char>)
        ensures
            match self.first_crossing(w) {
                Some(k) => self.crossing_at(w, k) && (forall|j: int|
                    j < k ==> !self.crossing_at(w, j)),
                None => forall|j: int| !self.crossing_at(w, j),
            },
    {
        self.lemma_first_crossing_from_sound(w, 0);
    }

    /// A word shorter than two characters has no crossing pair: a scan of it
    /// reports nothing.
    pub proof fn lemma_short_word_no_match(self, w: Seq<char>, r: Option<CrossingMatch>)
        requires
            w.len() < 2,
            self.classifies(w, r),
        ensures
            r is None,
    {
    }

    /// What a scan of the word `w` must report: `None` exactly when `w` has
    /// no crossing pair, and otherwise the leftmost crossing pair together
    /// with the characters of `w` before and after it.
    pub open spec fn classifies(self, w: Seq<char>, r: Option<CrossingMatch>) -> bool {
        match r {
            None => self.first_crossing(w) is None,
            Some(m) => self.first_crossing(w) == Some(m.position as int) && m.pair.first == w[
                m.position as int
            ] && m.pair.second == w[m.position as int + 1] && m.prefix@ == w.subrange(
                0,
                m.position as int,
            ) && m.suffix@ == w.subrange(m.position as int + 2, w.len() as int),
        }
    }

    /// Scan the word's adjacent pairs left to right and return the first one
    /// that crosses the outer/inner boundary, with the split of the word
    /// around it; `None` when no pair crosses before the word ends.
    pub fn check_bigram(&self, word: &str) -> (r: Option<CrossingMatch>)
        ensures
            self.classifies(word@, r),
    {
        let n = word.unicode_len();
        let mut i: usize = 0;
        while i + 1 < n
            invariant
                n == word@.len(),
                i == 0 || i + 1 <= n,
                forall|j: int| 0 <= j < i ==> !self.crossing_at(word@, j),
            decreases n - i,
        {
            let c = word.get_char(i);
            let next = word.get_char(i + 1);
            if self.crosses(c, next) {
                proof {
                    self.lemma_first_crossing_from_complete(word@, 0, i as int);
                }
                let prefix = word.substring_char(0, i).to_owned();
                let suffix = word.substring_char(i + 2, n).to_owned();
                return Some(
                    CrossingMatch { position: i, pair: Bigram::new(c, next), prefix, suffix },
                );
            }
            i += 1;
        }
        proof {
            self.lemma_first_crossing_leftmost(word@);
        }
        None
    }

    /// Splitting a word around its reported crossing pair loses nothing: the
    /// prefix, the pair and the suffix together spell the word again.
    pub proof fn lemma_match_reconstructs_word(self, w: Seq<char>, m: CrossingMatch)
        requires
            self.classifies(w, Some(m)),
        ensures
            m.prefix@ + seq![m.pair.first, m.pair.second] + m.suffix@ == w,
    {
        self.lemma_first_crossing_leftmost(w);
        assert(m.prefix@ + seq![m.pair.first, m.pair.second] + m.suffix@ =~= w);
    }

    /// Classification is a pure function of word and side: any two results
    /// that a scan of the same word against the same side may report agree in
    /// every part, so repeating a scan changes nothing.
    pub proof fn lemma_classification_deterministic(
        self,
        w: Seq<char>,
        r1: Option<CrossingMatch>,
        r2: Option<CrossingMatch>,
    )
        requires
            self.classifies(w, r1),
            self.classifies(w, r2),
        ensures
            r1 is Some <==> r2 is Some,
            r1 is Some ==> r1.unwrap().position == r2.unwrap().position,
            r1 is Some ==> r1.unwrap().pair == r2.unwrap().pair,
            r1 is Some ==> r1.unwrap().prefix@ == r2.unwrap().prefix@,
            r1 is Some ==> r1.unwrap().suffix@ == r2.unwrap().suffix@,
    {
    }

    /// A word none of whose characters belongs to either column has no
    /// crossing pair: a scan of it reports nothing.
    pub proof fn lemma_no_member_no_match(self, w: Seq<char>, r: Option<CrossingMatch>)
        requires
            forall|i: int|
                0 <= i < w.len() ==> !self.spec_in_outer(w[i]) && !self.spec_in_inner(w[i]),
            self.classifies(w, r),
        ensures
            r is None,
    {
        self.lemma_first_crossing_leftmost(w);
        if let Some(k) = self.first_crossing(w) {
            assert(!self.spec_in_outer(w[k]) && !self.spec_in_inner(w[k]));
        }
    }

    /// Report a word worth listing: the word's leading bigram must score a
    /// strength of 1 against this side and the word must hold a crossing
    /// pair; the report is then that pair's match together with the score.
    /// Words shorter than two characters, words whose leading bigram scores
    /// 0, and words without a crossing pair yield nothing.
    pub fn word_report(&self, word: &str) -> (r: Option<(CrossingMatch, i32)>)
        ensures
            r is Some <==> (word@.len() >= 2 && self.spec_strength(leading_bigram(word@)) == 1
                && self.first_crossing(word@) is Some),
            r is Some ==> self.classifies(word@, Some(r.unwrap().0)) && r.unwrap().1 == 1,
    {
        let n = word.unicode_len();
        if n < 2 {
            return None;
        }
        let lead = Bigram::from_string(word);
        let s = self.strength(lead);
        if s == 0 {
            return None;
        }
        match self.check_bigram(word) {
            Some(m) => Some((m, s)),
            None => None,
        }
    }

}

} // verus!
