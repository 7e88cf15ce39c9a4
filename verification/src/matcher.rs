//! Compiled keyword matchers.
//!
//! A keyword is an ordered sequence of target letters.  Its compiled matcher
//! accepts a text when, somewhere in the text, each letter is represented by
//! one member of that letter's character class, with at most one whitespace
//! character between consecutive letters — unanchored and tolerant of
//! homoglyph substitution.  Matching time is linear in the text length: each
//! start position is tried once, and the work per start depends only on the
//! keyword, never on the text.

use crate::registry::class_for;
use crate::registry::in_class;
use crate::registry::is_registry_letter;
use crate::registry::CharacterClass;
use crate::whitespace::is_space;
use crate::whitespace::is_space_char;
use vstd::prelude::*;

verus! {

/// Whether `text`, from position `i` on, spells the letters `letters[j..]`:
/// position `i` holds a member of the class of `letters[j]`, and the rest of
/// the letters follow either directly or after exactly one whitespace
/// character.
pub open spec fn matches_from(text: Seq<char>, letters: Seq<char>, j: int, i: int) -> bool
    decreases letters.len() - j,
{
    if !(0 <= j < letters.len()) {
        true
    } else if !(0 <= i < text.len()) {
        false
    } else if !in_class(letters[j], text[i]) {
        false
    } else if j == letters.len() - 1 {
        true
    } else {
        matches_from(text, letters, j + 1, i + 1) || (i + 1 < text.len() && is_space_char(
            text[i + 1],
        ) && matches_from(text, letters, j + 1, i + 2))
    }
}

/// Whether the keyword spelled by `letters` occurs anywhere in `text`.
pub open spec fn keyword_match(text: Seq<char>, letters: Seq<char>) -> bool {
    exists|i: int| 0 <= i < text.len() && matches_from(text, letters, 0, i)
}

/// The only failure the library knows: a keyword named a letter that the
/// confusable registry has no class for, found when the keyword is compiled,
/// never at classification time.
#[derive(Clone, Copy, PartialEq, Eq, Structural, Debug)]
pub struct CompileError {
    /// The letter without a character class.
    pub letter: char,
}

/// The compiled form of one keyword: the character class of each letter, in
/// order.  Immutable once built.
#[derive(Clone, Debug)]
pub struct KeywordMatcher {
    classes: Vec<CharacterClass>,
}

impl KeywordMatcher {
    /// The target letters this matcher was compiled from.
    pub closed spec fn letters(&self) -> Seq<char> {
        self.classes@.map(|_j: int, cc: CharacterClass| cc.letter())
    }

    /// Each carried class is the registry's class for its letter.
    pub closed spec fn wf(&self) -> bool {
        forall|j: int| 0 <= j < self.classes@.len() ==> (#[trigger] self.classes@[j]).wf()
    }

    /// Builds the matcher for the keyword spelled by `letters`.  Succeeds
    /// exactly when every letter has a class in the registry; otherwise
    /// reports the first letter that has none.
    pub fn compile(letters: &Vec<char>) -> (r: Result<KeywordMatcher, CompileError>)
        ensures
            match r {
                Ok(m) => m.wf() && m.letters() == letters@ && forall|j: int|
                    0 <= j < letters@.len() ==> is_registry_letter(#[trigger] letters@[j]),
                Err(e) => exists|j: int|
                    0 <= j < letters@.len() && letters@[j] == e.letter && !is_registry_letter(
                        e.letter,
                    ) && forall|k: int| 0 <= k < j ==> is_registry_letter(#[trigger] letters@[k]),
            },
    {
        let mut classes: Vec<CharacterClass> = Vec::new();
        let mut j: usize = 0;
        while j < letters.len()
            invariant
                j <= letters@.len(),
                classes@.len() == j,
                forall|k: int| 0 <= k < j ==> (#[trigger] classes@[k]).wf(),
                forall|k: int| 0 <= k < j ==> (#[trigger] classes@[k]).letter() == letters@[k],
                forall|k: int| 0 <= k < j ==> is_registry_letter(#[trigger] letters@[k]),
            decreases letters@.len() - j,
        {
            let letter = letters[j];
            match class_for(letter) {
                Some(cc) => classes.push(cc),
                None => {
                    return Err(CompileError { letter });
                },
            }
            j += 1;
        }
        let m = KeywordMatcher { classes };
        proof {
            assert(m.letters() =~= letters@);
        }
        Ok(m)
    }

    /// Whether `text`, from position `i` on, spells the letters from index
    /// `j` on.
    fn match_at(&self, text: &Vec<char>, j: usize, i: usize) -> (r: bool)
        requires
            self.wf(),
        ensures
            r == matches_from(text@, self.letters(), j as int, i as int),
        decreases self.classes@.len() - j,
    {
        if j >= self.classes.len() {
            true
        } else if i >= text.len() {
            false
        } else if !self.classes[j].contains(text[i]) {
            false
        } else if j == self.classes.len() - 1 {
            true
        } else if self.match_at(text, j + 1, i + 1) {
            true
        } else {
            i + 1 < text.len() && is_space(text[i + 1]) && self.match_at(text, j + 1, i + 2)
        }
    }

    /// Whether the keyword occurs anywhere in `text`.
    pub fn is_match(&self, text: &Vec<char>) -> (r: bool)
        requires
            self.wf(),
        ensures
            r == keyword_match(text@, self.letters()),
    {
        let mut i: usize = 0;
        while i < text.len()
            invariant
                self.wf(),
                i <= text@.len(),
                forall|k: int| 0 <= k < i ==> !matches_from(text@, self.letters(), 0, k),
            decreases text@.len() - i,
        {
            if self.match_at(text, 0, i) {
                return true;
            }
            i += 1;
        }
        false
    }
}

/// One concrete way `text` spells `letters[j..]`: `pos[k]` is the position
/// standing for letter `j + k`, each holding a member of that letter's
/// class, consecutive positions adjacent or separated by exactly one
/// whitespace character.
pub open spec fn alignment_from(text: Seq<char>, letters: Seq<char>, j: int, pos: Seq<int>) -> bool {
    &&& pos.len() == letters.len() - j
    &&& forall|k: int| 0 <= k < pos.len() ==> 0 <= #[trigger] pos[k] < text.len()
    &&& forall|k: int| 0 <= k < pos.len() ==> in_class(letters[j + k], text[#[trigger] pos[k]])
    &&& forall|k: int|
        0 <= k < pos.len() - 1 ==> ((#[trigger] pos[k + 1]) == pos[k] + 1 || (pos[k + 1] == pos[k]
            + 2 && is_space_char(text[pos[k] + 1])))
}

/// One concrete way `text` spells the whole keyword `letters`.
pub open spec fn alignment_ok(text: Seq<char>, letters: Seq<char>, pos: Seq<int>) -> bool {
    alignment_from(text, letters, 0, pos)
}

/// Aligned positions grow strictly, by one or two per letter.
proof fn lemma_alignment_gap(text: Seq<char>, letters: Seq<char>, j: int, pos: Seq<int>, k1: int, k2: int)
    requires
        alignment_from(text, letters, j, pos),
        0 <= k1 <= k2 < pos.len(),
    ensures
        pos[k1] + (k2 - k1) <= pos[k2] <= pos[k1] + 2 * (k2 - k1),
    decreases k2 - k1,
{
    if k1 < k2 {
        lemma_alignment_gap(text, letters, j, pos, k1, k2 - 1);
        assert(pos[(k2 - 1) + 1] == pos[k2 - 1] + 1 || (pos[(k2 - 1) + 1] == pos[k2 - 1] + 2
            && is_space_char(text[pos[k2 - 1] + 1])));
    }
}

/// A match from a position yields an alignment starting there.
proof fn lemma_matches_from_to_alignment(text: Seq<char>, letters: Seq<char>, j: int, i: int) -> (pos: Seq<int>)
    requires
        0 <= j < letters.len(),
        matches_from(text, letters, j, i),
    ensures
        alignment_from(text, letters, j, pos),
        pos.len() > 0,
        pos[0] == i,
    decreases letters.len() - j,
{
    if j == letters.len() - 1 {
        seq![i]
    } else {
        if matches_from(text, letters, j + 1, i + 1) {
            let rest = lemma_matches_from_to_alignment(text, letters, j + 1, i + 1);
            let pos = seq![i] + rest;
            assert forall|k: int| 0 <= k < pos.len() implies 0 <= #[trigger] pos[k]
                < text.len() by {
                if k > 0 {
                    assert(pos[k] == rest[k - 1]);
                }
            }
            assert forall|k: int| 0 <= k < pos.len() implies in_class(
                letters[j + k],
                text[#[trigger] pos[k]],
            ) by {
                if k > 0 {
                    assert(pos[k] == rest[k - 1]);
                    assert(in_class(letters[(j + 1) + (k - 1)], text[rest[k - 1]]));
                }
            }
            assert forall|k: int| 0 <= k < pos.len() - 1 implies ((#[trigger] pos[k + 1]) == pos[k]
                + 1 || (pos[k + 1] == pos[k] + 2 && is_space_char(text[pos[k] + 1]))) by {
                if k == 0 {
                    assert(pos[1] == rest[0]);
                } else {
                    assert(pos[k] == rest[k - 1]);
                    assert(pos[k + 1] == rest[k]);
                    assert(rest[(k - 1) + 1] == rest[k - 1] + 1 || (rest[(k - 1) + 1] == rest[k - 1]
                        + 2 && is_space_char(text[rest[k - 1] + 1])));
                }
            }
            pos
        } else {
            let rest = lemma_matches_from_to_alignment(text, letters, j + 1, i + 2);
            let pos = seq![i] + rest;
            assert forall|k: int| 0 <= k < pos.len() implies 0 <= #[trigger] pos[k]
                < text.len() by {
                if k > 0 {
                    assert(pos[k] == rest[k - 1]);
                }
            }
            assert forall|k: int| 0 <= k < pos.len() implies in_class(
                letters[j + k],
                text[#[trigger] pos[k]],
            ) by {
                if k > 0 {
                    assert(pos[k] == rest[k - 1]);
                    assert(in_class(letters[(j + 1) + (k - 1)], text[rest[k - 1]]));
                }
            }
            assert forall|k: int| 0 <= k < pos.len() - 1 implies ((#[trigger] pos[k + 1]) == pos[k]
                + 1 || (pos[k + 1] == pos[k] + 2 && is_space_char(text[pos[k] + 1]))) by {
                if k == 0 {
                    assert(pos[1] == rest[0]);
                    assert(is_space_char(text[i + 1]));
                } else {
                    assert(pos[k] == rest[k - 1]);
                    assert(pos[k + 1] == rest[k]);
                    assert(rest[(k - 1) + 1] == rest[k - 1] + 1 || (rest[(k - 1) + 1] == rest[k - 1]
                        + 2 && is_space_char(text[rest[k - 1] + 1])));
                }
            }
            pos
        }
    }
}

/// An alignment yields a match from its first position.
proof fn lemma_alignment_to_matches_from(text: Seq<char>, letters: Seq<char>, j: int, pos: Seq<int>)
    requires
        0 <= j < letters.len(),
        alignment_from(text, letters, j, pos),
    ensures
        matches_from(text, letters, j, pos[0]),
    decreases letters.len() - j,
{
    assert(0 <= pos[0] < text.len());
    assert(in_class(letters[j + 0], text[pos[0]]));
    if j < letters.len() - 1 {
        let rest = pos.skip(1);
        assert forall|k: int| 0 <= k < rest.len() implies 0 <= #[trigger] rest[k] < text.len() by {
            assert(rest[k] == pos[k + 1]);
        }
        assert forall|k: int| 0 <= k < rest.len() implies in_class(
            letters[(j + 1) + k],
            text[#[trigger] rest[k]],
        ) by {
            assert(rest[k] == pos[k + 1]);
            assert(in_class(letters[j + (k + 1)], text[pos[k + 1]]));
        }
        assert forall|k: int| 0 <= k < rest.len() - 1 implies ((#[trigger] rest[k + 1]) == rest[k]
            + 1 || (rest[k + 1] == rest[k] + 2 && is_space_char(text[rest[k] + 1]))) by {
            assert(rest[k] == pos[k + 1]);
            assert(rest[k + 1] == pos[k + 2]);
            assert(pos[(k + 1) + 1] == pos[k + 1] + 1 || (pos[(k + 1) + 1] == pos[k + 1] + 2
                && is_space_char(text[pos[k + 1] + 1])));
        }
        lemma_alignment_to_matches_from(text, letters, j + 1, rest);
        assert(rest[0] == pos[1]);
        assert(pos[0int + 1] == pos[0int] + 1 || (pos[0int + 1] == pos[0int] + 2 && is_space_char(
            text[pos[0int] + 1],
        )));
    }
}

/// A keyword occurs in a text exactly when some alignment exhibits it.
pub proof fn lemma_match_iff_alignment(text: Seq<char>, letters: Seq<char>)
    requires
        letters.len() > 0,
    ensures
        keyword_match(text, letters) <==> exists|pos: Seq<int>| alignment_ok(text, letters, pos),
{
    if keyword_match(text, letters) {
        let i = choose|i: int| 0 <= i < text.len() && matches_from(text, letters, 0, i);
        let pos = lemma_matches_from_to_alignment(text, letters, 0, i);
        assert(alignment_ok(text, letters, pos));
    }
    if exists|pos: Seq<int>| alignment_ok(text, letters, pos) {
        let pos = choose|pos: Seq<int>| alignment_ok(text, letters, pos);
        lemma_alignment_to_matches_from(text, letters, 0, pos);
        assert(0 <= pos[0] < text.len());
        assert(keyword_match(text, letters));
    }
}

/// Homoglyph substitution: replacing the character at one aligned position
/// by any other member of the same letter's class leaves the keyword
/// matched.
pub proof fn lemma_homoglyph_substitution(
    text: Seq<char>,
    letters: Seq<char>,
    pos: Seq<int>,
    k: int,
    c: char,
)
    requires
        letters.len() > 0,
        alignment_ok(text, letters, pos),
        0 <= k < pos.len(),
        in_class(letters[k], c),
    ensures
        alignment_ok(text.update(pos[k], c), letters, pos),
        keyword_match(text.update(pos[k], c), letters),
{
    let t2 = text.update(pos[k], c);
    assert forall|m: int| 0 <= m < pos.len() implies in_class(
        letters[0 + m],
        t2[#[trigger] pos[m]],
    ) by {
        if m != k {
            if m < k {
                lemma_alignment_gap(text, letters, 0, pos, m, k);
            } else {
                lemma_alignment_gap(text, letters, 0, pos, k, m);
            }
            assert(pos[m] != pos[k]);
            assert(t2[pos[m]] == text[pos[m]]);
            assert(in_class(letters[0 + m], text[pos[m]]));
        }
    }
    assert forall|m: int| 0 <= m < pos.len() - 1 implies ((#[trigger] pos[m + 1]) == pos[m] + 1 || (
    pos[m + 1] == pos[m] + 2 && is_space_char(t2[pos[m] + 1]))) by {
        assert(pos[m + 1] == pos[m] + 1 || (pos[m + 1] == pos[m] + 2 && is_space_char(
            text[pos[m] + 1],
        )));
        if pos[m + 1] == pos[m] + 2 {
            if k <= m {
                lemma_alignment_gap(text, letters, 0, pos, k, m);
            } else {
                lemma_alignment_gap(text, letters, 0, pos, m + 1, k);
            }
            assert(pos[m] + 1 != pos[k]);
            assert(t2[pos[m] + 1] == text[pos[m] + 1]);
        }
    }
    assert(alignment_ok(t2, letters, pos));
    lemma_alignment_to_matches_from(t2, letters, 0, pos);
    assert(0 <= pos[0] < t2.len());
    assert(keyword_match(t2, letters));
}

/// Letter-spacing tolerance: inserting exactly one whitespace character
/// between two adjacent aligned letters leaves the keyword matched.
pub proof fn lemma_single_space_insertion(
    text: Seq<char>,
    letters: Seq<char>,
    pos: Seq<int>,
    k: int,
    ws: char,
)
    requires
        letters.len() > 0,
        alignment_ok(text, letters, pos),
        0 <= k < pos.len() - 1,
        pos[k + 1] == pos[k] + 1,
        is_space_char(ws),
    ensures
        keyword_match(text.insert(pos[k] + 1, ws), letters),
{
    let q = pos[k] + 1;
    let t2 = text.insert(q, ws);
    text.insert_ensures(q, ws);
    let pos2 = pos.map(|m: int, p: int| if m <= k { p } else { p + 1 });
    assert forall|m: int| 0 <= m < pos2.len() implies 0 <= #[trigger] pos2[m] < t2.len() by {
        assert(pos2[m] == if m <= k { pos[m] } else { pos[m] + 1 });
    }
    assert forall|m: int| 0 <= m < pos2.len() implies in_class(
        letters[0 + m],
        t2[#[trigger] pos2[m]],
    ) by {
        assert(pos2[m] == if m <= k { pos[m] } else { pos[m] + 1 });
        assert(in_class(letters[0 + m], text[pos[m]]));
        if m <= k {
            lemma_alignment_gap(text, letters, 0, pos, m, k);
            assert(pos[m] < q);
            assert(t2[pos[m]] == text[pos[m]]);
        } else {
            lemma_alignment_gap(text, letters, 0, pos, k + 1, m);
            assert(pos[m] >= q);
            assert(t2[pos[m] + 1] == text[pos[m]]);
        }
    }
    assert forall|m: int| 0 <= m < pos2.len() - 1 implies ((#[trigger] pos2[m + 1]) == pos2[m] + 1
        || (pos2[m + 1] == pos2[m] + 2 && is_space_char(t2[pos2[m] + 1]))) by {
        assert(pos2[m] == if m <= k { pos[m] } else { pos[m] + 1 });
        assert(pos2[m + 1] == if m + 1 <= k { pos[m + 1] } else { pos[m + 1] + 1 });
        assert(pos[m + 1] == pos[m] + 1 || (pos[m + 1] == pos[m] + 2 && is_space_char(
            text[pos[m] + 1],
        )));
        if m < k {
            lemma_alignment_gap(text, letters, 0, pos, m + 1, k);
            assert(pos[m + 1] <= pos[k]);
            if pos[m + 1] == pos[m] + 2 {
                assert(pos[m] + 1 < q);
                assert(t2[pos[m] + 1] == text[pos[m] + 1]);
            }
        } else if m == k {
            assert(pos2[m] == pos[k]);
            assert(pos2[m + 1] == pos[k] + 2);
            assert(t2[q] == ws);
        } else {
            if pos[m + 1] == pos[m] + 2 {
                lemma_alignment_gap(text, letters, 0, pos, k + 1, m);
                assert(pos[m] >= q);
                assert(t2[(pos[m] + 1) + 1] == text[pos[m] + 1]);
            }
        }
    }
    assert(alignment_ok(t2, letters, pos2));
    lemma_alignment_to_matches_from(t2, letters, 0, pos2);
    assert(0 <= pos2[0] < t2.len());
    assert(keyword_match(t2, letters));
}

} // verus!
