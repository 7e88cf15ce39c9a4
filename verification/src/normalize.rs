//! Whitespace normalization: every maximal run of whitespace characters in
//! the input folds to exactly one ASCII space, so spacing-based evasion is
//! independent of how many whitespace characters, and of which kind, were
//! used.

use crate::whitespace::is_space;
use crate::whitespace::is_space_char;
use vstd::prelude::*;

verus! {

/// The normal form of `s`, given whether the character just before `s`
/// already produced a space: each whitespace character becomes an ASCII
/// space, and a space directly after another one is dropped.
pub open spec fn norm_from(s: Seq<char>, after_space: bool) -> Seq<char>
    decreases s.len(),
{
    if s.len() == 0 {
        Seq::empty()
    } else if is_space_char(s[0]) {
        if after_space {
            norm_from(s.skip(1), true)
        } else {
            seq![' '] + norm_from(s.skip(1), true)
        }
    } else {
        seq![s[0]] + norm_from(s.skip(1), false)
    }
}

/// The whitespace-normal form of `s`: every maximal run of whitespace
/// collapsed to one ASCII space.
pub open spec fn normalized(s: Seq<char>) -> Seq<char> {
    norm_from(s, false)
}

/// What normalization establishes: the only whitespace character left is the
/// ASCII space, and no two spaces stand next to each other.
pub open spec fn whitespace_canonical(t: Seq<char>) -> bool {
    &&& forall|i: int| 0 <= i < t.len() && is_space_char(#[trigger] t[i]) ==> t[i] == ' '
    &&& forall|i: int| 0 <= i < t.len() - 1 ==> ((#[trigger] t[i]) != ' ' || t[i + 1] != ' ')
}

/// Computes the whitespace-normal form of `text`.
pub fn normalize(text: &Vec<char>) -> (r: Vec<char>)
    ensures
        r@ == normalized(text@),
{
    let mut out: Vec<char> = Vec::new();
    let mut after_space = false;
    let mut i: usize = 0;
    proof {
        assert(text@.skip(0) =~= text@);
        assert(Seq::<char>::empty() + norm_from(text@, false) =~= norm_from(text@, false));
    }
    while i < text.len()
        invariant
            i <= text@.len(),
            out@ + norm_from(text@.skip(i as int), after_space) == normalized(text@),
        decreases text@.len() - i,
    {
        let c = text[i];
        proof {
            assert(text@.skip(i as int)[0] == text@[i as int]);
            assert(text@.skip(i as int).skip(1) =~= text@.skip(i as int + 1));
        }
        if is_space(c) {
            if !after_space {
                proof {
                    assert((out@ + seq![' ']) + norm_from(text@.skip(i as int + 1), true) =~= out@
                        + (seq![' '] + norm_from(text@.skip(i as int + 1), true)));
                }
                out.push(' ');
            }
            after_space = true;
        } else {
            proof {
                assert((out@ + seq![c]) + norm_from(text@.skip(i as int + 1), false) =~= out@ + (
                seq![c] + norm_from(text@.skip(i as int + 1), false)));
            }
            out.push(c);
            after_space = false;
        }
        i += 1;
    }
    proof {
        assert(text@.skip(text@.len() as int) =~= Seq::<char>::empty());
        assert(out@ + Seq::<char>::empty() =~= out@);
    }
    out
}

proof fn lemma_norm_from_canonical(s: Seq<char>, after_space: bool)
    ensures
        whitespace_canonical(norm_from(s, after_space)),
        after_space && norm_from(s, after_space).len() > 0 ==> norm_from(s, after_space)[0] != ' ',
    decreases s.len(),
{
    if s.len() == 0 {
    } else if is_space_char(s[0]) {
        lemma_norm_from_canonical(s.skip(1), true);
        if !after_space {
            let rest = norm_from(s.skip(1), true);
            let t = seq![' '] + rest;
            assert forall|i: int| 0 <= i < t.len() && is_space_char(#[trigger] t[i]) implies t[i]
                == ' ' by {
                if i > 0 {
                    assert(t[i] == rest[i - 1]);
                }
            }
            assert forall|i: int| 0 <= i < t.len() - 1 implies ((#[trigger] t[i]) != ' ' || t[i + 1]
                != ' ') by {
                if i == 0 {
                    assert(t[1] == rest[0]);
                } else {
                    assert(t[i] == rest[i - 1]);
                    assert(t[i + 1] == rest[i]);
                }
            }
        }
    } else {
        lemma_norm_from_canonical(s.skip(1), false);
        let rest = norm_from(s.skip(1), false);
        let t = seq![s[0]] + rest;
        assert(is_space_char(' '));
        assert forall|i: int| 0 <= i < t.len() && is_space_char(#[trigger] t[i]) implies t[i]
            == ' ' by {
            if i > 0 {
                assert(t[i] == rest[i - 1]);
            }
        }
        assert forall|i: int| 0 <= i < t.len() - 1 implies ((#[trigger] t[i]) != ' ' || t[i + 1]
            != ' ') by {
            if i > 0 {
                assert(t[i] == rest[i - 1]);
                assert(t[i + 1] == rest[i]);
            }
        }
    }
}

proof fn lemma_norm_from_of_canonical(t: Seq<char>, after_space: bool)
    requires
        whitespace_canonical(t),
        after_space && t.len() > 0 ==> t[0] != ' ',
    ensures
        norm_from(t, after_space) == t,
    decreases t.len(),
{
    if t.len() == 0 {
        assert(norm_from(t, after_space) =~= t);
    } else {
        let u = t.skip(1);
        assert forall|i: int| 0 <= i < u.len() && is_space_char(#[trigger] u[i]) implies u[i]
            == ' ' by {
            assert(u[i] == t[i + 1]);
        }
        assert forall|i: int| 0 <= i < u.len() - 1 implies ((#[trigger] u[i]) != ' ' || u[i + 1]
            != ' ') by {
            assert(u[i] == t[i + 1]);
            assert(u[i + 1] == t[i + 2]);
        }
        if is_space_char(t[0]) {
            assert(t[0] == ' ');
            if u.len() > 0 {
                assert(u[0] == t[1]);
            }
            lemma_norm_from_of_canonical(u, true);
            assert(seq![' '] + u =~= t);
        } else {
            lemma_norm_from_of_canonical(u, false);
            assert(seq![t[0]] + u =~= t);
        }
    }
}

/// Normalized text is canonical: the only whitespace left is the ASCII
/// space, and no two spaces are adjacent — runs of whitespace of any kind
/// have folded to one space.
pub proof fn lemma_normalized_canonical(s: Seq<char>)
    ensures
        whitespace_canonical(normalized(s)),
{
    lemma_norm_from_canonical(s, false);
}

/// Normalization is idempotent.
pub proof fn lemma_normalized_idempotent(s: Seq<char>)
    ensures
        normalized(normalized(s)) == normalized(s),
{
    lemma_norm_from_canonical(s, false);
    lemma_norm_from_of_canonical(normalized(s), false);
}

proof fn lemma_norm_from_insert(s: Seq<char>, q: int, ws: char, after_space: bool)
    requires
        0 <= q < s.len(),
        is_space_char(s[q]),
        is_space_char(ws),
    ensures
        norm_from(s.insert(q, ws), after_space) == norm_from(s, after_space),
    decreases q,
{
    let t = s.insert(q, ws);
    if q == 0 {
        assert(t[0] == ws);
        assert(t.skip(1) =~= s);
        assert(norm_from(t, true) == norm_from(s, true));
        assert(norm_from(s, true) == norm_from(s.skip(1), true));
        assert(norm_from(s, false) == seq![' '] + norm_from(s.skip(1), true));
        assert(norm_from(t, false) == seq![' '] + norm_from(s, true));
    } else {
        assert(t[0] == s[0]);
        assert(t.skip(1) =~= s.skip(1).insert(q - 1, ws));
        assert(s.skip(1)[q - 1] == s[q]);
        if is_space_char(s[0]) {
            lemma_norm_from_insert(s.skip(1), q - 1, ws, true);
            assert(norm_from(t, true) == norm_from(t.skip(1), true));
            assert(norm_from(s, true) == norm_from(s.skip(1), true));
            assert(norm_from(t, false) == seq![' '] + norm_from(t.skip(1), true));
            assert(norm_from(s, false) == seq![' '] + norm_from(s.skip(1), true));
        } else {
            lemma_norm_from_insert(s.skip(1), q - 1, ws, false);
            assert(norm_from(t, after_space) == seq![t[0]] + norm_from(t.skip(1), false));
            assert(norm_from(s, after_space) == seq![s[0]] + norm_from(s.skip(1), false));
        }
    }
}

proof fn lemma_norm_from_update(s: Seq<char>, q: int, ws: char, after_space: bool)
    requires
        0 <= q < s.len(),
        is_space_char(s[q]),
        is_space_char(ws),
    ensures
        norm_from(s.update(q, ws), after_space) == norm_from(s, after_space),
    decreases q,
{
    let t = s.update(q, ws);
    if q == 0 {
        assert(t[0] == ws);
        assert(t.skip(1) =~= s.skip(1));
    } else {
        assert(t[0] == s[0]);
        assert(t.skip(1) =~= s.skip(1).update(q - 1, ws));
        assert(s.skip(1)[q - 1] == s[q]);
        if is_space_char(s[0]) {
            lemma_norm_from_update(s.skip(1), q - 1, ws, true);
            assert(norm_from(t, true) == norm_from(t.skip(1), true));
            assert(norm_from(s, true) == norm_from(s.skip(1), true));
            assert(norm_from(t, false) == seq![' '] + norm_from(t.skip(1), true));
            assert(norm_from(s, false) == seq![' '] + norm_from(s.skip(1), true));
        } else {
            lemma_norm_from_update(s.skip(1), q - 1, ws, false);
            assert(norm_from(t, after_space) == seq![t[0]] + norm_from(t.skip(1), false));
            assert(norm_from(s, after_space) == seq![s[0]] + norm_from(s.skip(1), false));
        }
    }
}

/// The kind of a whitespace character does not matter: replacing one
/// whitespace character by any other leaves the normalized text unchanged.
pub proof fn lemma_whitespace_kind_irrelevant(s: Seq<char>, q: int, ws: char)
    requires
        0 <= q < s.len(),
        is_space_char(s[q]),
        is_space_char(ws),
    ensures
        normalized(s.update(q, ws)) == normalized(s),
{
    lemma_norm_from_update(s, q, ws, false);
}

/// Widening a whitespace run changes nothing: inserting one more whitespace
/// character, of any kind, directly before a whitespace character that the
/// text already holds leaves the normalized text as it was.
pub proof fn lemma_insert_whitespace_in_run(s: Seq<char>, q: int, ws: char)
    requires
        0 <= q < s.len(),
        is_space_char(s[q]),
        is_space_char(ws),
    ensures
        normalized(s.insert(q, ws)) == normalized(s),
{
    lemma_norm_from_insert(s, q, ws, false);
}

} // verus!
