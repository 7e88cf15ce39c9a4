//! The confusable registry: for each Latin letter that the configured
//! keywords use, the set of characters accepted in its place.
//!
//! Each class lists, beside both cases of the plain Latin letter, the
//! Cyrillic and Greek homoglyphs (both cases, where the script has them),
//! look-alike digits and symbols, enclosed-alphanumeric glyphs, the emoji
//! variation selector that rides along with those glyphs, and the regional
//! indicator symbol that renders as the letter's flag.  Adding a confusable
//! means extending the letter's list here and nothing else.

use vstd::prelude::*;

verus! {

/// The members of the character class for `letter`: every character accepted
/// in place of that letter.  Empty for a letter outside the registry's
/// alphabet.
pub open spec fn class_members(letter: char) -> Seq<char> {
    match letter {
        // Latin a/A, Cyrillic a/A, negative squared A, variation selector,
        // regional indicator A
        'a' => seq!['a', 'A', '\u{430}', '\u{410}', '\u{1F170}', '\u{FE0F}', '\u{1F1E6}'],
        // Latin d/D, Cyrillic komi de (both cases), regional indicator D
        'd' => seq!['d', 'D', '\u{501}', '\u{500}', '\u{1F1E9}'],
        // Latin e/E, digit three, euro sign, script e (both cases),
        // regional indicator E
        'e' => seq!['e', 'E', '3', '\u{20AC}', '\u{212F}', '\u{2130}', '\u{1F1EA}'],
        // Latin i/I, digit one, Latin l/L, Cyrillic i (both cases),
        // information source, variation selector, regional indicator I
        'i' => seq![
            'i',
            'I',
            '1',
            'l',
            'L',
            '\u{456}',
            '\u{406}',
            '\u{2139}',
            '\u{FE0F}',
            '\u{1F1EE}',
        ],
        // Latin k/K, kelvin sign, regional indicator K
        'k' => seq!['k', 'K', '\u{212A}', '\u{1F1F0}'],
        // Latin l/L, digit one, vertical line, script l, regional indicator L
        'l' => seq!['l', 'L', '1', '|', '\u{2113}', '\u{1F1F1}'],
        // Latin n/N, double-struck N, regional indicator N
        'n' => seq!['n', 'N', '\u{2115}', '\u{1F1F3}'],
        // Latin o/O, digit zero, Cyrillic o (both cases), negative squared O,
        // variation selector, regional indicator O
        'o' => seq!['o', 'O', '0', '\u{43E}', '\u{41E}', '\u{1F17E}', '\u{FE0F}', '\u{1F1F4}'],
        // Latin p/P, Cyrillic er (both cases), Greek rho (small, curled, and
        // capital), negative squared P, variation selector, regional
        // indicator P
        'p' => seq![
            'p',
            'P',
            '\u{440}',
            '\u{420}',
            '\u{3C1}',
            '\u{3F1}',
            '\u{3A1}',
            '\u{1F17F}',
            '\u{FE0F}',
            '\u{1F1F5}',
        ],
        // Latin r/R, Cyrillic er (both cases), regional indicator R
        'r' => seq!['r', 'R', '\u{440}', '\u{420}', '\u{1F1F7}'],
        // Latin t/T, digit seven, Cyrillic te (both cases), dagger,
        // regional indicator T
        't' => seq!['t', 'T', '7', '\u{422}', '\u{442}', '\u{2020}', '\u{1F1F9}'],
        // Latin w/W, regional indicator W
        'w' => seq!['w', 'W', '\u{1F1FC}'],
        _ => Seq::empty(),
    }
}

/// Whether `letter` is one of the target letters the registry covers.
pub open spec fn is_registry_letter(letter: char) -> bool {
    ||| letter == 'a'
    ||| letter == 'd'
    ||| letter == 'e'
    ||| letter == 'i'
    ||| letter == 'k'
    ||| letter == 'l'
    ||| letter == 'n'
    ||| letter == 'o'
    ||| letter == 'p'
    ||| letter == 'r'
    ||| letter == 't'
    ||| letter == 'w'
}

/// Whether `c` may stand for `letter`: membership in the letter's class.
pub open spec fn in_class(letter: char, c: char) -> bool {
    class_members(letter).contains(c)
}

/// One letter's character class, carried by a compiled matcher: the target
/// letter together with the accepted stand-ins, fixed at construction.
#[derive(Clone, Debug)]
pub struct CharacterClass {
    letter: char,
    members: Vec<char>,
}

impl CharacterClass {
    /// The target letter this class stands for.
    pub closed spec fn letter(&self) -> char {
        self.letter
    }

    /// A well-formed class holds exactly the registry's members for its
    /// letter.
    pub closed spec fn wf(&self) -> bool {
        self.members@ == class_members(self.letter)
    }

    /// Decides whether `c` may stand for this class's letter.
    pub fn contains(&self, c: char) -> (r: bool)
        requires
            self.wf(),
        ensures
            r == in_class(self.letter(), c),
    {
        let mut i: usize = 0;
        while i < self.members.len()
            invariant
                self.wf(),
                i <= self.members@.len(),
                forall|k: int| 0 <= k < i ==> self.members@[k] != c,
            decreases self.members@.len() - i,
        {
            if self.members[i] == c {
                proof {
                    assert(class_members(self.letter)[i as int] == c);
                    assert(class_members(self.letter).contains(c));
                }
                return true;
            }
            i += 1;
        }
        false
    }
}

/// Looks a letter up in the registry: its character class, or `None` for a
/// letter outside the registry's alphabet.
pub fn class_for(letter: char) -> (r: Option<CharacterClass>)
    ensures
        match r {
            Some(cc) => cc.wf() && cc.letter() == letter && is_registry_letter(letter),
            None => !is_registry_letter(letter),
        },
{
    let members: Vec<char> = match letter {
        'a' => vec!['a', 'A', '\u{430}', '\u{410}', '\u{1F170}', '\u{FE0F}', '\u{1F1E6}'],
        'd' => vec!['d', 'D', '\u{501}', '\u{500}', '\u{1F1E9}'],
        'e' => vec!['e', 'E', '3', '\u{20AC}', '\u{212F}', '\u{2130}', '\u{1F1EA}'],
        'i' => vec![
            'i',
            'I',
            '1',
            'l',
            'L',
            '\u{456}',
            '\u{406}',
            '\u{2139}',
            '\u{FE0F}',
            '\u{1F1EE}',
        ],
        'k' => vec!['k', 'K', '\u{212A}', '\u{1F1F0}'],
        'l' => vec!['l', 'L', '1', '|', '\u{2113}', '\u{1F1F1}'],
        'n' => vec!['n', 'N', '\u{2115}', '\u{1F1F3}'],
        'o' => vec!['o', 'O', '0', '\u{43E}', '\u{41E}', '\u{1F17E}', '\u{FE0F}', '\u{1F1F4}'],
        'p' => vec![
            'p',
            'P',
            '\u{440}',
            '\u{420}',
            '\u{3C1}',
            '\u{3F1}',
            '\u{3A1}',
            '\u{1F17F}',
            '\u{FE0F}',
            '\u{1F1F5}',
        ],
        'r' => vec!['r', 'R', '\u{440}', '\u{420}', '\u{1F1F7}'],
        't' => vec!['t', 'T', '7', '\u{422}', '\u{442}', '\u{2020}', '\u{1F1F9}'],
        'w' => vec!['w', 'W', '\u{1F1FC}'],
        _ => {
            return None;
        },
    };
    Some(CharacterClass { letter, members })
}

} // verus!
