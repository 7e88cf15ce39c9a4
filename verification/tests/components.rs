use spamglyph::matcher::KeywordMatcher;
use spamglyph::normalize::normalize;
use spamglyph::registry::class_for;
use spamglyph::whitespace::is_space;

fn chars(s: &str) -> Vec<char> {
    s.chars().collect()
}

#[test]
fn normalize_collapses_runs_to_one_ascii_space() {
    assert_eq!(normalize(&chars("a \t\n b")), chars("a b"));
    assert_eq!(normalize(&chars("a\u{2000}\u{2001}\u{3000}b")), chars("a b"));
    assert_eq!(normalize(&chars("\t\tx\r\n")), chars(" x "));
    assert_eq!(normalize(&chars("")), chars(""));
    assert_eq!(normalize(&chars("plain")), chars("plain"));
}

#[test]
fn normalize_is_idempotent() {
    for s in ["", "  ", "a \t b\n\nc", "\u{A0}x\u{1680}y", "already normal"] {
        let once = normalize(&chars(s));
        let twice = normalize(&once);
        assert_eq!(twice, once, "normalize not idempotent on {:?}", s);
    }
}

#[test]
fn whitespace_kinds_fold_to_the_same_form() {
    let with_tab = normalize(&chars("a\tb"));
    let with_newline = normalize(&chars("a\nb"));
    let with_em_space = normalize(&chars("a\u{2003}b"));
    let with_space = normalize(&chars("a b"));
    assert_eq!(with_tab, with_space);
    assert_eq!(with_newline, with_space);
    assert_eq!(with_em_space, with_space);
}

#[test]
fn space_predicate_accepts_unicode_space_separators() {
    for c in [' ', '\t', '\n', '\r', '\u{85}', '\u{A0}', '\u{1680}', '\u{2009}', '\u{202F}',
        '\u{205F}', '\u{3000}'] {
        assert!(is_space(c), "{:?} should count as whitespace", c);
    }
    for c in ['a', '0', '_', '\u{430}', '\u{1F1E6}'] {
        assert!(!is_space(c), "{:?} should not count as whitespace", c);
    }
}

#[test]
fn class_membership_substitution_keeps_the_match() {
    let airdrop = KeywordMatcher::compile(&vec!['a', 'i', 'r', 'd', 'r', 'o', 'p']).unwrap();
    assert!(airdrop.is_match(&chars("xx airdrop yy")));
    // replace each letter in turn by a confusable of its class
    assert!(airdrop.is_match(&chars("xx \u{430}irdrop yy")));
    assert!(airdrop.is_match(&chars("xx a1rdrop yy")));
    assert!(airdrop.is_match(&chars("xx ai\u{440}drop yy")));
    assert!(airdrop.is_match(&chars("xx air\u{501}rop yy")));
    assert!(airdrop.is_match(&chars("xx airdRop yy")));
    assert!(airdrop.is_match(&chars("xx airdr0p yy")));
    assert!(airdrop.is_match(&chars("xx airdro\u{3C1} yy")));
    // a character in no class breaks it
    assert!(!airdrop.is_match(&chars("xx airdrqp yy")));
}

#[test]
fn one_space_between_letters_is_tolerated_two_are_not() {
    let token = KeywordMatcher::compile(&vec!['t', 'o', 'k', 'e', 'n']).unwrap();
    assert!(token.is_match(&chars("token")));
    assert!(token.is_match(&chars("t o k e n")));
    assert!(token.is_match(&chars("tok en")));
    // the matcher itself refuses a double space: normalization handles those
    assert!(!token.is_match(&chars("tok  en")));
    assert!(token.is_match(&normalize(&chars("tok  en"))));
}

#[test]
fn matching_is_unanchored() {
    let wallet = KeywordMatcher::compile(&vec!['w', 'a', 'l', 'l', 'e', 't']).unwrap();
    assert!(wallet.is_match(&chars("wallet")));
    assert!(wallet.is_match(&chars("my wallet!")));
    assert!(wallet.is_match(&chars("wallets")));
    assert!(wallet.is_match(&chars("wal let me in"))); // one space inside the word is tolerated
    assert!(!wallet.is_match(&chars("")));
    assert!(!wallet.is_match(&chars("wallot")));
}

#[test]
fn compile_reports_the_first_unregistered_letter() {
    let err = KeywordMatcher::compile(&vec!['a', 'z', 'q']).unwrap_err();
    assert_eq!(err.letter, 'z');
    let err = KeywordMatcher::compile(&vec!['x']).unwrap_err();
    assert_eq!(err.letter, 'x');
    assert!(KeywordMatcher::compile(&vec!['w', 'a', 'l', 'l', 'e', 't']).is_ok());
}

#[test]
fn registry_covers_the_keyword_alphabet() {
    for letter in ['a', 'd', 'e', 'i', 'k', 'l', 'n', 'o', 'p', 'r', 't', 'w'] {
        let class = class_for(letter).unwrap();
        assert!(class.contains(letter), "class of {:?} misses the letter itself", letter);
    }
    assert!(class_for('z').is_none());
    assert!(class_for('0').is_none());
}

#[test]
fn registry_accepts_homoglyphs_and_both_cases() {
    let a = class_for('a').unwrap();
    assert!(a.contains('A'));
    assert!(a.contains('\u{430}')); // Cyrillic small a
    assert!(a.contains('\u{410}')); // Cyrillic capital a
    assert!(a.contains('\u{1F1E6}')); // regional indicator A
    assert!(!a.contains('b'));
    let t = class_for('t').unwrap();
    assert!(t.contains('7'));
    assert!(t.contains('\u{422}')); // Cyrillic capital te
    assert!(!t.contains('8'));
    let o = class_for('o').unwrap();
    assert!(o.contains('0'));
    assert!(!o.contains('q'));
}
