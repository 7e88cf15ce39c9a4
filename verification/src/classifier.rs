//! The spam classifier: one compiled matcher per configured keyword and the
//! boolean rule combining them.
//!
//! The rule set is fixed: a message is spam when it contains "airdrop", or
//! when it contains both "wallet" and "token" — each keyword matched against
//! the whitespace-normalized text, anywhere in it, independently of order or
//! distance.

use crate::matcher::keyword_match;
use crate::matcher::CompileError;
use crate::matcher::KeywordMatcher;
use crate::normalize::lemma_insert_whitespace_in_run;
use crate::normalize::normalize;
use crate::normalize::normalized;
use crate::whitespace::is_space_char;
use vstd::prelude::*;
use vstd::string::StrSliceExecFns;

verus! {

/// The letters of the "airdrop" keyword.
pub open spec fn airdrop_letters() -> Seq<char> {
    seq!['a', 'i', 'r', 'd', 'r', 'o', 'p']
}

/// The letters of the "wallet" keyword.
pub open spec fn wallet_letters() -> Seq<char> {
    seq!['w', 'a', 'l', 'l', 'e', 't']
}

/// The letters of the "token" keyword.
pub open spec fn token_letters() -> Seq<char> {
    seq!['t', 'o', 'k', 'e', 'n']
}

/// The spam rule, over the raw text: after whitespace normalization, the
/// text contains "airdrop", or contains both "wallet" and "token".
pub open spec fn spam_verdict(text: Seq<char>) -> bool {
    let n = normalized(text);
    keyword_match(n, airdrop_letters()) || (keyword_match(n, wallet_letters()) && keyword_match(
        n,
        token_letters(),
    ))
}

/// The classifier: the compiled matchers of the configured keywords.  Built
/// once; classification never mutates it, so one instance may serve any
/// number of callers.
#[derive(Clone, Debug)]
pub struct RegularExpression {
    airdrop: KeywordMatcher,
    wallet: KeywordMatcher,
    token: KeywordMatcher,
}

impl RegularExpression {
    /// Each matcher is well-formed and compiled from its keyword's letters.
    pub closed spec fn wf(&self) -> bool {
        &&& self.airdrop.wf() && self.airdrop.letters() == airdrop_letters()
        &&& self.wallet.wf() && self.wallet.letters() == wallet_letters()
        &&& self.token.wf() && self.token.letters() == token_letters()
    }

    /// Builds the matchers of the configured keyword set.  Every configured
    /// letter has a class in the registry, so construction always succeeds;
    /// the error arm exists because a keyword set is in principle data that
    /// could name a letter the registry lacks.
    pub fn new() -> (r: Result<RegularExpression, CompileError>)
        ensures
            match r {
                Ok(c) => c.wf(),
                Err(_) => false,
            },
    {
        let airdrop_word: Vec<char> = vec!['a', 'i', 'r', 'd', 'r', 'o', 'p'];
        let wallet_word: Vec<char> = vec!['w', 'a', 'l', 'l', 'e', 't'];
        let token_word: Vec<char> = vec!['t', 'o', 'k', 'e', 'n'];
        let airdrop = match KeywordMatcher::compile(&airdrop_word) {
            Ok(m) => m,
            Err(e) => {
                return Err(e);
            },
        };
        let wallet = match KeywordMatcher::compile(&wallet_word) {
            Ok(m) => m,
            Err(e) => {
                return Err(e);
            },
        };
        let token = match KeywordMatcher::compile(&token_word) {
            Ok(m) => m,
            Err(e) => {
                return Err(e);
            },
        };
        Ok(RegularExpression { airdrop, wallet, token })
    }

    /// Classifies `txt`: normalizes its whitespace, then evaluates the spam
    /// rule.  Every input gets a verdict; nothing is retained between
    /// calls.
    pub fn is_spam(&self, txt: &str) -> (r: bool)
        requires
            self.wf(),
        ensures
            r == spam_verdict(txt@),
    {
        let chars = str_chars(txt);
        let cleaned = normalize(&chars);
        if self.airdrop.is_match(&cleaned) {
            true
        } else {
            self.wallet.is_match(&cleaned) && self.token.is_match(&cleaned)
        }
    }
}

/// The characters of `s`, in order.
fn str_chars(s: &str) -> (r: Vec<char>)
    ensures
        r@ == s@,
{
    let n = s.unicode_len();
    let mut v: Vec<char> = Vec::new();
    let mut i: usize = 0;
    while i < n
        invariant
            i <= n,
            n == s@.len(),
            v@ == s@.take(i as int),
        decreases n - i,
    {
        let c = s.get_char(i);
        proof {
            assert(s@.take(i as int + 1) =~= s@.take(i as int).push(s@[i as int]));
        }
        v.push(c);
        i += 1;
    }
    proof {
        assert(s@.take(n as int) =~= s@);
    }
    v
}

/// An empty message never satisfies the rule.
pub proof fn lemma_empty_never_spam()
    ensures
        !spam_verdict(Seq::<char>::empty()),
{
    assert(normalized(Seq::<char>::empty()) =~= Seq::<char>::empty());
}

/// Extra whitespace in a run is ignored: a text with one added whitespace
/// character, of any kind, beside an existing whitespace character
/// classifies the same.
pub proof fn lemma_verdict_ignores_extra_whitespace(text: Seq<char>, q: int, ws: char)
    requires
        0 <= q < text.len(),
        is_space_char(text[q]),
        is_space_char(ws),
    ensures
        spam_verdict(text.insert(q, ws)) == spam_verdict(text),
{
    lemma_insert_whitespace_in_run(text, q, ws);
}

} // verus!
