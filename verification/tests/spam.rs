use spamglyph::classifier::RegularExpression;

#[test]
fn test_is_spam() {
    let test_cases = vec![
        ("airdrop", true),
        ("\u{430}irdrop", true), // Cyrillic а
        ("\u{430}irdr\u{43E}\u{440}", true), // Cyrillic а and Cyrillic о
        ("\u{430}irdr\u{43E}p", true), // Cyrillic а and Cyrillic о
        ("\u{430}irdr\u{43E}\u{440}", true), // Cyrillic а, Cyrillic о, and Cyrillic р
        ("airdr\u{43E}\u{440}", true), // Cyrillic о
        ("airdr\u{43E}p", true), // Cyrillic о
        ("airdr\u{43E}\u{440}", true), // Cyrillic о and Cyrillic р
        ("\u{430}irdr\u{43E}p", true), // Cyrillic а, and Cyrillic о
        ("\u{430}irdr\u{43E}\u{440}", true), // Cyrillic а, Cyrillic о, and Cyrillic р
        ("\u{430}irdrop", true), // Cyrillic а
        ("\u{430}irdr\u{43E}\u{440}", true), // Cyrillic а and Cyrillic р
        ("\u{430}irdrop", true), // Cyrillic а
        ("air\u{501}rop", true), // Cyrillic ԁ
        ("a\u{456}r\u{501}rop", true), // Cyrillic і and Cyrillic ԁ
        ("air\u{501}ro\u{440}", true), // Cyrillic р
        ("\u{430}irdr\u{43E}\u{440}", true), // Cyrillic а and Cyrillic р
        ("a\u{456}rdrop", true), // Cyrillic і
        ("\u{430}\u{456}rdrop", true), // Cyrillic а and Cyrillic і
        ("\u{430}\u{456}rdrop", true), // Cyrillic а and Cyrillic і
        ("\u{430}\u{456}rdrop", true), // Cyrillic а and Cyrillic і
        ("a\u{456}rdro\u{440}", true), // Cyrillic і and Cyrillic р
        ("\u{430}\u{456}rdro\u{440}", true), // Cyrillic а, Cyrillic і, and Cyrillic р
        ("\u{430}irdr\u{43E}\u{440}", true), // Cyrillic а and Cyrillic р
        ("a\u{456}r\u{501}r\u{43E}\u{440}", true), // Cyrillic і, Cyrillic ԁ, and Cyrillic р
        ("a\u{456}r\u{501}rop", true), // Cyrillic і and Cyrillic ԁ
        ("airdro\u{440}", true), // Cyrillic р
        ("air\u{501}rop", true), // Greek delta, Δ
        ("\u{430}irdr\u{43E}\u{440}", true), // Greek o, ο
        ("\u{430}\u{456}r\u{501}rop", true), // Greek iota, ι
        ("air\u{501}ro\u{440}", true), // Greek rho, ρ
        ("\u{430}irdr\u{43E}\u{440}", true), // Greek omicron, ο
        ("a\u{456}rdrop", true), // Greek iota, ι
        ("\u{430}\u{456}rdrop", true), // Greek alpha, α
        ("\u{430}\u{456}rdrop", true), // Greek iota, ι
        ("a\u{456}rdro\u{440}", true), // Greek iota, ι, and rho, ρ
        ("\u{430}irdr\u{43E}\u{440}", true), // Greek omicron, ο, and rho, ρ
        ("a\u{456}r\u{501}r\u{43E}\u{440}", true), // Greek iota, ι, delta, Δ, and rho, ρ
        ("a\u{456}r\u{501}rop", true), // Greek iota, ι, and delta, Δ
        ("airdro\u{440}", true), // Greek rho, ρ
        ("\u{421}l\u{430}im  Q \u{421}OMMUNITY \u{410}IRDROP\n Join the Q movement.", true), // snippet from a real one
        ("\u{1F170}irdrop", true), // with emoji
        ("\u{1F170}\u{FE0F}\u{2139}\u{FE0F}irdr\u{1F17E}\u{FE0F}\u{1F1F5}", true), // with emojis
        ("air drop", true), // with space
        ("a i r d r o p", true), // with single spaces
        ("a i r d r o p", true), // with different kids of spaces
        ("\u{1F1E6} \u{1F1EE} \u{1F1F7} \u{1F1E9} \u{1F1F7} \u{1F1F4} \u{1F1F5}", true), // with special characters and spaces
        ("42", false),
        ("", false),
        ("token", false),
        ("wallet", false),
        ("get your wallet and fill it with free tokens", true),
        ("win many tokens for your new wallet", true),
        ("ask me how to get free tokens\n\nfor your wallet", true),
        ("My walle\u{422}s have tokens", true),
    ];
    for (word, expected) in test_cases {
        for w in [word, word.to_uppercase().as_str()] {
            let model = RegularExpression::new().unwrap();
            let got = model.is_spam(w);
            assert_eq!(
                got, expected,
                "expected: {:?} for {:?}, got: {:?}",
                expected, w, got
            );
        }
    }
}

#[test]
fn empty_and_plain_digits_are_not_spam() {
    let model = RegularExpression::new().unwrap();
    assert!(!model.is_spam(""));
    assert!(!model.is_spam("42"));
}

#[test]
fn wallet_and_token_must_cooccur() {
    let model = RegularExpression::new().unwrap();
    assert!(!model.is_spam("token"));
    assert!(!model.is_spam("wallet"));
    assert!(model.is_spam("get your wallet and fill it with free tokens"));
    assert!(model.is_spam("token first, wallet later"));
}

#[test]
fn case_does_not_change_the_verdict() {
    let model = RegularExpression::new().unwrap();
    for x in [
        "airdrop",
        "\u{430}irdr\u{43E}\u{440}",
        "a i r d r o p",
        "win many tokens for your new wallet",
        "wallet",
        "just some ordinary message",
        "",
    ] {
        assert_eq!(model.is_spam(x), model.is_spam(&x.to_uppercase()), "case changed the verdict for {:?}", x);
    }
}

#[test]
fn wide_spacing_is_tolerated_after_normalization() {
    let model = RegularExpression::new().unwrap();
    assert!(model.is_spam("a  i\t\tr \n d\u{2003}\u{2003}r  o  p"));
    assert!(model.is_spam("ask me how to get free tokens\n\nfor your wallet"));
}

#[test]
fn scenario_verdicts() {
    let model = RegularExpression::new().unwrap();
    assert!(model.is_spam("airdrop"));
    assert!(model.is_spam("\u{430}irdr\u{43E}\u{440}"));
    assert!(model.is_spam("a i r d r o p"));
    assert!(model.is_spam("\u{1F1E6} \u{1F1EE} \u{1F1F7} \u{1F1E9} \u{1F1F7} \u{1F1F4} \u{1F1F5}"));
    assert!(!model.is_spam("just a wallet"));
    assert!(model.is_spam("win many tokens for your new wallet"));
}
