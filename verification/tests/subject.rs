use asupersync::messaging::subject::{Subject, SubjectPattern, SubjectPatternError};


#[test]
fn parses_valid_subject_patterns() {
    for raw in ["foo.bar.baz", "tenant.orders.*", "sys.>"] {
        let pattern = SubjectPattern::parse(raw).expect("pattern should parse");
        assert_eq!(pattern.as_str(), raw);
    }
}

#[test]
fn rejects_invalid_subject_patterns() {
    assert_eq!(
        SubjectPattern::parse(""),
        Err(SubjectPatternError::EmptyPattern)
    );
    assert_eq!(
        SubjectPattern::parse("foo..bar"),
        Err(SubjectPatternError::EmptySegment)
    );
    assert_eq!(
        SubjectPattern::parse("sys.>.health"),
        Err(SubjectPatternError::TailWildcardMustBeTerminal)
    );
}

#[test]
fn subject_matching_respects_literal_and_wildcard_tokens() {
    let literal = SubjectPattern::parse("tenant.orders.eu").expect("literal pattern");
    let single = SubjectPattern::parse("tenant.orders.*").expect("single wildcard");
    let tail = SubjectPattern::parse("tenant.orders.>").expect("tail wildcard");
    let subject = Subject::parse("tenant.orders.eu").expect("subject");

    assert!(literal.matches(&subject));
    assert!(single.matches(&subject));
    assert!(tail.matches(&subject));
    assert!(
        !SubjectPattern::parse("tenant.payments.*")
            .expect("payments wildcard")
            .matches(&subject)
    );
}

#[test]
fn trims_outer_whitespace_but_preserves_literal_case() {
    let pattern = SubjectPattern::parse("  $SYS.Health.*  ").expect("pattern");
    let subject = Subject::parse("  Tenant.Orders.EU.123  ").expect("subject");

    assert_eq!(pattern.as_str(), "$SYS.Health.*");
    assert_eq!(subject.as_str(), "Tenant.Orders.EU.123");
}

#[test]
fn subject_rejects_wildcards() {
    assert_eq!(
        Subject::parse("tenant.orders.*"),
        Err(SubjectPatternError::WildcardsNotAllowed(
            "tenant.orders.*".to_owned()
        ))
    );
}

#[test]
fn tail_wildcard_requires_at_least_one_suffix_segment() {
    let wildcard = SubjectPattern::parse("orders.>").expect("wildcard");
    let expanded = Subject::parse("orders.created").expect("expanded");
    let bare_prefix = Subject::parse("orders").expect("bare prefix");

    assert!(wildcard.matches(&expanded));
    assert!(!wildcard.matches(&bare_prefix));
}

#[test]
fn parsing_canonical_text_gives_back_the_pattern() {
    for raw in ["  foo.bar  ", "\ttenant.orders.*\n", "sys.>", "a"] {
        let pattern = SubjectPattern::parse(raw).expect("pattern should parse");
        let again = SubjectPattern::parse(pattern.as_str()).expect("canonical text parses");
        assert_eq!(again, pattern);
        assert_eq!(again.as_str(), raw.trim());
    }
}

#[test]
fn whitespace_test_agrees_with_std() {
    for u in 0u32..0x3100 {
        if let Some(c) = char::from_u32(u) {
            assert_eq!(
                asupersync::messaging::subject::char_is_whitespace(c),
                c.is_whitespace(),
                "code point {u:#x}"
            );
        }
    }
}
