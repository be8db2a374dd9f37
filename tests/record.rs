use spf::{
    fuzz_evaluate_macro, DualCidrLength, ExternalResourceIdentifier, SpfAction, SpfDirective, SpfDirectiveKind,
    SpfMechanism, SpfParseError, SpfRecord,
};

#[test]
fn actions_and_qualifiers() {
    for (c, a) in [
        ('+', SpfAction::Pass),
        ('-', SpfAction::Fail),
        ('~', SpfAction::SoftFail),
        ('?', SpfAction::Neutral),
    ] {
        assert_eq!(SpfAction::try_from_char(c), Ok(a));
        assert_eq!(SpfAction::try_from_byte(c as u8), Ok(a));
        assert_eq!(a.into_char(), c);
        assert_eq!(a.into_byte(), c as u8);
    }
    assert_eq!(SpfAction::try_from_char('a'), Err(()));
    assert_eq!(SpfAction::try_from_byte(b'!'), Err(()));
    assert_eq!(SpfAction::default(), SpfAction::Pass);
}

#[test]
fn join_keeps_order() {
    let a = SpfRecord {
        directives: vec![SpfDirective { qualifier: SpfAction::Pass, mechanism: SpfMechanism::All }],
    };
    let b = SpfRecord {
        directives: vec![
            SpfDirective {
                qualifier: SpfAction::Fail,
                mechanism: SpfMechanism::Exists("%{ir}.example".to_string()),
            },
            SpfDirective {
                qualifier: SpfAction::Neutral,
                mechanism: SpfMechanism::A(None, DualCidrLength { v4: Some(24), v6: None }),
            },
        ],
    };
    let j = a.join(b);
    assert_eq!(j.directives.len(), 3);
    assert_eq!(j.directives[0].qualifier, SpfAction::Pass);
    assert_eq!(j.directives[1].qualifier, SpfAction::Fail);
    assert_eq!(j.directives[2].qualifier, SpfAction::Neutral);
}

#[test]
fn plain_data_types() {
    assert_ne!(SpfDirectiveKind::A, SpfDirectiveKind::AAAA);
    assert_eq!(
        ExternalResourceIdentifier::DomainExists("a".to_string(), "b".to_string()),
        ExternalResourceIdentifier::DomainExists("a".to_string(), "b".to_string())
    );
    assert_ne!(SpfParseError::InvalidFormat, SpfParseError::InvalidCharFound);
    let m = SpfMechanism::Ipv4([192, 0, 2, 0], Some(24));
    assert_eq!(m.clone(), m);
}

#[test]
fn fuzz_accepts_any_bytes() {
    fuzz_evaluate_macro(b"%{r1}.%s");
    fuzz_evaluate_macro(b"%{");
    fuzz_evaluate_macro(&[0xff, 0xfe, b'%']);
    fuzz_evaluate_macro(b"");
    fuzz_evaluate_macro("%{s99999999999999999999999999}".as_bytes());
}

#[test]
fn record_version_and_charset_checks() {
    assert_eq!(SpfRecord::parse_str("v=spf1 -all").unwrap().directives.len(), 0);
    assert_eq!(SpfRecord::parse_str("V=SPF1").unwrap().directives.len(), 0);
    assert_eq!(SpfRecord::parse_str("v=spf2 -all"), Err(SpfParseError::InvalidRecordKind));
    assert_eq!(SpfRecord::parse_str("v=spf"), Err(SpfParseError::InvalidRecordKind));
    assert_eq!(SpfRecord::parse_str(""), Err(SpfParseError::InvalidRecordKind));
    assert_eq!(SpfRecord::parse_str("v=spf1 ä"), Err(SpfParseError::InvalidCharFound));
    assert_eq!(SpfRecord::parse_str("ü"), Err(SpfParseError::InvalidCharFound));
}
