use spf::{AnyMacroVariable, MacroVariable};

#[test]
fn letters_round_trip() {
    let symbols = MacroVariable::get_valid_lowercase_symbols();
    assert_eq!(symbols, b"slodiphcrtv");
    for &b in symbols {
        let v = MacroVariable::try_from_num(b).unwrap();
        assert_eq!(v.into_num(), b);
        assert_eq!(AnyMacroVariable::from_num(b), AnyMacroVariable::Known(v));
    }
    assert!(MacroVariable::try_from_num(b'q').is_err());
    assert!(MacroVariable::try_from_num(b'S').is_err());
    assert_eq!(AnyMacroVariable::from_num(b'q'), AnyMacroVariable::Unknown(b'q'));
    assert_eq!(AnyMacroVariable::Unknown(b's').into_canonical(), AnyMacroVariable::Known(MacroVariable::Sender));
    assert_eq!(AnyMacroVariable::Unknown(b'x').into_num(), b'x');
}

#[test]
fn variable_order_follows_letters() {
    assert!(MacroVariable::SmtpClientIp < MacroVariable::Domain);
    assert!(MacroVariable::Sender < MacroVariable::CurrentTimestamp);
    assert!(MacroVariable::CurrentTimestamp < MacroVariable::InAddr);
}
