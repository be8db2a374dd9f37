use spf::{
    evaluate_macro, AnyMacroVariable, EvaluationContext, MacroEvaluationError, MacroVariable,
    MapEvaluationContext, VecEvaluationContext,
};

fn default_options_map() -> MapEvaluationContext {
    let mut m = MapEvaluationContext::new();
    m.insert(MacroVariable::Sender, "sender".to_string());
    m.insert(MacroVariable::DomainNameOfHostPerformingTheCheck, "a.b.c.d".to_string());
    m.insert(MacroVariable::HeloOrEhloDomain, "  ".to_string());
    m.insert(MacroVariable::SmtpClientIp, "a.b-c=d".to_string());
    m
}

#[test]
fn test_can_evaluate_macro() {
    let map = default_options_map();
    assert_eq!(evaluate_macro(&map, "%{r1}").unwrap(), "a");

    assert_eq!(evaluate_macro(&map, "%{r10}").unwrap(), "a.b.c.d");

    assert_eq!(evaluate_macro(&map, "asdf").unwrap(), "asdf");
    assert_eq!(evaluate_macro(&map, "%_").unwrap(), " ");
    assert_eq!(evaluate_macro(&map, "%%").unwrap(), "%");
    assert_eq!(evaluate_macro(&map, "%-").unwrap(), "%20");
    assert_eq!(evaluate_macro(&map, "%s").unwrap(), "sender");
    assert_eq!(evaluate_macro(&map, "%{sr}").unwrap(), "sender");

    assert_eq!(evaluate_macro(&map, "%{r}").unwrap(), "a.b.c.d");
    assert_eq!(evaluate_macro(&map, "%{r0}").unwrap(), "");
    assert_eq!(evaluate_macro(&map, "%{rr}").unwrap(), "d.c.b.a");

    assert_eq!(evaluate_macro(&map, "%{H}").unwrap(), "++");
    assert_eq!(evaluate_macro(&map, "%{Hr}").unwrap(), "++");
    assert_eq!(evaluate_macro(&map, "%H").unwrap(), "++");

    assert_eq!(evaluate_macro(&map, "%{c.-=}").unwrap(), "a.b.c.d");
    assert_eq!(evaluate_macro(&map, "%{cr.-=}").unwrap(), "d.c.b.a");
    assert_eq!(evaluate_macro(&map, "%{c0r.-=}").unwrap(), "");

    evaluate_macro(&map, "%").unwrap_err();
    evaluate_macro(&map, "%q").unwrap_err();
    evaluate_macro(&map, "%t").unwrap_err();
}

#[test]
fn bare_and_braced_forms_agree() {
    let map = default_options_map();
    assert_eq!(evaluate_macro(&map, "%{s}").unwrap(), "sender");
    assert_eq!(evaluate_macro(&map, "%s").unwrap(), "sender");
}

#[test]
fn zero_label_count_is_empty_for_any_value() {
    let map = default_options_map();
    assert_eq!(evaluate_macro(&map, "%{s0}").unwrap(), "");
    assert_eq!(evaluate_macro(&map, "%{c0}").unwrap(), "");
}

#[test]
fn reversal_before_truncation() {
    let map = default_options_map();
    assert_eq!(evaluate_macro(&map, "%{r}").unwrap(), "a.b.c.d");
    assert_eq!(evaluate_macro(&map, "%{rr}").unwrap(), "d.c.b.a");
    assert_eq!(evaluate_macro(&map, "%{r1}").unwrap(), "a");
    assert_eq!(evaluate_macro(&map, "%{r1r}").unwrap(), "d");
    assert_eq!(evaluate_macro(&map, "%{r2r}").unwrap(), "d.c");
    assert_eq!(evaluate_macro(&map, "%{r2}").unwrap(), "a.b");
}

#[test]
fn reverse_after_delimiters_is_a_syntax_error() {
    let map = default_options_map();
    assert_eq!(evaluate_macro(&map, "%{rr1}"), Err(MacroEvaluationError::ParsingSyntaxError));
    assert_eq!(evaluate_macro(&map, "%{r.r}"), Err(MacroEvaluationError::ParsingSyntaxError));
}

#[test]
fn custom_delimiters_rejoin_with_dots() {
    let map = default_options_map();
    assert_eq!(evaluate_macro(&map, "%{c.-=}").unwrap(), "a.b.c.d");
    assert_eq!(evaluate_macro(&map, "%{c-}").unwrap(), "a.b.c=d");
    assert_eq!(evaluate_macro(&map, "%{c}").unwrap(), "a.b-c=d");
}

#[test]
fn literal_escapes() {
    let map = default_options_map();
    assert_eq!(evaluate_macro(&map, "%_").unwrap(), " ");
    assert_eq!(evaluate_macro(&map, "%-").unwrap(), "%20");
    assert_eq!(evaluate_macro(&map, "%%").unwrap(), "%");
    assert_eq!(evaluate_macro(&map, "x%%y%_z").unwrap(), "x%y z");
    assert_eq!(evaluate_macro(&map, "%-%_%%%s").unwrap(), "%20 %sender");
}

#[test]
fn unknown_letter_is_unknown_variable() {
    let map = default_options_map();
    assert_eq!(
        evaluate_macro(&map, "%q"),
        Err(MacroEvaluationError::UnknownVariable(AnyMacroVariable::Unknown(b'q')))
    );
    assert_eq!(
        evaluate_macro(&map, "%{Q}"),
        Err(MacroEvaluationError::UnknownVariable(AnyMacroVariable::Unknown(b'Q')))
    );
    assert_eq!(
        evaluate_macro(&map, "%Q"),
        Err(MacroEvaluationError::UnknownVariable(AnyMacroVariable::Unknown(b'Q')))
    );
    assert_eq!(
        evaluate_macro(&map, "%{q2r.}"),
        Err(MacroEvaluationError::UnknownVariable(AnyMacroVariable::Unknown(b'q')))
    );
    assert_eq!(
        evaluate_macro(&map, "%t"),
        Err(MacroEvaluationError::UnknownVariable(AnyMacroVariable::Known(MacroVariable::CurrentTimestamp)))
    );
    assert_eq!(
        evaluate_macro(&map, "%{t2r}"),
        Err(MacroEvaluationError::UnknownVariable(AnyMacroVariable::Known(MacroVariable::CurrentTimestamp)))
    );
}

#[test]
fn unterminated_brace_is_a_syntax_error() {
    let map = default_options_map();
    assert_eq!(evaluate_macro(&map, "%{s"), Err(MacroEvaluationError::ParsingSyntaxError));
    assert_eq!(evaluate_macro(&map, "%{sr."), Err(MacroEvaluationError::ParsingSyntaxError));
    assert_eq!(evaluate_macro(&map, "%{s12"), Err(MacroEvaluationError::ParsingSyntaxError));
    assert_eq!(evaluate_macro(&map, "%{"), Err(MacroEvaluationError::ParsingSyntaxError));
    assert_eq!(evaluate_macro(&map, "%"), Err(MacroEvaluationError::ParsingSyntaxError));
    assert_eq!(evaluate_macro(&map, "ab%s.%{r2r-"), Err(MacroEvaluationError::ParsingSyntaxError));
    assert_eq!(evaluate_macro(&map, "x%%%{Q"), Err(MacroEvaluationError::ParsingSyntaxError));
}

#[test]
fn malformed_escapes_are_syntax_errors() {
    let map = default_options_map();
    assert_eq!(evaluate_macro(&map, "%1"), Err(MacroEvaluationError::ParsingSyntaxError));
    assert_eq!(evaluate_macro(&map, "%{1}"), Err(MacroEvaluationError::ParsingSyntaxError));
    assert_eq!(evaluate_macro(&map, "%{s!}"), Err(MacroEvaluationError::ParsingSyntaxError));
    assert_eq!(evaluate_macro(&map, "%{sr r}"), Err(MacroEvaluationError::ParsingSyntaxError));
}

#[test]
fn overflowing_label_count() {
    let map = default_options_map();
    assert_eq!(
        evaluate_macro(&map, "%{s99999999999999999999999999}"),
        Err(MacroEvaluationError::InvalidTransformCount)
    );
    assert_eq!(evaluate_macro(&map, "%{r0003}").unwrap(), "a.b.c");
}

#[test]
fn text_without_percent_is_unchanged() {
    let map = default_options_map();
    for t in ["", "asdf", "a.b{c}d", "żółw ünïcode ✓", "r1"] {
        assert_eq!(evaluate_macro(&map, t).unwrap(), t);
    }
}

#[test]
fn uppercase_encodes() {
    let mut m = MapEvaluationContext::new();
    m.insert(MacroVariable::Sender, "user name@exa~mple.com".to_string());
    m.insert(MacroVariable::Domain, "abc-XYZ_09.*".to_string());
    m.insert(MacroVariable::LocalPartOfSender, "é".to_string());
    assert_eq!(evaluate_macro(&m, "%{S}").unwrap(), "user+name%40exa%7Emple.com");
    assert_eq!(evaluate_macro(&m, "%{s}").unwrap(), "user name@exa~mple.com");
    assert_eq!(evaluate_macro(&m, "%{D}").unwrap(), evaluate_macro(&m, "%{d}").unwrap());
    assert_eq!(evaluate_macro(&m, "%L").unwrap(), "%C3%A9");
    assert_eq!(evaluate_macro(&m, "%{S1r}").unwrap(), "com");
}

#[test]
fn non_ascii_literal_text_passes_through() {
    let map = default_options_map();
    assert_eq!(evaluate_macro(&map, "ä%{r1}ö").unwrap(), "äaö");
}

fn pairs(order: &[(MacroVariable, &str)]) -> Vec<(MacroVariable, String)> {
    order.iter().map(|(v, s)| (*v, s.to_string())).collect()
}

#[test]
fn sorted_and_unsorted_vec_contexts_agree() {
    let sorted = VecEvaluationContext::from(pairs(&[
        (MacroVariable::SmtpClientIp, "a.b-c=d"),
        (MacroVariable::HeloOrEhloDomain, "helo"),
        (MacroVariable::DomainNameOfHostPerformingTheCheck, "a.b.c.d"),
        (MacroVariable::Sender, "sender"),
    ]));
    let unsorted = VecEvaluationContext::from(pairs(&[
        (MacroVariable::Sender, "sender"),
        (MacroVariable::DomainNameOfHostPerformingTheCheck, "a.b.c.d"),
        (MacroVariable::SmtpClientIp, "a.b-c=d"),
        (MacroVariable::HeloOrEhloDomain, "helo"),
    ]));
    for v in [
        MacroVariable::SmtpClientIp,
        MacroVariable::Domain,
        MacroVariable::HeloOrEhloDomain,
        MacroVariable::Ip,
        MacroVariable::LocalPartOfSender,
        MacroVariable::DomainOfSender,
        MacroVariable::ValidatedDomainNameOrIp,
        MacroVariable::DomainNameOfHostPerformingTheCheck,
        MacroVariable::Sender,
        MacroVariable::CurrentTimestamp,
        MacroVariable::InAddr,
    ] {
        assert_eq!(sorted.provide_data(v), unsorted.provide_data(v));
    }
    assert_eq!(evaluate_macro(&sorted, "%{rr}.%{s}").unwrap(), "d.c.b.a.sender");
    assert_eq!(evaluate_macro(&unsorted, "%{rr}.%{s}").unwrap(), "d.c.b.a.sender");
    assert_eq!(
        sorted.provide_data(MacroVariable::Ip),
        Err(MacroEvaluationError::UnknownVariable(AnyMacroVariable::Known(MacroVariable::Ip)))
    );
}

#[test]
fn vec_context_first_duplicate_wins() {
    let ctx = VecEvaluationContext::from(pairs(&[
        (MacroVariable::Domain, "first"),
        (MacroVariable::Domain, "second"),
        (MacroVariable::Sender, "s"),
    ]));
    assert_eq!(ctx.provide_data(MacroVariable::Domain).unwrap(), "first");
    let unsorted = VecEvaluationContext::from(pairs(&[
        (MacroVariable::Sender, "s"),
        (MacroVariable::Domain, "first"),
        (MacroVariable::Domain, "second"),
    ]));
    assert_eq!(unsorted.provide_data(MacroVariable::Domain).unwrap(), "first");
    let back = unsorted.into();
    assert_eq!(back.len(), 3);
    assert_eq!(back[0].0, MacroVariable::Sender);
}

#[test]
fn map_context_last_insert_wins() {
    let mut m = MapEvaluationContext::new();
    m.insert(MacroVariable::Domain, "old".to_string());
    m.insert(MacroVariable::Domain, "new".to_string());
    assert_eq!(evaluate_macro(&m, "%d").unwrap(), "new");
}

#[test]
fn empty_value_has_one_empty_label() {
    let mut m = MapEvaluationContext::new();
    m.insert(MacroVariable::Domain, "".to_string());
    assert_eq!(evaluate_macro(&m, "%{d}").unwrap(), "");
    assert_eq!(evaluate_macro(&m, "%{d1r}").unwrap(), "");
    m.insert(MacroVariable::Domain, "..".to_string());
    assert_eq!(evaluate_macro(&m, "%{d}").unwrap(), "..");
    assert_eq!(evaluate_macro(&m, "%{d2}").unwrap(), ".");
}
