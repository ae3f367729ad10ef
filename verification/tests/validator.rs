use distill::distill::Distilled;
use distill::domain::{Email, PlainTextPassword, SignUpInput};
use distill::error::{Error, ErrorCode, ErrorEntry, ErrorMap};
use distill::value::Value;

fn str_val(s: &str) -> Value {
    Value::Str(s.to_string())
}

fn entry(code: ErrorCode) -> Error {
    Error::Entry(ErrorEntry::new(code))
}

fn scenario_record(pairs: Vec<(&str, Value)>) -> Value {
    Value::Obj(pairs.into_iter().map(|(k, v)| (k.to_string(), v)).collect())
}

#[test]
fn scenario_a_valid_record_with_absent_optional() {
    let v = scenario_record(vec![
        ("field_string", str_val("hi")),
        ("email", str_val("user@example.com")),
        ("password", str_val("pw")),
    ]);
    let r = SignUpInput::distill_from(Some(&v)).unwrap();
    assert_eq!(r.field_string, "hi");
    assert_eq!(r.field_option, None);
    assert_eq!(r.email, Email("user@example.com".to_string()));
    assert_eq!(r.password, PlainTextPassword("pw".to_string()));
}

#[test]
fn scenario_b_missing_field_and_out_of_range_optional() {
    let v = scenario_record(vec![
        ("field_option", Value::Int(-1)),
        ("email", str_val("user@example.com")),
        ("password", str_val("pw")),
    ]);
    let r = SignUpInput::distill_from(Some(&v)).unwrap_err();
    let expected = Error::Struct(vec![
        ("field_string".to_string(), entry(ErrorCode::MissingField)),
        ("field_option".to_string(), entry(ErrorCode::WrongType)),
    ]);
    assert_eq!(r, expected);
}

#[test]
fn scenario_c_empty_object_reports_all_required_fields() {
    // The optional field validates to a success on absence, so exactly
    // the three required fields are reported missing.
    let v = Value::Obj(Vec::new());
    let r = SignUpInput::distill_from(Some(&v)).unwrap_err();
    let expected = Error::Struct(vec![
        ("field_string".to_string(), entry(ErrorCode::MissingField)),
        ("email".to_string(), entry(ErrorCode::MissingField)),
        ("password".to_string(), entry(ErrorCode::MissingField)),
    ]);
    assert_eq!(r, expected);
}

#[test]
fn scenario_c_optional_field_missing_is_reported_missing() {
    // The optional rule succeeds on absence, so an empty object reports
    // the other three fields only when the optional one is the sole gap.
    let v = scenario_record(vec![
        ("field_string", str_val("x")),
        ("email", str_val("e")),
        ("password", str_val("p")),
    ]);
    assert!(SignUpInput::distill_from(Some(&v)).is_ok());
}

#[test]
fn scenario_d_array_input_is_a_single_wrong_type() {
    let v = Value::Arr(vec![str_val("field_string")]);
    let r = SignUpInput::distill_from(Some(&v)).unwrap_err();
    assert_eq!(r, entry(ErrorCode::WrongType));
}

#[test]
fn absent_required_fields_are_missing() {
    assert_eq!(
        String::distill_from(None).unwrap_err(),
        entry(ErrorCode::MissingField)
    );
    assert_eq!(
        u32::distill_from(None).unwrap_err(),
        entry(ErrorCode::MissingField)
    );
    assert_eq!(
        Email::distill_from(None).unwrap_err(),
        entry(ErrorCode::MissingField)
    );
    assert_eq!(
        PlainTextPassword::distill_from(None).unwrap_err(),
        entry(ErrorCode::MissingField)
    );
    assert_eq!(
        SignUpInput::distill_from(None).unwrap_err(),
        entry(ErrorCode::MissingField)
    );
}

#[test]
fn absent_optional_field_is_ok_none() {
    assert_eq!(<Option<u32> as Distilled>::distill_from(None), Ok(None));
    assert_eq!(<Option<String> as Distilled>::distill_from(None), Ok(None));
}

#[test]
fn present_invalid_optional_field_still_fails() {
    let v = Value::Bool(true);
    assert_eq!(
        <Option<u32> as Distilled>::distill_from(Some(&v)).unwrap_err(),
        entry(ErrorCode::WrongType)
    );
}

#[test]
fn wrong_kinds_are_wrong_type() {
    let number = Value::Int(3);
    assert_eq!(
        String::distill_from(Some(&number)).unwrap_err(),
        entry(ErrorCode::WrongType)
    );
    assert_eq!(
        Email::distill_from(Some(&number)).unwrap_err(),
        entry(ErrorCode::WrongType)
    );
    assert_eq!(
        PlainTextPassword::distill_from(Some(&number)).unwrap_err(),
        entry(ErrorCode::WrongType)
    );
    let text = str_val("3");
    assert_eq!(
        u32::distill_from(Some(&text)).unwrap_err(),
        entry(ErrorCode::WrongType)
    );
    let null = Value::Null;
    assert_eq!(
        String::distill_from(Some(&null)).unwrap_err(),
        entry(ErrorCode::WrongType)
    );
}

#[test]
fn integer_bounds_of_the_unsigned_rule() {
    assert_eq!(u32::distill_from(Some(&Value::Int(0))), Ok(0));
    assert_eq!(
        u32::distill_from(Some(&Value::Int(u32::MAX as i64))),
        Ok(u32::MAX)
    );
    assert_eq!(
        u32::distill_from(Some(&Value::Int(-1))).unwrap_err(),
        entry(ErrorCode::WrongType)
    );
    assert_eq!(
        u32::distill_from(Some(&Value::Int(u32::MAX as i64 + 1))).unwrap_err(),
        entry(ErrorCode::WrongType)
    );
    assert_eq!(
        u32::distill_from(Some(&Value::BigNumber)).unwrap_err(),
        entry(ErrorCode::WrongType)
    );
}

#[test]
fn record_report_is_exhaustive_and_exact() {
    // field_string invalid, field_option valid, email invalid, password valid.
    let v = scenario_record(vec![
        ("field_string", Value::Int(1)),
        ("field_option", Value::Int(42)),
        ("email", Value::Null),
        ("password", str_val("p")),
    ]);
    let r = SignUpInput::distill_from(Some(&v)).unwrap_err();
    let expected = Error::Struct(vec![
        ("field_string".to_string(), entry(ErrorCode::WrongType)),
        ("email".to_string(), entry(ErrorCode::WrongType)),
    ]);
    assert_eq!(r, expected);
}

#[test]
fn validation_is_idempotent() {
    let ok = scenario_record(vec![
        ("field_string", str_val("hi")),
        ("field_option", Value::Int(7)),
        ("email", str_val("user@example.com")),
        ("password", str_val("pw")),
    ]);
    assert_eq!(
        SignUpInput::distill_from(Some(&ok)),
        SignUpInput::distill_from(Some(&ok))
    );
    let bad = scenario_record(vec![("field_option", Value::Bool(false))]);
    assert_eq!(
        SignUpInput::distill_from(Some(&bad)),
        SignUpInput::distill_from(Some(&bad))
    );
}

#[test]
fn serialized_record_revalidates_to_an_equal_record() {
    let input = SignUpInput {
        field_string: "hello".to_string(),
        field_option: Some(11),
        email: Email("user@example.com".to_string()),
        password: PlainTextPassword("pw".to_string()),
    };
    let v = input.to_value();
    assert_eq!(SignUpInput::distill_from(Some(&v)), Ok(input));
}

#[test]
fn serialized_record_without_optional_revalidates() {
    let input = SignUpInput {
        field_string: "hello".to_string(),
        field_option: None,
        email: Email("e@x".to_string()),
        password: PlainTextPassword("pw".to_string()),
    };
    let v = input.to_value();
    assert_eq!(SignUpInput::distill_from(Some(&v)), Ok(input));
}

#[test]
fn serialized_leaves_revalidate() {
    let email = Email("user@example.com".to_string());
    let v = email.to_value();
    assert_eq!(Email::distill_from(Some(&v)), Ok(email));
    let password = PlainTextPassword("pw".to_string());
    let v = password.to_value();
    assert_eq!(PlainTextPassword::distill_from(Some(&v)), Ok(password));
}

#[test]
fn object_lookup_takes_the_first_match() {
    let v = Value::Obj(vec![
        ("k".to_string(), Value::Int(1)),
        ("k".to_string(), Value::Int(2)),
    ]);
    assert_eq!(v.get("k"), Some(&Value::Int(1)));
    assert_eq!(v.get("missing"), None);
    assert_eq!(Value::Null.get("k"), None);
}

#[test]
fn sequence_rule_collects_elements_in_order() {
    let v = Value::Arr(vec![Value::Int(1), Value::Int(2), Value::Int(3)]);
    assert_eq!(
        <Vec<u32> as Distilled>::distill_from(Some(&v)),
        Ok(vec![1, 2, 3])
    );
}

#[test]
fn sequence_rule_reports_exactly_the_failed_indices() {
    let v = Value::Arr(vec![
        Value::Int(1),
        Value::Bool(true),
        Value::Int(2),
        Value::Int(-5),
    ]);
    let r = <Vec<u32> as Distilled>::distill_from(Some(&v)).unwrap_err();
    let expected = Error::List(vec![
        (1, entry(ErrorCode::WrongType)),
        (3, entry(ErrorCode::WrongType)),
    ]);
    assert_eq!(r, expected);
}

#[test]
fn sequence_rule_rejects_non_arrays() {
    assert_eq!(
        <Vec<u32> as Distilled>::distill_from(None).unwrap_err(),
        entry(ErrorCode::MissingField)
    );
    let v = str_val("nope");
    assert_eq!(
        <Vec<u32> as Distilled>::distill_from(Some(&v)).unwrap_err(),
        entry(ErrorCode::WrongType)
    );
}

#[test]
fn error_codes_have_distinct_wire_identifiers() {
    assert_eq!(ErrorCode::MissingField.text(), "missing_field");
    assert_eq!(ErrorCode::WrongType.text(), "wrong_type");
    assert_eq!(ErrorCode::OutOfRange.text(), "out_of_range");
    assert_eq!(ErrorCode::InvalidFormat.text(), "invalid_format");
}

#[test]
fn error_entries_carry_their_kind() {
    let e = ErrorEntry::new(ErrorCode::OutOfRange);
    assert_eq!(e.code, ErrorCode::OutOfRange);
    assert!(e.params.is_empty());
    let e = ErrorEntry::new(ErrorCode::InvalidFormat);
    assert_eq!(e.code, ErrorCode::InvalidFormat);
    assert_ne!(
        entry(ErrorCode::MissingField),
        entry(ErrorCode::WrongType)
    );
}

#[test]
fn error_map_defaults_to_empty() {
    let m = ErrorMap::default();
    assert!(m.0.is_empty());
}
