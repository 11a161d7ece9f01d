use procc_ll::program::token_outcome;
use procc_ll::{Errors, Values};

#[test]
fn clone_is_deep() {
    let v = Values::Array(vec![
        Values::String("a".to_string()),
        Values::Number(1.5f64.to_bits()),
        Values::Boolean(false),
        Values::Array(vec![Values::Null, Values::Array(vec![])]),
        Values::Null,
    ]);
    assert_eq!(v.clone(), v);
    assert_eq!(Values::Null.clone(), Values::Null);
    assert_eq!(Values::String("x".to_string()).clone(), Values::String("x".to_string()));
}

#[test]
fn variants_are_not_coerced() {
    assert_ne!(Values::String("1".to_string()), Values::Number(1f64.to_bits()));
    assert_ne!(Values::Boolean(false), Values::Null);
    assert_ne!(Values::Number(0f64.to_bits()), Values::Boolean(false));
    assert_ne!(Values::Array(vec![]), Values::Null);
    assert_eq!(Values::Number(2.5f64.to_bits()), Values::Number(2.5f64.to_bits()));
    assert_ne!(Values::Number(2.5f64.to_bits()), Values::Number(2.25f64.to_bits()));
}

#[test]
fn errors_are_reported_in_one_line() {
    assert_eq!(Errors::Non.to_str(), "ERROR PROCESSING: ERRORS::UNKNOWN : UNKNOWN ERROR");
    assert_eq!(
        Errors::TokenNotMatched("abc".to_string()).to_str(),
        "ERROR PROCESSING: ERRORS::TOKEN_NOT_FOUND : abc"
    );
    assert_eq!(
        Errors::FunctionNotFound("f".to_string()).to_str(),
        "ERROR PROCESSING: ERRORS::FUNCTION_NOT_FOUND : f"
    );
    assert_eq!(
        Errors::KeyNotFound("k".to_string()).to_str(),
        "ERROR PROCESSING: ERRORS::KEY_NOT_FOUND : k"
    );
    assert_eq!(
        Errors::MemoryNotFound("m".to_string()).to_str(),
        "ERROR PROCESSING: ERRORS::MEMORY_NOT_FOUND : m"
    );
    assert_eq!(
        Errors::MemoryNotDefined("m".to_string()).to_str(),
        "ERROR PROCESSING: ERRORS::MEMORY_NOT_DEFINED : m"
    );
    assert_eq!(
        Errors::MalformedCall("f)(".to_string()).to_str(),
        "ERROR PROCESSING: ERRORS::MALFORMED_CALL : f)("
    );
    assert_eq!(Errors::FunctionNotFound(String::new()).to_str(), "ERROR PROCESSING: ERRORS::FUNCTION_NOT_FOUND : ");
}

#[test]
fn errors_are_cloned() {
    for e in [
        Errors::Non,
        Errors::TokenNotMatched("a".to_string()),
        Errors::FunctionNotFound("b".to_string()),
        Errors::KeyNotFound("c".to_string()),
        Errors::MemoryNotFound("d".to_string()),
        Errors::MemoryNotDefined("e".to_string()),
        Errors::MalformedCall("f".to_string()),
    ] {
        assert_eq!(e.clone(), e);
    }
}

#[test]
fn token_outcome_names_the_text() {
    assert_eq!(token_outcome("abc", Some(Values::Null)), Ok(Values::Null));
    assert_eq!(token_outcome("abc", None), Err(Errors::TokenNotMatched("abc".to_string())));
}
