use python_unparser::ast::{ArgumentError, StarParams, TypedArgsList, UntypedArgsList};

#[test]
fn messages() {
    assert_eq!(ArgumentError::KeywordExpression.to_string(), "Keyword cannot be an expression.");
    assert_eq!(
        ArgumentError::PositionalAfterKeyword.to_string(),
        "Positional argument after keyword argument or **kwargs."
    );
    assert_eq!(
        ArgumentError::StarargsAfterKeyword.to_string(),
        "*args after keyword argument or **kwargs."
    );
}

#[test]
fn codes_to_errors() {
    assert_eq!(ArgumentError::from(1), ArgumentError::KeywordExpression);
    assert_eq!(ArgumentError::from(2), ArgumentError::PositionalAfterKeyword);
    assert_eq!(ArgumentError::from(3), ArgumentError::StarargsAfterKeyword);
}

#[test]
fn errors_to_codes() {
    assert_eq!(u32::from(ArgumentError::KeywordExpression), 1);
    assert_eq!(u32::from(ArgumentError::PositionalAfterKeyword), 2);
    assert_eq!(u32::from(ArgumentError::StarargsAfterKeyword), 3);
}

#[test]
fn codes_round_trip() {
    for code in 1u32..=3 {
        assert_eq!(u32::from(ArgumentError::from(code)), code);
    }
    for e in [
        ArgumentError::KeywordExpression,
        ArgumentError::PositionalAfterKeyword,
        ArgumentError::StarargsAfterKeyword,
    ] {
        let code: u32 = e.into();
        assert_eq!(ArgumentError::from(code), e);
    }
}

#[test]
fn defaults_are_empty() {
    assert_eq!(StarParams::<String>::default(), StarParams::No);
    let typed = TypedArgsList::default();
    assert!(typed.positional_args.is_empty());
    assert_eq!(typed.star_args, StarParams::No);
    assert!(typed.keyword_args.is_empty());
    assert_eq!(typed.star_kwargs, None);
    let untyped = UntypedArgsList::default();
    assert!(untyped.positional_args.is_empty());
    assert_eq!(untyped.star_args, StarParams::No);
    assert!(untyped.keyword_args.is_empty());
    assert_eq!(untyped.star_kwargs, None);
}
