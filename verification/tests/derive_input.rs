use brainworms::derive_input::{parse, Ast};

#[test]
fn valid_syntax() {
    assert_eq!(parse(&vec![]), Some(Ast {}));
}

#[test]
fn leftover_tokens_are_refused() {
    assert_eq!(parse(&vec!["x".to_string()]), None);
}
