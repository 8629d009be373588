use lockstep::model::{Parameter, Signal};
use lockstep::signature::{compare, extract, normalize};

fn signal_with(tokens: &[&str]) -> Signal {
    Signal {
        name: "S".to_string(),
        parameters: tokens
            .iter()
            .map(|t| Parameter { type_signature: t.to_string() })
            .collect(),
    }
}

#[test]
fn extract_concatenates_in_declared_order() {
    assert_eq!(extract(&signal_with(&["s", "u"])), "su");
    assert_eq!(extract(&signal_with(&["u", "s"])), "us");
    assert_eq!(extract(&signal_with(&["a{sv}", "(so)", "i"])), "a{sv}(so)i");
}

#[test]
fn extract_of_swapped_parameters_differs_unless_tokens_equal() {
    assert_ne!(extract(&signal_with(&["s", "u"])), extract(&signal_with(&["u", "s"])));
    assert_eq!(extract(&signal_with(&["s", "s"])), extract(&signal_with(&["s", "s"])));
}

#[test]
fn empty_parameter_list_yields_the_empty_signature() {
    assert_eq!(extract(&signal_with(&[])), "");
    assert_ne!(extract(&signal_with(&[])), extract(&signal_with(&["s"])));
}

#[test]
fn comparator_accepts_equal_signatures() {
    assert!(compare("(su)", "(su)").is_ok());
    assert!(compare("", "").is_ok());
}

#[test]
fn comparator_is_strict_between_scalar_types() {
    let err = compare("s", "o").expect_err("string and object path must differ");
    assert_eq!(err.expected, "s");
    assert_eq!(err.actual, "o");
}

#[test]
fn comparator_rejects_reordered_structures() {
    let err = compare("(su)", "(us)").expect_err("order matters");
    assert_eq!(err.expected, "(su)");
    assert_eq!(err.actual, "(us)");
}

#[test]
fn comparator_ignores_insignificant_whitespace() {
    assert!(compare(" ( s u ) ", "(su)").is_ok());
    assert!(compare("a{sv}\n", "a{sv}").is_ok());
}

#[test]
fn normalize_strips_only_whitespace() {
    assert_eq!(normalize(" a { s v } \t\r\n"), "a{sv}");
    assert_eq!(normalize("(su)"), "(su)");
    assert_eq!(normalize(""), "");
}
