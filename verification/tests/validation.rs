use lockstep::config::resolve_document_location;
use lockstep::resolve::{ResolutionError, ResolutionHint};
use lockstep::text::contains_str;
use lockstep::{validate_sources, ValidationError};

fn hint_for(structure: &str) -> ResolutionHint {
    ResolutionHint {
        explicit_signal_name: None,
        explicit_interface_name: None,
        structure_identifier: structure.to_string(),
    }
}

fn node_sources() -> Vec<(String, String)> {
    vec![(
        "nodes.xml".to_string(),
        r#"<node>
  <interface name="org.example.Node">
    <signal name="NodeRemoved">
      <arg name="path" type="s"/>
    </signal>
    <signal name="Cleared"/>
    <signal name="Moved">
      <arg name="from" type="(su)"/>
    </signal>
  </interface>
</node>"#
            .to_string(),
    )]
}

#[test]
fn whole_run_succeeds_on_matching_signature() {
    let resolved = validate_sources(&node_sources(), &hint_for("NodeRemovedHappening"), "s")
        .expect("matching signature should validate");
    assert_eq!(resolved.interface_name, "org.example.Node");
    assert_eq!(resolved.signal_name, "NodeRemoved");
    assert_eq!(resolved.document_identifier, "nodes.xml");
}

#[test]
fn whole_run_reports_mismatch_with_both_signatures() {
    match validate_sources(&node_sources(), &hint_for("MovedHappening"), "(us)") {
        Err(ValidationError::Mismatch(m)) => {
            assert_eq!(m.expected, "(su)");
            assert_eq!(m.actual, "(us)");
        }
        _ => panic!("expected a mismatch"),
    }
}

#[test]
fn zero_parameter_signal_matches_zero_field_structure() {
    let resolved = validate_sources(&node_sources(), &hint_for("ClearedHappening"), "")
        .expect("empty signatures should match");
    assert_eq!(resolved.signal_name, "Cleared");
}

#[test]
fn zero_parameter_signal_rejects_nonempty_structure() {
    assert!(matches!(
        validate_sources(&node_sources(), &hint_for("ClearedHappening"), "s"),
        Err(ValidationError::Mismatch(_))
    ));
}

#[test]
fn malformed_document_aborts_the_run() {
    let sources = vec![
        ("bad.xml".to_string(), "<node><interface>".to_string()),
        node_sources().remove(0),
    ];
    match validate_sources(&sources, &hint_for("NodeRemovedHappening"), "s") {
        Err(ValidationError::Structure(e)) => {
            assert_eq!(e.document_identifier, "bad.xml");
        }
        _ => panic!("expected a structural error"),
    }
}

#[test]
fn ambiguous_hint_fails_the_run() {
    let mut sources = node_sources();
    sources.push((
        "other.xml".to_string(),
        r#"<node><interface name="org.example.Other"><signal name="NodeRemoved"/></interface></node>"#
            .to_string(),
    ));
    assert!(matches!(
        validate_sources(&sources, &hint_for("NodeRemovedHappening"), "s"),
        Err(ValidationError::Resolution(ResolutionError::Ambiguity { .. }))
    ));
}

#[test]
fn substring_matching_is_contiguous() {
    assert!(contains_str("NodeRemovedHappening", "NodeRemoved"));
    assert!(contains_str("NodeRemoved", "NodeRemoved"));
    assert!(contains_str("NodeRemoved", ""));
    assert!(!contains_str("NodeRemoved", "NodeRemovedHappening"));
    assert!(!contains_str("NadeRemoved", "NodeRemoved"));
}

#[test]
fn location_precedence_prefers_environment_override() {
    let got = resolve_document_location(
        Some("env".to_string()),
        Some("arg".to_string()),
        Some("XML".to_string()),
        Some("xml".to_string()),
    );
    assert_eq!(got, Some("env".to_string()));
}

#[test]
fn location_precedence_prefers_argument_over_defaults() {
    let got = resolve_document_location(
        None,
        Some("arg".to_string()),
        Some("XML".to_string()),
        Some("xml".to_string()),
    );
    assert_eq!(got, Some("arg".to_string()));
}

#[test]
fn location_precedence_prefers_upper_default() {
    let got = resolve_document_location(
        None,
        None,
        Some("XML".to_string()),
        Some("xml".to_string()),
    );
    assert_eq!(got, Some("XML".to_string()));
    let lower = resolve_document_location(None, None, None, Some("xml".to_string()));
    assert_eq!(lower, Some("xml".to_string()));
    assert_eq!(resolve_document_location(None, None, None, None), None);
}
