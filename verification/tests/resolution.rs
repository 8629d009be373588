use lockstep::model::Document;
use lockstep::parse::parse;
use lockstep::resolve::{resolve, ResolutionError, ResolutionHint};
use lockstep::signature::extract;

fn hint_for(structure: &str) -> ResolutionHint {
    ResolutionHint {
        explicit_signal_name: None,
        explicit_interface_name: None,
        structure_identifier: structure.to_string(),
    }
}

fn node_doc() -> Document {
    let text = r#"<?xml version="1.0"?>
<node>
  <interface name="org.example.Node">
    <signal name="NodeRemoved">
      <arg name="path" type="s"/>
    </signal>
  </interface>
</node>"#;
    parse("nodes.xml", text).expect("document should parse")
}

#[test]
fn implicit_match_resolves_unique_signal() {
    let docs = vec![node_doc()];
    let hint = hint_for("NodeRemovedHappening");
    let resolved = resolve(&docs, &hint).expect("resolution should succeed");
    assert_eq!(resolved.interface_name, "org.example.Node");
    assert_eq!(resolved.signal_name, "NodeRemoved");
    assert_eq!(resolved.document_identifier, "nodes.xml");
    let signal = &docs[0].interfaces[0].signals[0];
    assert_eq!(extract(signal), "s");
}

#[test]
fn two_matching_documents_are_ambiguous() {
    let a = parse(
        "a.xml",
        r#"<node><interface name="org.example.A"><signal name="Changed"/></interface></node>"#,
    )
    .unwrap();
    let b = parse(
        "b.xml",
        r#"<node><interface name="org.example.B"><signal name="Changed"/></interface></node>"#,
    )
    .unwrap();
    let docs = vec![a, b];
    let hint = hint_for("ChangedEvent");
    match resolve(&docs, &hint) {
        Err(ResolutionError::Ambiguity { first, second }) => {
            assert_eq!(first.interface_name, "org.example.A");
            assert_eq!(first.document_identifier, "a.xml");
            assert_eq!(second.interface_name, "org.example.B");
            assert_eq!(second.document_identifier, "b.xml");
        }
        other => panic!("expected ambiguity, got {:?}", other.is_ok()),
    }
}

#[test]
fn two_matches_in_one_document_are_ambiguous() {
    let doc = parse(
        "dup.xml",
        r#"<node>
             <interface name="org.example.A"><signal name="Changed"/></interface>
             <interface name="org.example.B"><signal name="ChangedEvent"/></interface>
           </node>"#,
    )
    .unwrap();
    let docs = vec![doc];
    let hint = hint_for("ChangedEventHappening");
    assert!(matches!(
        resolve(&docs, &hint),
        Err(ResolutionError::Ambiguity { .. })
    ));
}

#[test]
fn absent_explicit_signal_is_no_signal_found() {
    let docs = vec![node_doc()];
    let hint = ResolutionHint {
        explicit_signal_name: Some("Removed".to_string()),
        explicit_interface_name: None,
        structure_identifier: "Unrelated".to_string(),
    };
    match resolve(&docs, &hint) {
        Err(ResolutionError::NoSignalFound { search_key }) => {
            assert_eq!(search_key, "Removed");
        }
        _ => panic!("expected NoSignalFound"),
    }
}

#[test]
fn no_match_without_hints_is_no_interface_found() {
    let docs = vec![node_doc()];
    let hint = hint_for("Unrelated");
    match resolve(&docs, &hint) {
        Err(ResolutionError::NoInterfaceFound { search_key }) => {
            assert_eq!(search_key, "Unrelated");
        }
        _ => panic!("expected NoInterfaceFound"),
    }
}

#[test]
fn explicit_signal_name_matches_exactly() {
    let docs = vec![node_doc()];
    let hint = ResolutionHint {
        explicit_signal_name: Some("NodeRemoved".to_string()),
        explicit_interface_name: None,
        structure_identifier: "Unrelated".to_string(),
    };
    let resolved = resolve(&docs, &hint).expect("explicit name should resolve");
    assert_eq!(resolved.signal_name, "NodeRemoved");
}

#[test]
fn interface_hint_breaks_cross_interface_tie() {
    let a = parse(
        "a.xml",
        r#"<node><interface name="org.example.A"><signal name="Changed"/></interface></node>"#,
    )
    .unwrap();
    let b = parse(
        "b.xml",
        r#"<node><interface name="org.example.B"><signal name="Changed"/></interface></node>"#,
    )
    .unwrap();
    let docs = vec![a, b];
    let hint = ResolutionHint {
        explicit_signal_name: None,
        explicit_interface_name: Some("org.example.B".to_string()),
        structure_identifier: "ChangedEvent".to_string(),
    };
    let resolved = resolve(&docs, &hint).expect("narrowed search should resolve");
    assert_eq!(resolved.interface_name, "org.example.B");
    assert_eq!(resolved.document_identifier, "b.xml");
}

#[test]
fn duplicate_signal_names_in_one_interface_are_ambiguous() {
    let doc = parse(
        "dup2.xml",
        r#"<node><interface name="org.example.A">
             <signal name="Changed"/>
             <signal name="Changed"/>
           </interface></node>"#,
    )
    .unwrap();
    let docs = vec![doc];
    let hint = hint_for("ChangedEvent");
    assert!(matches!(
        resolve(&docs, &hint),
        Err(ResolutionError::Ambiguity { .. })
    ));
}

#[test]
fn one_signal_matching_both_ways_counts_once() {
    let docs = vec![node_doc()];
    let hint = ResolutionHint {
        explicit_signal_name: Some("NodeRemoved".to_string()),
        explicit_interface_name: None,
        structure_identifier: "NodeRemovedHappening".to_string(),
    };
    let resolved = resolve(&docs, &hint).expect("a doubly matching signal is one match");
    assert_eq!(resolved.signal_name, "NodeRemoved");
}

#[test]
fn resolution_is_deterministic_across_calls() {
    let docs = vec![node_doc()];
    let hint = hint_for("NodeRemovedHappening");
    let first = resolve(&docs, &hint).unwrap();
    let second = resolve(&docs, &hint).unwrap();
    assert_eq!(first.interface_name, second.interface_name);
    assert_eq!(first.signal_name, second.signal_name);
    assert_eq!(first.document_identifier, second.document_identifier);
}
