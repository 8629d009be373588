use lockstep::grammar::check_single_type;
use lockstep::parse::parse;

#[test]
fn parses_interfaces_signals_and_parameters_in_order() {
    let text = r#"<?xml version="1.0" encoding="UTF-8"?>
<!-- interface description -->
<node>
  <interface name="org.example.Cache">
    <method name="GetItems">
      <arg name="items" type="a{sv}" direction="out"/>
    </method>
    <signal name="AddAccessible">
      <arg name="nodeAdded" type="s"/>
      <arg name="count" type="u"/>
    </signal>
    <signal name="RemoveAccessible">
      <arg name="nodeRemoved" type="(so)"/>
    </signal>
    <property name="Size" type="u" access="read"/>
  </interface>
  <interface name="org.example.Registry">
    <signal name="EventListenerRegistered"/>
  </interface>
</node>"#;
    let doc = parse("registry.xml", text).expect("document should parse");
    assert_eq!(doc.identifier, "registry.xml");
    assert_eq!(doc.interfaces.len(), 2);
    assert_eq!(doc.interfaces[0].name, "org.example.Cache");
    assert_eq!(doc.interfaces[0].signals.len(), 2);
    assert_eq!(doc.interfaces[0].signals[0].name, "AddAccessible");
    assert_eq!(doc.interfaces[0].signals[0].parameters.len(), 2);
    assert_eq!(doc.interfaces[0].signals[0].parameters[0].type_signature, "s");
    assert_eq!(doc.interfaces[0].signals[0].parameters[1].type_signature, "u");
    assert_eq!(doc.interfaces[0].signals[1].parameters[0].type_signature, "(so)");
    assert_eq!(doc.interfaces[1].name, "org.example.Registry");
    assert_eq!(doc.interfaces[1].signals[0].parameters.len(), 0);
}

#[test]
fn skips_nested_unknown_elements() {
    let text = r#"<node>
  <node name="child"/>
  <interface name="org.example.A">
    <method name="M"><arg type="s" direction="in"/><arg type="u" direction="out"/></method>
    <signal name="S"><arg type="b"/><annotation name="org.example.Doc" value="x"/></signal>
  </interface>
</node>"#;
    let doc = parse("a.xml", text).expect("document should parse");
    assert_eq!(doc.interfaces.len(), 1);
    assert_eq!(doc.interfaces[0].signals.len(), 1);
    assert_eq!(doc.interfaces[0].signals[0].parameters.len(), 1);
    assert_eq!(doc.interfaces[0].signals[0].parameters[0].type_signature, "b");
}

#[test]
fn arg_with_separate_close_tag_counts_once() {
    let text = r#"<node><interface name="I"><signal name="S"><arg type="i"></arg></signal></interface></node>"#;
    let doc = parse("c.xml", text).unwrap();
    assert_eq!(doc.interfaces[0].signals[0].parameters.len(), 1);
    assert_eq!(doc.interfaces[0].signals[0].parameters[0].type_signature, "i");
}

#[test]
fn self_closing_root_is_an_empty_document() {
    let doc = parse("empty.xml", "<node/>").expect("empty root should parse");
    assert_eq!(doc.interfaces.len(), 0);
}

#[test]
fn unclosed_interface_is_a_structural_error() {
    let text = r#"<node><interface name="I"><signal name="S"/>"#;
    let err = parse("broken.xml", text).expect_err("unclosed element must fail");
    assert_eq!(err.document_identifier, "broken.xml");
}

#[test]
fn missing_interface_name_is_a_structural_error() {
    let text = r#"<node><interface><signal name="S"/></interface></node>"#;
    assert!(parse("x.xml", text).is_err());
}

#[test]
fn empty_signal_name_is_a_structural_error() {
    let text = r#"<node><interface name="I"><signal name=""/></interface></node>"#;
    assert!(parse("x.xml", text).is_err());
}

#[test]
fn invalid_arg_type_token_is_a_structural_error() {
    let text = r#"<node><interface name="I"><signal name="S"><arg type="zz"/></signal></interface></node>"#;
    assert!(parse("x.xml", text).is_err());
}

#[test]
fn missing_arg_type_is_a_structural_error() {
    let text = r#"<node><interface name="I"><signal name="S"><arg name="x"/></signal></interface></node>"#;
    assert!(parse("x.xml", text).is_err());
}

#[test]
fn root_must_be_a_node_element() {
    assert!(parse("x.xml", r#"<interface name="I"></interface>"#).is_err());
    assert!(parse("x.xml", "").is_err());
    assert!(parse("x.xml", "just text").is_err());
}

#[test]
fn mismatched_close_tag_is_a_structural_error() {
    let text = r#"<node><interface name="I"></node></interface>"#;
    assert!(parse("x.xml", text).is_err());
}

#[test]
fn single_quoted_attributes_and_spacing_are_accepted() {
    let text = "<node>\n  <interface  name = 'org.example.Q' >\n    <signal name='S'>\n      <arg type='ax'/>\n    </signal>\n  </interface>\n</node>";
    let doc = parse("q.xml", text).unwrap();
    assert_eq!(doc.interfaces[0].name, "org.example.Q");
    assert_eq!(doc.interfaces[0].signals[0].parameters[0].type_signature, "ax");
}

#[test]
fn accepts_basic_and_container_type_tokens() {
    for ok in ["s", "o", "g", "v", "ai", "a{sv}", "(su)", "((i))", "a(ii)", "aas", "a{s(iu)}"] {
        assert!(check_single_type(ok), "{} should be a single type", ok);
    }
}

#[test]
fn rejects_malformed_or_compound_type_tokens() {
    for bad in ["", "ss", "a", "(s", "()", "a{vs}", "a{s}", "z", "(su)x", "a{sv}i"] {
        assert!(!check_single_type(bad), "{} should be rejected", bad);
    }
}
