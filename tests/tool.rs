use filament::tool::SchemaProperty;
use filament::ToolSpec;

#[test]
fn tool_spec_marks_required_properties() {
    let spec = ToolSpec::from_schema(
        "search".to_string(),
        Some("Search".to_string()),
        None,
        vec![
            SchemaProperty { key: "q".to_string(), description: Some("query".to_string()), property_type: Some("string".to_string()) },
            SchemaProperty { key: "n".to_string(), description: None, property_type: Some("integer".to_string()) },
        ],
        vec!["q".to_string()],
    );
    assert_eq!(spec.name, "search");
    assert_eq!(spec.display_name.as_deref(), Some("Search"));
    let props = spec.input_schema.unwrap();
    assert_eq!(props.len(), 2);
    assert_eq!(props[0].key, "q");
    assert!(props[0].required);
    assert_eq!(props[0].description.as_deref(), Some("query"));
    assert_eq!(props[1].key, "n");
    assert!(!props[1].required);
    assert_eq!(props[1].property_type.as_deref(), Some("integer"));
}

#[test]
fn tool_spec_without_properties_has_no_schema() {
    let spec = ToolSpec::from_schema("ping".to_string(), None, Some("d".to_string()), vec![], vec!["x".to_string()]);
    assert!(spec.input_schema.is_none());
    assert_eq!(spec.description.as_deref(), Some("d"));
}
