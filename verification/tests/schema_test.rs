use tax2go_search::models::{DocumentMetadata, IndexDocumentInput};
use tax2go_search::schema::{build_schema, doc_from_input, extract_doc_id, FieldNames};

#[test]
fn test_schema_creation() {
    let schema = build_schema();

    assert!(schema.get_field(FieldNames::ID).is_ok());
    assert!(schema.get_field(FieldNames::TITLE).is_ok());
    assert!(schema.get_field(FieldNames::BODY).is_ok());
    assert!(schema.get_field(FieldNames::CREATED_AT).is_ok());
}

#[test]
fn test_doc_from_input() {
    let schema = build_schema();
    let input = IndexDocumentInput {
        id: Some("test-123".to_string()),
        title: "Test Document".to_string(),
        body: "This is a test document body.".to_string(),
        metadata: DocumentMetadata {
            tags: vec!["test".to_string(), "demo".to_string()],
            source: Some("unit-test".to_string()),
            created_at: None,
            custom: Default::default(),
        },
    };

    let doc = doc_from_input(&schema, &input).unwrap();
    let extracted_id = extract_doc_id(&schema, &doc);

    assert_eq!(extracted_id, Some("test-123".to_string()));
}
