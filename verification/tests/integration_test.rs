use tax2go_search::auth::{AuthHeader, CurrentUser};
use tax2go_search::index_manager::IndexManager;
use tax2go_search::models::{
    BrowseDocumentsQuery, DocumentMetadata, IndexDocumentInput, SearchFilters, SearchQuery,
};
use tax2go_search::routes::{get_stats, health_check};
use tempfile::TempDir;
use uuid::Uuid;

/// A manager over a temporary data directory.
fn create_test_app() -> (IndexManager, TempDir) {
    let temp_dir = TempDir::new().unwrap();
    let manager = IndexManager::new(temp_dir.path().to_str().unwrap().to_string());
    (manager, temp_dir)
}

/// Makes the directory in which the tenant's index is kept.
fn prepare(temp_dir: &TempDir, user_id: u128) {
    let tenant = tempfile::Builder::new()
        .prefix(&Uuid::from_u128(user_id).to_string())
        .rand_bytes(0)
        .tempdir_in(temp_dir.path())
        .unwrap()
        .keep();
    tempfile::Builder::new()
        .prefix("index")
        .rand_bytes(0)
        .tempdir_in(&tenant)
        .unwrap()
        .keep();
}

fn document(id: Option<&str>, title: &str, body: &str) -> IndexDocumentInput {
    IndexDocumentInput {
        id: id.map(|s| s.to_string()),
        title: title.to_string(),
        body: body.to_string(),
        metadata: DocumentMetadata::default(),
    }
}

fn search(query: &str, limit: usize) -> SearchQuery {
    SearchQuery {
        query: query.to_string(),
        limit,
        offset: 0,
        filters: SearchFilters::default(),
    }
}

#[test]
fn integration_test_test_health_check() {
    let body = health_check("0.1.0");

    assert_eq!(body.status, "ok");
    assert!(body.version.is_some());
}

#[test]
fn test_index_and_search_document() {
    let (mut app, temp_dir) = create_test_app();
    let user_id = Uuid::new_v4().as_u128();
    prepare(&temp_dir, user_id);

    // Index a document
    let index_body = IndexDocumentInput {
        id: Some("doc1".to_string()),
        title: "Rust Programming Language".to_string(),
        body: "Rust is a systems programming language that runs blazingly fast".to_string(),
        metadata: DocumentMetadata {
            tags: vec!["rust".to_string(), "programming".to_string()],
            source: Some("test".to_string()),
            created_at: None,
            custom: Default::default(),
        },
    };

    let response = app.index_document(user_id, index_body).unwrap();

    assert_eq!(response.id, "doc1");
    assert_eq!(response.status, "success");

    // Search for the document
    let response = app.search(user_id, search("rust programming", 10)).unwrap();

    assert_eq!(response.total, 1);
    assert_eq!(response.results[0].id, "doc1");
    assert_eq!(response.results[0].title, "Rust Programming Language");
}

#[test]
fn integration_test_test_multi_tenant_isolation() {
    let (mut app, temp_dir) = create_test_app();
    let user1_id = Uuid::new_v4().as_u128();
    let user2_id = Uuid::new_v4().as_u128();
    prepare(&temp_dir, user1_id);
    prepare(&temp_dir, user2_id);

    // User 1 indexes a document
    let user1_doc = document(
        None,
        "User 1 Secret Document",
        "This is private data for user 1",
    );
    assert!(app.index_document(user1_id, user1_doc).is_ok());

    // User 2 indexes a document
    let user2_doc = document(
        None,
        "User 2 Secret Document",
        "This is private data for user 2",
    );
    assert!(app.index_document(user2_id, user2_doc).is_ok());

    // User 1 searches - should only see their own document
    let response = app.search(user1_id, search("Secret Document", 10)).unwrap();

    assert_eq!(response.total, 1);
    assert!(response.results[0].title.contains("User 1"));

    // User 2 searches - should only see their own document
    let response = app.search(user2_id, search("Secret Document", 10)).unwrap();

    assert_eq!(response.total, 1);
    assert!(response.results[0].title.contains("User 2"));
}

#[test]
fn test_delete_document() {
    let (mut app, temp_dir) = create_test_app();
    let user_id = Uuid::new_v4().as_u128();
    prepare(&temp_dir, user_id);

    // Index a document
    let index_body = document(
        Some("doc-to-delete"),
        "Temporary Document",
        "This will be deleted",
    );
    assert!(app.index_document(user_id, index_body).is_ok());

    // Verify it exists
    let response = app.search(user_id, search("Temporary", 10)).unwrap();
    assert_eq!(response.total, 1);

    // Delete the document
    let response = app
        .delete_document(user_id, "doc-to-delete".to_string())
        .unwrap();

    assert_eq!(response.id, "doc-to-delete");
    assert_eq!(response.status, "success");

    // Verify it's deleted
    let response = app.search(user_id, search("Temporary", 10)).unwrap();
    assert_eq!(response.total, 0);
}

#[test]
fn test_missing_authentication() {
    let error = CurrentUser::from_request_parts(&AuthHeader::Missing).unwrap_err();

    assert_eq!(error.status_code(), 401);
    assert_eq!(error.error, "missing_auth");
}

#[test]
fn test_invalid_user_id() {
    let header = AuthHeader::Text("not-a-uuid".to_string());
    let error = CurrentUser::from_request_parts(&header).unwrap_err();
    assert_eq!(error.status_code(), 401);
    assert_eq!(error.error, "invalid_auth");
}

#[test]
fn test_validation_errors() {
    let (mut app, temp_dir) = create_test_app();
    let user_id = Uuid::new_v4().as_u128();
    prepare(&temp_dir, user_id);

    // Empty title
    let invalid_doc = document(None, "", "Some content");

    let error = app.index_document(user_id, invalid_doc).unwrap_err();
    let (status, response) = error.into_response();

    assert_eq!(status, 422);
    assert_eq!(response.error, "validation_error");

    // Empty query
    let error = app.search(user_id, search("", 10)).unwrap_err();
    let (status, response) = error.into_response();

    assert_eq!(status, 422);
    assert_eq!(response.error, "validation_error");
}

#[test]
fn test_get_stats() {
    let (mut app, temp_dir) = create_test_app();
    let user_id = Uuid::new_v4().as_u128();
    prepare(&temp_dir, user_id);

    // Get initial stats (should be 0 documents)
    let response = get_stats(&app.get_user_stats(user_id).unwrap());

    assert_eq!(response.num_documents, 0);

    // Index two documents
    for i in 1..=2 {
        let doc = document(None, &format!("Document {}", i), &format!("Content {}", i));

        assert!(app.index_document(user_id, doc).is_ok());
    }

    // Get updated stats
    let response = get_stats(&app.get_user_stats(user_id).unwrap());

    assert_eq!(response.num_documents, 2);
    assert_eq!(response.user_id, Uuid::from_u128(user_id).to_string());
}

#[test]
fn test_document_update() {
    let (mut app, temp_dir) = create_test_app();
    let user_id = Uuid::new_v4().as_u128();
    prepare(&temp_dir, user_id);

    // Index initial version
    let doc_v1 = document(Some("updatable-doc"), "Version 1", "Initial content");
    assert!(app.index_document(user_id, doc_v1).is_ok());

    // Update the document
    let doc_v2 = document(Some("updatable-doc"), "Version 2", "Updated content");
    assert!(app.index_document(user_id, doc_v2).is_ok());

    // Search should return the updated version
    let response = app.search(user_id, search("Version", 10)).unwrap();

    assert_eq!(response.total, 1);
    assert_eq!(response.results[0].title, "Version 2");
}

#[test]
fn browse_lists_every_document_with_its_tags() {
    let (mut app, temp_dir) = create_test_app();
    let user_id = Uuid::new_v4().as_u128();
    prepare(&temp_dir, user_id);

    let mut first = document(Some("a"), "Alpha", "first body");
    first.metadata.tags = vec!["x".to_string(), "y z".to_string()];
    first.metadata.source = Some("feed".to_string());
    app.index_document(user_id, first).unwrap();
    app.index_document(user_id, document(Some("b"), "Beta", "second body"))
        .unwrap();

    let page = app
        .browse_documents(user_id, BrowseDocumentsQuery { limit: 50, offset: 0 })
        .unwrap();
    assert_eq!(page.total, 2);
    assert_eq!(page.documents.len(), 2);
    let alpha = page.documents.iter().find(|d| d.id == "a").unwrap();
    assert_eq!(alpha.title, "Alpha");
    assert_eq!(alpha.body, "first body");
    assert_eq!(alpha.tags, vec!["x".to_string(), "y z".to_string()]);
    assert!(alpha.created_at.is_some());
    let beta = page.documents.iter().find(|d| d.id == "b").unwrap();
    assert!(beta.tags.is_empty());

    let second = app
        .browse_documents(user_id, BrowseDocumentsQuery { limit: 1, offset: 1 })
        .unwrap();
    assert_eq!(second.total, 1);
    let beyond = app
        .browse_documents(user_id, BrowseDocumentsQuery { limit: 10, offset: 2 })
        .unwrap();
    assert_eq!(beyond.total, 0);
    let far = app
        .browse_documents(
            user_id,
            BrowseDocumentsQuery { limit: 1000, offset: usize::MAX },
        )
        .unwrap();
    assert_eq!(far.total, 0);
}

#[test]
fn an_empty_index_answers_without_error() {
    let (mut app, temp_dir) = create_test_app();
    let user_id = Uuid::new_v4().as_u128();
    prepare(&temp_dir, user_id);

    let found = app.search(user_id, search("anything", 10)).unwrap();
    assert_eq!(found.total, 0);
    assert!(found.results.is_empty());
    assert_eq!(found.query, "anything");
    let page = app
        .browse_documents(user_id, BrowseDocumentsQuery { limit: 50, offset: 0 })
        .unwrap();
    assert_eq!(page.total, 0);
    assert_eq!(app.get_user_stats(user_id).unwrap().num_documents, 0);
}

#[test]
fn search_pages_skip_the_offset() {
    let (mut app, temp_dir) = create_test_app();
    let user_id = Uuid::new_v4().as_u128();
    prepare(&temp_dir, user_id);
    for i in 0..5 {
        let doc = document(Some(&format!("d{}", i)), "Paged entry", &format!("text {}", i));
        app.index_document(user_id, doc).unwrap();
    }
    let all = app.search(user_id, search("paged", 100)).unwrap();
    assert_eq!(all.total, 5);
    let mut query = search("paged", 2);
    query.offset = 4;
    let last = app.search(user_id, query.clone()).unwrap();
    assert_eq!(last.total, 1);
    assert_eq!(last.results[0].id, all.results[4].id);
    query.offset = 1;
    let middle = app.search(user_id, query.clone()).unwrap();
    assert_eq!(middle.total, 2);
    assert_eq!(middle.results[0].id, all.results[1].id);
    assert_eq!(middle.results[1].id, all.results[2].id);
    query.offset = 7;
    assert_eq!(app.search(user_id, query).unwrap().total, 0);
}

#[test]
fn an_unparseable_query_is_a_search_error() {
    let (mut app, temp_dir) = create_test_app();
    let user_id = Uuid::new_v4().as_u128();
    prepare(&temp_dir, user_id);
    let error = app.search(user_id, search("title:[", 10)).unwrap_err();
    assert_eq!(error.kind(), "search_error");
    assert_eq!(error.status_code(), 400);
    assert_eq!(
        error.describe(),
        "Search error: Search failed: Failed to parse search query"
    );
}

#[test]
fn a_minted_id_is_a_uuid_and_finds_the_document() {
    let (mut app, temp_dir) = create_test_app();
    let user_id = Uuid::new_v4().as_u128();
    prepare(&temp_dir, user_id);
    let response = app
        .index_document(user_id, document(None, "Nameless", "no id given"))
        .unwrap();
    assert!(Uuid::parse_str(&response.id).is_ok());
    assert_eq!(response.message, "Document indexed successfully");
    let found = app.search(user_id, search("nameless", 10)).unwrap();
    assert_eq!(found.total, 1);
    assert_eq!(found.results[0].id, response.id);
    assert!(found.results[0].snippet.is_none());
    // the minted identifier deletes the document
    let deleted = app.delete_document(user_id, response.id.clone()).unwrap();
    assert_eq!(deleted.message, "Document deleted successfully");
    assert_eq!(app.get_user_stats(user_id).unwrap().num_documents, 0);
}

#[test]
fn deleting_an_unknown_id_is_no_error() {
    let (mut app, temp_dir) = create_test_app();
    let user_id = Uuid::new_v4().as_u128();
    prepare(&temp_dir, user_id);
    app.index_document(user_id, document(Some("x"), "Temp", "gone"))
        .unwrap();
    let response = app.delete_document(user_id, "y".to_string()).unwrap();
    assert_eq!(response.id, "y");
    assert_eq!(app.get_user_stats(user_id).unwrap().num_documents, 1);
}

#[test]
fn an_id_too_long_for_a_term_is_not_replaced() {
    let (mut app, temp_dir) = create_test_app();
    let user_id = Uuid::new_v4().as_u128();
    prepare(&temp_dir, user_id);
    let long_id = "i".repeat(65531);
    app.index_document(user_id, document(Some(&long_id), "Long one", "a"))
        .unwrap();
    app.index_document(user_id, document(Some(&long_id), "Long two", "b"))
        .unwrap();
    assert_eq!(app.get_user_stats(user_id).unwrap().num_documents, 2);
    let longest_term = "i".repeat(65530);
    app.index_document(user_id, document(Some(&longest_term), "Short one", "a"))
        .unwrap();
    app.index_document(user_id, document(Some(&longest_term), "Short two", "b"))
        .unwrap();
    assert_eq!(app.get_user_stats(user_id).unwrap().num_documents, 3);
}
