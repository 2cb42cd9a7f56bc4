use tax2go_search::error::AppError;
use tax2go_search::index_manager::IndexManager;
use tax2go_search::models::{
    BrowseDocumentsQuery, DocumentMetadata, IndexDocumentInput, SearchFilters, SearchQuery,
    Timestamp,
};
use tax2go_search::routes::health_check;
use tempfile::TempDir;
use uuid::Uuid;

fn create() -> (IndexManager, TempDir) {
    let temp_dir = TempDir::new().unwrap();
    let manager = IndexManager::new(temp_dir.path().to_str().unwrap().to_string());
    (manager, temp_dir)
}

/// Makes the directory in which the tenant's index is kept.
fn prepare(temp_dir: &TempDir, user_id: u128) {
    let tenant = tempfile::Builder::new()
        .prefix(&Uuid::from_u128(user_id).to_string())
        .rand_bytes(0)
        .tempdir_in(temp_dir.path())
        .unwrap()
        .keep();
    tempfile::Builder::new().prefix("index").rand_bytes(0).tempdir_in(&tenant).unwrap().keep();
}

fn document(id: &str, title: &str, body: &str) -> IndexDocumentInput {
    IndexDocumentInput {
        id: Some(id.to_string()),
        title: title.to_string(),
        body: body.to_string(),
        metadata: DocumentMetadata::default(),
    }
}

fn search(query: &str, limit: usize) -> SearchQuery {
    SearchQuery { query: query.to_string(), limit, offset: 0, filters: SearchFilters::default() }
}

fn browse(limit: usize) -> BrowseDocumentsQuery {
    BrowseDocumentsQuery { limit, offset: 0 }
}

fn validation_text(error: AppError) -> String {
    match error {
        AppError::Validation(text) => text,
        other => panic!("no validation error: {:?}", other),
    }
}

#[test]
fn mod_test_health_check() {
    let response = health_check("1.2.3");
    assert_eq!(response.status, "ok");
    assert_eq!(response.version, Some("1.2.3".to_string()));
}

#[test]
fn an_id_stands_for_one_document() {
    let (mut manager, temp_dir) = create();
    let tenant = Uuid::new_v4().as_u128();
    prepare(&temp_dir, tenant);
    manager.index_document(tenant, document("D", "first words", "one")).unwrap();
    manager.index_document(tenant, document("other", "first words", "side")).unwrap();
    manager.index_document(tenant, document("D", "second words", "two")).unwrap();
    manager.index_document(tenant, document("D", "third words", "three")).unwrap();

    assert_eq!(manager.get_user_stats(tenant).unwrap().num_documents, 2);
    let found = manager.search(tenant, search("words", 100)).unwrap();
    assert_eq!(found.results.iter().filter(|r| r.id == "D").count(), 1);
    assert_eq!(found.total, 2);
    let page = manager.browse_documents(tenant, browse(1000)).unwrap();
    let under_d: Vec<_> = page.documents.iter().filter(|d| d.id == "D").collect();
    assert_eq!(under_d.len(), 1);
    assert_eq!(under_d[0].title, "third words");
    assert_eq!(under_d[0].body, "three");

    manager.delete_document(tenant, "D".to_string()).unwrap();
    let found = manager.search(tenant, search("words", 100)).unwrap();
    assert_eq!(found.results.iter().filter(|r| r.id == "D").count(), 0);
    assert_eq!(found.total, 1);
    assert_eq!(manager.get_user_stats(tenant).unwrap().num_documents, 1);
}

#[test]
fn an_id_is_matched_exactly() {
    let (mut manager, temp_dir) = create();
    let tenant = Uuid::new_v4().as_u128();
    prepare(&temp_dir, tenant);
    manager.index_document(tenant, document("Doc One", "a", "x")).unwrap();
    manager.index_document(tenant, document("doc one", "b", "x")).unwrap();
    manager.index_document(tenant, document("Doc", "c", "x")).unwrap();
    manager.index_document(tenant, document("", "d", "x")).unwrap();
    assert_eq!(manager.get_user_stats(tenant).unwrap().num_documents, 4);
    manager.index_document(tenant, document("", "e", "x")).unwrap();
    assert_eq!(manager.get_user_stats(tenant).unwrap().num_documents, 4);
    manager.delete_document(tenant, "Doc".to_string()).unwrap();
    assert_eq!(manager.get_user_stats(tenant).unwrap().num_documents, 3);
    let page = manager.browse_documents(tenant, browse(10)).unwrap();
    let mut ids: Vec<&str> = page.documents.iter().map(|d| d.id.as_str()).collect();
    ids.sort();
    assert_eq!(ids, vec!["", "Doc One", "doc one"]);
}

#[test]
fn tenants_share_nothing_not_even_an_id() {
    let (mut manager, temp_dir) = create();
    let first = Uuid::new_v4().as_u128();
    let second = Uuid::new_v4().as_u128();
    prepare(&temp_dir, first);
    prepare(&temp_dir, second);
    assert_ne!(manager.index_path(first), manager.index_path(second));

    manager.index_document(first, document("shared", "Common title", "private one")).unwrap();
    manager.index_document(second, document("shared", "Common title", "private two")).unwrap();

    let one = manager.search(first, search("common", 10)).unwrap();
    assert_eq!(one.total, 1);
    assert_eq!(one.results[0].body, "private one");
    let two = manager.browse_documents(second, browse(10)).unwrap();
    assert_eq!(two.total, 1);
    assert_eq!(two.documents[0].body, "private two");

    manager.delete_document(first, "shared".to_string()).unwrap();
    assert_eq!(manager.get_user_stats(first).unwrap().num_documents, 0);
    assert_eq!(manager.get_user_stats(second).unwrap().num_documents, 1);
    let two = manager.search(second, search("private", 10)).unwrap();
    assert_eq!(two.total, 1);
    assert_eq!(two.results[0].id, "shared");
}

#[test]
fn a_write_is_seen_by_the_next_read() {
    let (mut manager, temp_dir) = create();
    let tenant = Uuid::new_v4().as_u128();
    prepare(&temp_dir, tenant);
    for i in 0..4usize {
        manager
            .index_document(tenant, document(&format!("n{}", i), "Fresh", &format!("body {}", i)))
            .unwrap();
        assert_eq!(manager.get_user_stats(tenant).unwrap().num_documents, i + 1);
        let page = manager.browse_documents(tenant, browse(10)).unwrap();
        assert_eq!(page.total, i + 1);
        assert!(page.documents.iter().any(|d| d.id == format!("n{}", i)));
        let found = manager.search(tenant, search("fresh", 10)).unwrap();
        assert_eq!(found.total, i + 1);
    }
}

#[test]
fn a_refused_request_writes_nothing() {
    let (mut manager, temp_dir) = create();
    let tenant = Uuid::new_v4().as_u128();

    let error = manager.index_document(tenant, document("x", "   ", "body")).unwrap_err();
    assert_eq!(validation_text(error), "Title cannot be empty");
    let error = manager.index_document(tenant, document("x", "title", "\t")).unwrap_err();
    assert_eq!(validation_text(error), "Body cannot be empty");
    let error = manager.delete_document(tenant, " ".to_string()).unwrap_err();
    assert_eq!(validation_text(error), "Document ID cannot be empty");
    let error = manager.search(tenant, search("  ", 10)).unwrap_err();
    assert_eq!(validation_text(error), "Query cannot be empty");
    let error = manager.search(tenant, search("q", 0)).unwrap_err();
    assert_eq!(validation_text(error), "Limit must be greater than 0");
    let error = manager.search(tenant, search("q", 101)).unwrap_err();
    assert_eq!(validation_text(error), "Limit cannot exceed 100");
    let error = manager.browse_documents(tenant, browse(0)).unwrap_err();
    assert_eq!(validation_text(error), "Limit must be greater than 0");
    let error = manager.browse_documents(tenant, browse(1001)).unwrap_err();
    assert_eq!(validation_text(error), "Limit cannot exceed 1000");
    let mut timed = document("x", "title", "body");
    timed.metadata.created_at = Some(Timestamp { seconds: i64::MAX, nanos: 0 });
    let error = manager.index_document(tenant, timed).unwrap_err();
    assert_eq!(validation_text(error), "created_at is out of range");
    // no index was opened for any of them
    assert!(!manager.is_open(tenant));

    prepare(&temp_dir, tenant);
    manager.index_document(tenant, document("kept", "Kept", "as it is")).unwrap();
    assert!(manager.index_document(tenant, document("kept", "", "changed")).is_err());
    assert!(manager.index_document(tenant, document("new", "New", "")).is_err());
    let page = manager.browse_documents(tenant, browse(1000)).unwrap();
    assert_eq!(page.total, 1);
    assert_eq!(page.documents[0].title, "Kept");
    assert_eq!(page.documents[0].body, "as it is");
    assert!(manager.search(tenant, search("kept", 100)).is_ok());
}

#[test]
fn the_filters_of_a_search_change_nothing() {
    let (mut manager, temp_dir) = create();
    let tenant = Uuid::new_v4().as_u128();
    prepare(&temp_dir, tenant);
    let mut tagged = document("t", "Filtered", "text");
    tagged.metadata.tags = vec!["red".to_string()];
    tagged.metadata.source = Some("here".to_string());
    manager.index_document(tenant, tagged).unwrap();
    let mut query = search("filtered", 10);
    query.filters = SearchFilters {
        tags: vec!["blue".to_string()],
        source: Some("elsewhere".to_string()),
    };
    let found = manager.search(tenant, query).unwrap();
    assert_eq!(found.total, 1);
    assert_eq!(found.results[0].id, "t");
    assert_eq!(found.query, "filtered");
}

#[test]
fn a_write_that_the_engine_fails_is_an_index_error() {
    let (mut manager, temp_dir) = create();
    let tenant = Uuid::new_v4().as_u128();
    prepare(&temp_dir, tenant);
    manager.index_document(tenant, document("a", "Stays", "in the index")).unwrap();
    assert_eq!(manager.get_user_stats(tenant).unwrap().num_documents, 1);
    // the directory goes away under the open index
    temp_dir.close().unwrap();
    let error = manager.index_document(tenant, document("b", "Lost", "nowhere to go")).unwrap_err();
    assert_eq!(error.kind(), "index_error");
    let error = manager.delete_document(tenant, "a".to_string()).unwrap_err();
    assert_eq!(error.kind(), "index_error");
    assert!(manager.is_open(tenant));
}

#[test]
fn a_page_of_a_search_is_what_is_left_of_the_matches() {
    let (mut manager, temp_dir) = create();
    let tenant = Uuid::new_v4().as_u128();
    prepare(&temp_dir, tenant);
    manager.index_document(tenant, document("a", "rust one", "x")).unwrap();
    manager.index_document(tenant, document("b", "rust two", "y")).unwrap();
    manager.index_document(tenant, document("c", "rust three", "z")).unwrap();
    manager.index_document(tenant, document("d", "go four", "w")).unwrap();

    let mut query = search("rust", 2);
    query.offset = 2;
    let page = manager.search(tenant, query).unwrap();
    assert_eq!(page.results.len(), 1);
    assert_eq!(page.total, 1);

    let all = manager.search(tenant, search("rust", 100)).unwrap();
    assert_eq!(all.total, 3);
    assert!(all.results.iter().all(|r| r.title.contains("rust")));
    for pair in all.results.windows(2) {
        assert!(pair[0].score_bits >= pair[1].score_bits);
        assert!(f32::from_bits(pair[0].score_bits) >= f32::from_bits(pair[1].score_bits));
    }
    assert_eq!(manager.search(tenant, search("four OR three", 100)).unwrap().total, 2);
    assert_eq!(manager.search(tenant, search("nothing", 100)).unwrap().total, 0);
    for (offset, expected) in [(0usize, 2usize), (1, 2), (2, 1), (3, 0), (usize::MAX, 0)] {
        let mut query = search("rust", 2);
        query.offset = offset;
        assert_eq!(manager.search(tenant, query).unwrap().total, expected);
    }
}

#[test]
fn a_weight_can_hide_what_a_query_finds() {
    let (mut manager, temp_dir) = create();
    let tenant = Uuid::new_v4().as_u128();
    prepare(&temp_dir, tenant);
    manager.index_document(tenant, document("a", "rust one", "x")).unwrap();
    manager.index_document(tenant, document("b", "rust two", "y")).unwrap();
    assert_eq!(manager.search(tenant, search("rust^2", 10)).unwrap().total, 2);
    // a weight of nothing on a weight beyond all numbers gives a score that is no number
    let weighed = "(rust^99999999999999999999999999999999999999999)^0";
    assert_eq!(manager.search(tenant, search(weighed, 10)).unwrap().total, 0);
}

#[test]
fn a_deep_browse_page_is_empty_not_cut() {
    let (mut manager, temp_dir) = create();
    let tenant = Uuid::new_v4().as_u128();
    prepare(&temp_dir, tenant);
    for i in 0..3 {
        manager.index_document(tenant, document(&format!("n{}", i), "Deep", "down")).unwrap();
    }
    for (offset, limit, expected) in
        [(0usize, 2usize, 2usize), (1, 2, 2), (2, 2, 1), (3, 2, 0), (67_108_864, 5, 0), (usize::MAX, 1000, 0)]
    {
        let page = manager
            .browse_documents(tenant, BrowseDocumentsQuery { limit, offset })
            .unwrap();
        assert_eq!(page.total, expected);
        assert_eq!(page.documents.len(), expected);
    }
    // the entries come in one order, whatever the page
    let all = manager.browse_documents(tenant, browse(1000)).unwrap();
    let second = manager
        .browse_documents(tenant, BrowseDocumentsQuery { limit: 1, offset: 1 })
        .unwrap();
    assert_eq!(second.documents[0].id, all.documents[1].id);
}
