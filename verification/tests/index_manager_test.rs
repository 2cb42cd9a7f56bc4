use tax2go_search::index_manager::IndexManager;
use tax2go_search::models::{DocumentMetadata, IndexDocumentInput, SearchQuery};
use tempfile::TempDir;
use uuid::Uuid;

fn manager_in(temp_dir: &TempDir) -> IndexManager {
    IndexManager::new(temp_dir.path().to_str().unwrap().to_string())
}

/// Makes the directory in which the tenant's index is kept.
fn prepare(temp_dir: &TempDir, manager: &IndexManager, user_id: u128) {
    let tenant = tempfile::Builder::new()
        .prefix(&Uuid::from_u128(user_id).to_string())
        .rand_bytes(0)
        .tempdir_in(temp_dir.path())
        .unwrap()
        .keep();
    let index = tempfile::Builder::new()
        .prefix("index")
        .rand_bytes(0)
        .tempdir_in(&tenant)
        .unwrap()
        .keep();
    assert_eq!(index.to_str().unwrap(), manager.index_path(user_id));
}

#[test]
fn test_index_and_search() {
    let temp_dir = TempDir::new().unwrap();
    let mut manager = manager_in(&temp_dir);

    let user_id = Uuid::new_v4().as_u128();
    prepare(&temp_dir, &manager, user_id);

    // Index a document
    let input = IndexDocumentInput {
        id: Some("doc1".to_string()),
        title: "Rust Programming".to_string(),
        body: "Rust is a systems programming language".to_string(),
        metadata: DocumentMetadata::default(),
    };

    let response = manager.index_document(user_id, input).unwrap();
    assert_eq!(response.id, "doc1");

    // Search for the document
    let query = SearchQuery {
        query: "Rust".to_string(),
        limit: 10,
        offset: 0,
        filters: Default::default(),
    };

    let search_response = manager.search(user_id, query).unwrap();
    assert_eq!(search_response.results.len(), 1);
    assert_eq!(search_response.results[0].title, "Rust Programming");
}

#[test]
fn index_manager_test_multi_tenant_isolation() {
    let temp_dir = TempDir::new().unwrap();
    let mut manager = manager_in(&temp_dir);

    let user1_id = Uuid::new_v4().as_u128();
    let user2_id = Uuid::new_v4().as_u128();
    prepare(&temp_dir, &manager, user1_id);
    prepare(&temp_dir, &manager, user2_id);

    // User 1 indexes a document
    let input1 = IndexDocumentInput {
        id: Some("doc1".to_string()),
        title: "User 1 Document".to_string(),
        body: "This belongs to user 1".to_string(),
        metadata: DocumentMetadata::default(),
    };
    manager.index_document(user1_id, input1).unwrap();

    // User 2 indexes a document
    let input2 = IndexDocumentInput {
        id: Some("doc2".to_string()),
        title: "User 2 Document".to_string(),
        body: "This belongs to user 2".to_string(),
        metadata: DocumentMetadata::default(),
    };
    manager.index_document(user2_id, input2).unwrap();

    // User 1 searches - should only see their document
    let query = SearchQuery {
        query: "Document".to_string(),
        limit: 10,
        offset: 0,
        filters: Default::default(),
    };

    let user1_results = manager.search(user1_id, query.clone()).unwrap();
    assert_eq!(user1_results.results.len(), 1);
    assert!(user1_results.results[0].title.contains("User 1"));

    // User 2 searches - should only see their document
    let user2_results = manager.search(user2_id, query).unwrap();
    assert_eq!(user2_results.results.len(), 1);
    assert!(user2_results.results[0].title.contains("User 2"));
}

#[test]
fn a_tenant_is_opened_once_and_kept() {
    let temp_dir = TempDir::new().unwrap();
    let mut manager = manager_in(&temp_dir);
    let user_id = Uuid::new_v4().as_u128();
    assert!(!manager.is_open(user_id));
    prepare(&temp_dir, &manager, user_id);
    manager.get_or_create_index(user_id).unwrap();
    assert!(manager.is_open(user_id));
    manager.get_or_create_index(user_id).unwrap();
    assert!(manager.is_open(user_id));
    assert!(!manager.is_open(user_id.wrapping_add(1)));
}

#[test]
fn a_tenant_without_a_directory_gives_an_index_error() {
    let temp_dir = TempDir::new().unwrap();
    let mut manager = manager_in(&temp_dir);
    let user_id = Uuid::new_v4().as_u128();
    let error = manager.get_or_create_index(user_id).unwrap_err();
    assert_eq!(error.kind(), "index_error");
    assert_eq!(error.status_code(), 500);
    assert!(!manager.is_open(user_id));
}

#[test]
fn the_index_path_is_base_then_uuid_then_index() {
    let manager = IndexManager::new("/data".to_string());
    let user_id = 0x11111111_1111_1111_1111_111111111111u128;
    assert_eq!(
        manager.index_path(user_id),
        "/data/11111111-1111-1111-1111-111111111111/index"
    );
    let other = 0x0123456789abcdef_fedcba9876543210u128;
    assert_eq!(
        manager.index_path(other),
        "/data/01234567-89ab-cdef-fedc-ba9876543210/index"
    );
}

#[test]
fn an_index_survives_a_new_manager() {
    let temp_dir = TempDir::new().unwrap();
    let user_id = Uuid::new_v4().as_u128();
    {
        let mut manager = manager_in(&temp_dir);
        prepare(&temp_dir, &manager, user_id);
        let input = IndexDocumentInput {
            id: Some("kept".to_string()),
            title: "Kept".to_string(),
            body: "still here".to_string(),
            metadata: DocumentMetadata::default(),
        };
        manager.index_document(user_id, input).unwrap();
    }
    let mut manager = manager_in(&temp_dir);
    let stats = manager.get_user_stats(user_id).unwrap();
    assert_eq!(stats.num_documents, 1);
    assert_eq!(stats.user_id, user_id);
}
