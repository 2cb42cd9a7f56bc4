use tax2go_search::clock::can_write;
use tax2go_search::config::{is_true, Config, ConfigError};
use tax2go_search::engine::Hit;
use tax2go_search::error::AppError;
use tax2go_search::models::{
    default_browse_limit, default_limit, BrowseDocumentsQuery, DocumentMetadata,
    IndexDocumentInput, SearchFilters, SearchQuery, Timestamp, MAX_BROWSE_LIMIT,
    MAX_SEARCH_LIMIT,
};
use tax2go_search::paging::{paginate, window};
use tax2go_search::text::{char_is_white_space, is_blank};
use tax2go_search::validation::{
    validate_browse, validate_delete, validate_document, validate_search,
};

fn message(outcome: Result<(), AppError>) -> String {
    match outcome {
        Err(AppError::Validation(text)) => text,
        other => panic!("no validation error: {:?}", other),
    }
}

fn document(title: &str, body: &str) -> IndexDocumentInput {
    IndexDocumentInput {
        id: None,
        title: title.to_string(),
        body: body.to_string(),
        metadata: DocumentMetadata::default(),
    }
}

fn search(query: &str, limit: usize) -> SearchQuery {
    SearchQuery { query: query.to_string(), limit, offset: 0, filters: SearchFilters::default() }
}

#[test]
fn the_default_page_sizes() {
    assert_eq!(default_limit(), 10);
    assert_eq!(default_browse_limit(), 50);
    assert_eq!(MAX_SEARCH_LIMIT, 100);
    assert_eq!(MAX_BROWSE_LIMIT, 1000);
}

#[test]
fn blank_is_nothing_but_white_space() {
    assert!(is_blank(""));
    assert!(is_blank(" \t\r\n"));
    assert!(is_blank("\u{3000}\u{a0}\u{2003}\u{85}"));
    assert!(!is_blank(" a "));
    assert!(!is_blank("\u{200b}"));
    assert!(!is_blank("\u{feff}"));
}

#[test]
fn white_space_is_what_std_says() {
    let mut code: u32 = 0;
    while code <= 0x3100 {
        if let Some(c) = char::from_u32(code) {
            assert_eq!(char_is_white_space(c), c.is_whitespace(), "U+{:04X}", code);
        }
        code += 1;
    }
    assert!(!char_is_white_space('\u{10ffff}'));
}

#[test]
fn a_document_needs_a_title_and_a_body() {
    assert!(validate_document(&document("T", "B")).is_ok());
    assert_eq!(message(validate_document(&document("", "B"))), "Title cannot be empty");
    assert_eq!(message(validate_document(&document("  ", ""))), "Title cannot be empty");
    assert_eq!(message(validate_document(&document("T", " \n"))), "Body cannot be empty");
}

#[test]
fn a_document_needs_a_time_that_can_be_written() {
    let mut input = document("T", "B");
    input.metadata.created_at = Some(Timestamp { seconds: 0, nanos: 0 });
    assert!(validate_document(&input).is_ok());
    assert!(can_write(&Timestamp { seconds: 0, nanos: 999_999_999 }));
    input.metadata.created_at = Some(Timestamp { seconds: i64::MIN, nanos: 0 });
    assert_eq!(message(validate_document(&input)), "created_at is out of range");
    assert!(!can_write(&Timestamp { seconds: i64::MAX, nanos: 0 }));
    input.metadata.created_at = Some(Timestamp { seconds: 5, nanos: 2_000_000_000 });
    assert_eq!(message(validate_document(&input)), "created_at is out of range");
    // a blank title is named first
    input.title = " ".to_string();
    assert_eq!(message(validate_document(&input)), "Title cannot be empty");
}

#[test]
fn a_delete_needs_an_id() {
    assert!(validate_delete("x").is_ok());
    assert_eq!(message(validate_delete("")), "Document ID cannot be empty");
    assert_eq!(message(validate_delete("\t ")), "Document ID cannot be empty");
}

#[test]
fn a_search_needs_a_query_and_a_page_of_1_to_100() {
    assert!(validate_search(&search("q", 1)).is_ok());
    assert!(validate_search(&search("q", 100)).is_ok());
    assert_eq!(message(validate_search(&search(" ", 10))), "Query cannot be empty");
    assert_eq!(message(validate_search(&search(" ", 0))), "Query cannot be empty");
    assert_eq!(message(validate_search(&search("q", 0))), "Limit must be greater than 0");
    assert_eq!(message(validate_search(&search("q", 101))), "Limit cannot exceed 100");
}

#[test]
fn a_browse_needs_a_page_of_1_to_1000() {
    assert!(validate_browse(&BrowseDocumentsQuery { limit: 1, offset: 0 }).is_ok());
    assert!(validate_browse(&BrowseDocumentsQuery { limit: 1000, offset: 9 }).is_ok());
    assert_eq!(
        message(validate_browse(&BrowseDocumentsQuery { limit: 0, offset: 0 })),
        "Limit must be greater than 0"
    );
    assert_eq!(
        message(validate_browse(&BrowseDocumentsQuery { limit: 1001, offset: 0 })),
        "Limit cannot exceed 1000"
    );
}

#[test]
fn the_window_is_page_and_offset_capped_by_the_index() {
    assert_eq!(window(10, 0, 3), Some(3));
    assert_eq!(window(10, 5, 100), Some(15));
    assert_eq!(window(10, 5, 15), Some(15));
    assert_eq!(window(10, 5, 14), Some(14));
    assert_eq!(window(10, 0, 0), Some(1));
    assert_eq!(window(1, 0, u64::MAX), Some(1));
    assert_eq!(window(100, usize::MAX, 7), Some(7));
    assert_eq!(window(5, 67_108_864, 67_108_874), Some(67_108_869));
    // more than the collector can take
    let most = usize::MAX / 48;
    assert_eq!(window(1, most - 1, u64::MAX), Some(most));
    assert_eq!(window(1, most, u64::MAX), None);
    assert_eq!(window(100, usize::MAX, u64::MAX), None);
    assert_eq!(window(100, usize::MAX, most as u64), Some(most));
}

fn hits(n: u32) -> Vec<Hit> {
    (0..n).map(|i| Hit { score_bits: i, segment: 0, doc: i }).collect()
}

fn docs(page: &[Hit]) -> Vec<u32> {
    page.iter().map(|h| h.doc).collect()
}

#[test]
fn a_page_skips_the_offset_and_takes_the_limit() {
    let all = hits(5);
    assert_eq!(docs(&paginate(&all, 0, 10)), vec![0, 1, 2, 3, 4]);
    assert_eq!(docs(&paginate(&all, 0, 2)), vec![0, 1]);
    assert_eq!(docs(&paginate(&all, 3, 2)), vec![3, 4]);
    assert_eq!(docs(&paginate(&all, 4, 2)), vec![4]);
    assert_eq!(docs(&paginate(&all, 5, 2)), Vec::<u32>::new());
    assert_eq!(docs(&paginate(&all, 9, 2)), Vec::<u32>::new());
    assert_eq!(docs(&paginate(&all, 2, 0)), Vec::<u32>::new());
    assert_eq!(docs(&paginate(&all, usize::MAX, usize::MAX)), Vec::<u32>::new());
    assert_eq!(docs(&paginate(&all, 1, usize::MAX)), vec![1, 2, 3, 4]);
    assert_eq!(docs(&paginate(&hits(0), 0, 3)), Vec::<u32>::new());
}

#[test]
fn each_error_has_its_status_kind_and_body() {
    let cases = vec![
        (AppError::Internal("boom".to_string()), 500, "internal_error", "Internal server error: boom"),
        (AppError::BadRequest("bad".to_string()), 400, "bad_request", "Bad request: bad"),
        (AppError::NotFound("lost".to_string()), 404, "not_found", "Not found: lost"),
        (AppError::Validation("wrong".to_string()), 422, "validation_error", "Validation error: wrong"),
        (AppError::Search("query".to_string()), 400, "search_error", "Search error: query"),
        (AppError::Index("disk".to_string()), 500, "index_error", "Index error: disk"),
    ];
    for (error, status, kind, line) in cases {
        assert_eq!(error.status_code(), status);
        assert_eq!(error.kind(), kind);
        assert_eq!(error.describe(), line);
        let internal = matches!(error, AppError::Internal(_));
        let (answered, body) = error.into_response();
        assert_eq!(answered, status);
        assert_eq!(body.error, kind);
        if internal {
            assert_eq!(body.message, "An internal error occurred");
            assert_eq!(body.details, Some("boom".to_string()));
        } else {
            assert_eq!(format!("{}: {}", line.split(':').next().unwrap(), body.message), line);
            assert_eq!(body.details, None);
        }
    }
}

#[test]
fn the_settings_fall_back_where_nothing_is_set() {
    assert_eq!(Config::bind_addr_or_default(None), "127.0.0.1:8080");
    assert_eq!(Config::bind_addr_or_default(Some("0.0.0.0:9".to_string())), "0.0.0.0:9");
    let config =
        Config::from_values("127.0.0.1:8080".to_string(), Some("/data".to_string()), None, None)
            .unwrap();
    assert_eq!(config.bind_addr, "127.0.0.1:8080");
    assert_eq!(config.data_dir, "/data");
    assert_eq!(config.log_level, "info");
    assert!(!config.web_ui_enabled);
    let config = Config::from_values(
        "a".to_string(),
        Some("d".to_string()),
        Some("debug".to_string()),
        Some("TrUe".to_string()),
    )
    .unwrap();
    assert_eq!(config.log_level, "debug");
    assert!(config.web_ui_enabled);
    let error = Config::from_values("a".to_string(), None, None, Some("true".to_string()))
        .unwrap_err();
    assert_eq!(error, ConfigError::MissingDataDir);
    assert_eq!(error.message(), "DATA_DIR environment variable is required");
    for text in ["true", "TRUE", "True", "tRUE", "false", "", "tru", "truee", " true", "1", "yes",
        "trüe", "\u{ff34}rue", "t\u{212a}ue"]
    {
        assert_eq!(is_true(text), text.to_lowercase() == "true", "{:?}", text);
    }
}

#[test]
fn blank_is_what_trimming_leaves_empty() {
    for text in ["", " ", "\t\n", "a", " a", "a ", "\u{a0}", "\u{2028}\u{2029}", "\u{1680}x",
        "\u{200b}", "\u{180e}", "\u{3000}\u{205f}\u{202f}"]
    {
        assert_eq!(is_blank(text), text.trim().is_empty(), "{:?}", text);
    }
}
