use searchcore::config::Search;
use searchcore::dto::{AddDocReq, DeleteByTermReq, SearchReq};
use searchcore::error::Error;
use searchcore::index::LocalIndex;
use searchcore::index_config::{
    AnalyzerConfig, IndexConfig, NgramTokenizerConfig, StemmerConfig, TokenFilterConfig,
    TokenizerConfig,
};
use searchcore::index_manager::{delete_outcome, IndexManager};
use std::sync::Arc;
use tempfile::TempDir;

fn test_schema() -> tantivy::schema::Schema {
    let mut builder = tantivy::schema::Schema::builder();
    builder.add_u64_field("id", tantivy::schema::INDEXED | tantivy::schema::STORED);
    builder.add_text_field("body", tantivy::schema::TEXT | tantivy::schema::STORED);
    builder.add_bytes_field("data", tantivy::schema::INDEXED);
    builder.add_date_field("when", tantivy::schema::INDEXED);
    builder.build()
}

fn test_config() -> IndexConfig {
    IndexConfig::new(tantivy::IndexSettings::default(), vec![], test_schema())
}

fn search_conf(root: &TempDir) -> Search {
    Search {
        data_dir: root.path().to_str().unwrap().to_string(),
        indexer_num_threads: Some(1),
        indexer_heap_size: 20_000_000,
    }
}

/// The application's part of a create: the collection directory must exist,
/// empty, before the engine materializes the index in it.
fn make_collection_dir(root: &TempDir, name: &str) {
    let dir = tempfile::Builder::new()
        .prefix(name)
        .rand_bytes(0)
        .tempdir_in(root.path())
        .unwrap();
    let _ = dir.keep();
}

fn create_collection(manager: &IndexManager, root: &TempDir, name: &str) -> Arc<LocalIndex> {
    manager.index_path(name).unwrap();
    make_collection_dir(root, name);
    manager.create_index(name.to_string(), &test_config()).unwrap()
}

fn add_doc(handle: &Arc<LocalIndex>, json: &str, commit: bool) -> Result<(), Error> {
    handle.add_document(AddDocReq { doc: json.to_string(), commit })
}

fn count_hits(handle: &Arc<LocalIndex>, query: &str, limit: usize, offset: usize) -> usize {
    handle
        .search(SearchReq { query: query.to_string(), limit, offset })
        .unwrap()
        .docs
        .len()
}

fn hit_ids(handle: &Arc<LocalIndex>, query: &str) -> Vec<u64> {
    let resp = handle
        .search(SearchReq { query: query.to_string(), limit: 100, offset: 0 })
        .unwrap();
    let mut ids = Vec::new();
    for hit in &resp.docs {
        let value: serde_json::Value = serde_json::from_str(&hit.doc).unwrap();
        ids.push(value["id"][0].as_u64().unwrap());
    }
    ids.sort();
    ids
}

#[test]
fn create_then_resolve_returns_the_same_handle() {
    let root = TempDir::new().unwrap();
    let manager = IndexManager::new(search_conf(&root));
    let created = create_collection(&manager, &root, "docs");
    let resolved = manager.index("docs", &vec![]).unwrap();
    assert!(Arc::ptr_eq(&created, &resolved));
    assert_eq!(created.id(), resolved.id());
}

#[test]
fn create_twice_reports_already_exists() {
    let root = TempDir::new().unwrap();
    let manager = IndexManager::new(search_conf(&root));
    let first = create_collection(&manager, &root, "docs");
    let second = manager.create_index("docs".to_string(), &test_config());
    assert!(matches!(second, Err(Error::AlreadyExists { .. })));
    // the one registered handle is still the first one
    let resolved = manager.index("docs", &vec![]).unwrap();
    assert!(Arc::ptr_eq(&first, &resolved));
}

#[test]
fn create_on_a_directory_already_holding_an_index_reports_already_exists() {
    let root = TempDir::new().unwrap();
    {
        let manager = IndexManager::new(search_conf(&root));
        create_collection(&manager, &root, "docs");
    }
    // a fresh process: nothing registered, but the index is on disk
    let manager = IndexManager::new(search_conf(&root));
    let err = manager.create_index("docs".to_string(), &test_config());
    assert!(matches!(err, Err(Error::AlreadyExists { .. })));
}

#[test]
fn resolve_of_unknown_name_reports_not_found() {
    let root = TempDir::new().unwrap();
    let manager = IndexManager::new(search_conf(&root));
    let missing = manager.index("nothere", &vec![]);
    assert!(matches!(missing, Err(Error::NotFound { .. })));
    create_collection(&manager, &root, "nothere");
    assert!(manager.index("nothere", &vec![]).is_ok());
}

#[test]
fn lazy_opens_converge_to_one_shared_handle() {
    let root = TempDir::new().unwrap();
    {
        let manager = IndexManager::new(search_conf(&root));
        let handle = create_collection(&manager, &root, "docs");
        // evict the handle and close it, releasing the directory lock
        manager.delete_index("docs").unwrap();
        Arc::try_unwrap(handle).ok().unwrap().close();
    }
    let manager = IndexManager::new(search_conf(&root));
    let first = manager.index("docs", &vec![]).unwrap();
    let second = manager.index("docs", &vec![]).unwrap();
    assert!(Arc::ptr_eq(&first, &second));
    assert_eq!(first.id(), second.id());
}

#[test]
fn delete_unregisters_and_reports_not_found_for_nothing() {
    let root = TempDir::new().unwrap();
    let manager = IndexManager::new(search_conf(&root));
    create_collection(&manager, &root, "docs");

    let (path, was_registered) = manager.delete_index("docs").unwrap();
    assert!(path.ends_with("/docs"));
    assert!(was_registered);
    assert!(delete_outcome("docs".to_string(), was_registered, true).is_ok());

    let (_, was_registered) = manager.delete_index("ghost").unwrap();
    assert!(!was_registered);
    let verdict = delete_outcome("ghost".to_string(), was_registered, false);
    assert!(matches!(verdict, Err(Error::NotFound { .. })));
}

#[test]
fn five_documents_then_delete_by_id() {
    let root = TempDir::new().unwrap();
    let manager = IndexManager::new(search_conf(&root));
    let docs = create_collection(&manager, &root, "docs");

    for i in 0..5u64 {
        let payload = format!("{{\"id\": {}, \"body\": \"test document\"}}", i);
        add_doc(&docs, &payload, i == 4).unwrap();
    }
    docs.reload().unwrap();
    assert_eq!(count_hits(&docs, "body:test", 5, 0), 5);

    docs.delete_by_term(DeleteByTermReq {
        field: "id".to_string(),
        term: "3".to_string(),
        commit: true,
    })
    .unwrap();
    docs.reload().unwrap();
    assert_eq!(count_hits(&docs, "body:test", 5, 0), 4);
    assert_eq!(hit_ids(&docs, "body:test"), vec![0, 1, 2, 4]);
}

#[test]
fn commit_alone_is_not_visible_before_reload() {
    let root = TempDir::new().unwrap();
    let manager = IndexManager::new(search_conf(&root));
    let docs = create_collection(&manager, &root, "docs");
    add_doc(&docs, "{\"id\": 1, \"body\": \"test\"}", true).unwrap();
    // committed, but the reader still sees the pre-commit state
    assert_eq!(count_hits(&docs, "body:test", 10, 0), 0);
    docs.reload().unwrap();
    assert_eq!(count_hits(&docs, "body:test", 10, 0), 1);
}

#[test]
fn unknown_document_field_is_rejected_and_never_searchable() {
    let root = TempDir::new().unwrap();
    let manager = IndexManager::new(search_conf(&root));
    let docs = create_collection(&manager, &root, "docs");

    let err = add_doc(&docs, "{\"bodyy\": \"test\"}", true);
    assert!(matches!(err, Err(Error::DocumentParse { .. })));
    let err = add_doc(&docs, "[1, 2, 3]", false);
    assert!(matches!(err, Err(Error::DocumentParse { .. })));

    docs.commit().unwrap();
    docs.reload().unwrap();
    assert_eq!(count_hits(&docs, "body:test", 10, 0), 0);
}

#[test]
fn invalid_names_are_rejected_before_anything_happens() {
    let root = TempDir::new().unwrap();
    let manager = IndexManager::new(search_conf(&root));
    let err = manager.create_index("../etc".to_string(), &test_config());
    assert!(matches!(err, Err(Error::InvalidName { .. })));
    let err = manager.create_index("a/b".to_string(), &test_config());
    assert!(matches!(err, Err(Error::InvalidName { .. })));
    assert!(matches!(manager.index("../etc", &vec![]), Err(Error::InvalidName { .. })));
    assert!(matches!(manager.index_path("../etc"), Err(Error::InvalidName { .. })));
    assert!(matches!(manager.delete_index("../etc"), Err(Error::InvalidName { .. })));
    // nothing was created or registered under any such name
    assert!(matches!(manager.index("etc", &vec![]), Err(Error::NotFound { .. })));
}

#[test]
fn zero_limit_and_large_offset_return_nothing() {
    let root = TempDir::new().unwrap();
    let manager = IndexManager::new(search_conf(&root));
    let docs = create_collection(&manager, &root, "docs");
    add_doc(&docs, "{\"id\": 1, \"body\": \"test\"}", true).unwrap();
    docs.reload().unwrap();

    assert_eq!(count_hits(&docs, "body:test", 0, 0), 0);
    assert_eq!(count_hits(&docs, "body:test", 10, 100), 0);
    assert_eq!(count_hits(&docs, "body:test", 10, 0), 1);
}

#[test]
fn malformed_query_reports_query_parse() {
    let root = TempDir::new().unwrap();
    let manager = IndexManager::new(search_conf(&root));
    let docs = create_collection(&manager, &root, "docs");
    let err = docs.search(SearchReq { query: "body:[".to_string(), limit: 5, offset: 0 });
    assert!(matches!(err, Err(Error::QueryParse { .. })));
}

#[test]
fn delete_by_term_validates_field_and_value() {
    let root = TempDir::new().unwrap();
    let manager = IndexManager::new(search_conf(&root));
    let docs = create_collection(&manager, &root, "docs");

    let err = docs.delete_by_term(DeleteByTermReq {
        field: "nope".to_string(),
        term: "1".to_string(),
        commit: false,
    });
    assert!(matches!(err, Err(Error::FieldNotFound { .. })));

    let err = docs.delete_by_term(DeleteByTermReq {
        field: "id".to_string(),
        term: "abc".to_string(),
        commit: false,
    });
    assert!(matches!(err, Err(Error::ValueParse { .. })));
}

#[test]
fn delete_by_bytes_term_removes_the_decoded_document() {
    let root = TempDir::new().unwrap();
    let manager = IndexManager::new(search_conf(&root));
    let docs = create_collection(&manager, &root, "docs");

    // "aGVsbG8=" is "hello", "d29ybGQ=" is "world"
    add_doc(&docs, "{\"id\": 1, \"body\": \"test\", \"data\": \"aGVsbG8=\"}", false).unwrap();
    add_doc(&docs, "{\"id\": 2, \"body\": \"test\", \"data\": \"d29ybGQ=\"}", true).unwrap();
    docs.reload().unwrap();
    assert_eq!(count_hits(&docs, "body:test", 10, 0), 2);

    docs.delete_by_term(DeleteByTermReq {
        field: "data".to_string(),
        term: "aGVsbG8=".to_string(),
        commit: true,
    })
    .unwrap();
    docs.reload().unwrap();
    assert_eq!(hit_ids(&docs, "body:test"), vec![2]);
}

#[test]
fn delete_by_date_term_removes_the_matching_document() {
    let root = TempDir::new().unwrap();
    let manager = IndexManager::new(search_conf(&root));
    let docs = create_collection(&manager, &root, "docs");

    add_doc(
        &docs,
        "{\"id\": 1, \"body\": \"test\", \"when\": \"2020-05-01T12:00:00Z\"}",
        false,
    )
    .unwrap();
    add_doc(
        &docs,
        "{\"id\": 2, \"body\": \"test\", \"when\": \"2021-05-01T12:00:00Z\"}",
        true,
    )
    .unwrap();
    docs.reload().unwrap();
    assert_eq!(count_hits(&docs, "body:test", 10, 0), 2);

    docs.delete_by_term(DeleteByTermReq {
        field: "when".to_string(),
        term: "2020-05-01T12:00:00Z".to_string(),
        commit: true,
    })
    .unwrap();
    docs.reload().unwrap();
    assert_eq!(hit_ids(&docs, "body:test"), vec![2]);
}

fn stem_analyzer(lang: &str) -> AnalyzerConfig {
    AnalyzerConfig {
        name: "custom".to_string(),
        tokenizer: TokenizerConfig::Simple,
        token_filters: vec![
            TokenFilterConfig::Lowercase,
            TokenFilterConfig::Stemmer(StemmerConfig { lang: lang.to_string() }),
        ],
    }
}

#[test]
fn analyzers_build_exactly_for_known_configurations() {
    assert!(stem_analyzer("English").make_analyzer().is_some());
    assert!(stem_analyzer("French").make_analyzer().is_some());
    assert!(stem_analyzer("Klingon").make_analyzer().is_none());

    let bad_ngram = AnalyzerConfig {
        name: "ng".to_string(),
        tokenizer: TokenizerConfig::Ngram(NgramTokenizerConfig {
            min_gram: 0,
            max_gram: 3,
            prefix_only: false,
        }),
        token_filters: vec![],
    };
    assert!(bad_ngram.make_analyzer().is_none());
    let good_ngram = AnalyzerConfig {
        name: "ng".to_string(),
        tokenizer: TokenizerConfig::Ngram(NgramTokenizerConfig {
            min_gram: 1,
            max_gram: 3,
            prefix_only: true,
        }),
        token_filters: vec![],
    };
    assert!(good_ngram.make_analyzer().is_some());
}

#[test]
fn create_with_analyzers_validates_them() {
    let root = TempDir::new().unwrap();
    let manager = IndexManager::new(search_conf(&root));

    make_collection_dir(&root, "good");
    let conf = IndexConfig::new(
        tantivy::IndexSettings::default(),
        vec![stem_analyzer("English")],
        test_schema(),
    );
    assert!(manager.create_index("good".to_string(), &conf).is_ok());

    make_collection_dir(&root, "bad");
    let conf = IndexConfig::new(
        tantivy::IndexSettings::default(),
        vec![stem_analyzer("Klingon")],
        test_schema(),
    );
    let err = manager.create_index("bad".to_string(), &conf);
    assert!(matches!(err, Err(Error::ValueParse { .. })));
}

#[test]
fn two_collections_stay_independent() {
    let root = TempDir::new().unwrap();
    let manager = IndexManager::new(search_conf(&root));
    let a = create_collection(&manager, &root, "alpha");
    let b = create_collection(&manager, &root, "beta");
    assert!(!Arc::ptr_eq(&a, &b));
    assert_ne!(a.id(), b.id());

    add_doc(&a, "{\"id\": 1, \"body\": \"test\"}", true).unwrap();
    a.reload().unwrap();
    b.reload().unwrap();
    assert_eq!(count_hits(&a, "body:test", 10, 0), 1);
    assert_eq!(count_hits(&b, "body:test", 10, 0), 0);
}
