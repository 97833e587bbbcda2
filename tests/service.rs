use fuzzija::config::AppConfig;
use fuzzija::indexer::{
    field_name_list, index_source, open_or_create_index, open_readers, plan_indexes, schema_for,
    same_text, IndexError, IndexMap,
};
use fuzzija::pipeline::{Pipeline, PipelineAction, PipelineEvent, Stage};
use fuzzija::search::{
    contains_source, results_from_hits, search_indexes, search_source, DEFAULT_LIMIT,
};
use fuzzija::sources::{
    archive_link, artifact_path, collect_action, resolve_archive_link,
    CollectAction, CollectionError,
};
use fuzzija::tpconfig::{available_sources, source_configs, FieldSpec, Position, SourceKind};
use std::io::Write;

fn zip_of(members: &[(&str, &[u8])]) -> Vec<u8> {
    let mut writer = zip::ZipWriter::new(std::io::Cursor::new(Vec::new()));
    for (name, data) in members {
        writer.start_file(*name, zip::write::SimpleFileOptions::default()).unwrap();
        writer.write_all(data).unwrap();
    }
    writer.finish().unwrap().into_inner()
}

fn app_config(reindex: bool) -> AppConfig {
    AppConfig {
        storage_folder: String::from("raw-data"),
        indexes_folder: String::from("indexes"),
        force_download: false,
        reindex,
        query: None,
    }
}

/// An in-memory index of the business register source, holding `rows`.
fn register_index(rows: &str) -> IndexMap {
    let sources = source_configs();
    let schema = schema_for(&sources[3].fields).unwrap();
    let index = tantivy::Index::create_in_ram(schema);
    let archive = zip_of(&[("prs.csv", rows.as_bytes())]);
    let written = index_source(&sources, 3, Some(&index), &archive);
    assert!(written.is_ok());
    vec![None, None, None, Some(index)]
}

#[test]
fn registry_lists_enabled_sources() {
    let sources = source_configs();
    assert_eq!(available_sources(&sources), vec![0, 1, 3]);
    assert_eq!(sources[1].kind.description(), "Fizi\u{10d}ne Osebe");
    assert_eq!(SourceKind::Disabled.description(), "Disabled");
    assert!(SourceKind::PoslovniRegisterSlovenije.is_scraped());
}

#[test]
fn collection_reuses_or_refetches() {
    for kind in [SourceKind::PravneOsebe, SourceKind::PoslovniRegisterSlovenije] {
        assert_eq!(collect_action(kind, true, false), CollectAction::Reuse);
        let scrape = kind == SourceKind::PoslovniRegisterSlovenije;
        assert_eq!(
            collect_action(kind, true, true),
            CollectAction::Fetch { delete_first: true, scrape }
        );
        assert_eq!(
            collect_action(kind, false, false),
            CollectAction::Fetch { delete_first: false, scrape }
        );
        assert_eq!(
            collect_action(kind, false, true),
            CollectAction::Fetch { delete_first: false, scrape }
        );
    }
}

#[test]
fn artifact_lives_under_storage_folder() {
    let sources = source_configs();
    assert_eq!(artifact_path("raw-data", &sources[0]), Ok(String::from("raw-data/pravne_osebe.zip")));
    let mut bare = sources[0].clone();
    bare.data_path = None;
    assert_eq!(artifact_path("raw-data", &bare), Err(CollectionError::NoArtifactPath));
}

#[test]
fn archive_link_is_first_zip_link_resolved() {
    let page = "https://podatki.gov.si/dataset/prs";
    let html = "<html><body><a href='a.txt'>x</a><a href='/files/prs.zip'>1</a>\
                <a href='https://other.si/b.zip'>2</a></body></html>";
    assert_eq!(archive_link(page, html), Ok(String::from("https://podatki.gov.si/files/prs.zip")));
    let html = "<a href='http://cdn.si/x.zip'>x</a><a href='y.zip'>y</a>";
    assert_eq!(archive_link(page, html), Ok(String::from("http://cdn.si/x.zip")));
    assert_eq!(archive_link(page, "<p>nothing</p>"), Err(CollectionError::NoArchiveLink));
    assert_eq!(archive_link("not a url", "<a href='x.zip'>x</a>"), Err(CollectionError::BadLink));
}

#[test]
fn found_link_is_resolved_against_page() {
    let page = "https://podatki.gov.si/dataset/prs";
    assert_eq!(
        resolve_archive_link(page, Some(String::from("data/prs.zip"))),
        Ok(String::from("https://podatki.gov.si/dataset/data/prs.zip"))
    );
    assert_eq!(
        resolve_archive_link(page, Some(String::from("https://x.si/a.zip"))),
        Ok(String::from("https://x.si/a.zip"))
    );
    assert_eq!(
        resolve_archive_link(page, Some(String::from("http-files/prs.zip"))),
        Ok(String::from("https://podatki.gov.si/dataset/http-files/prs.zip"))
    );
    assert_eq!(resolve_archive_link(page, None), Err(CollectionError::NoArchiveLink));
    assert_eq!(
        resolve_archive_link("not a url", Some(String::from("x.zip"))),
        Err(CollectionError::BadLink)
    );
}

#[test]
fn index_plan_without_reindex_deletes_nothing() {
    let sources = source_configs();
    let first = plan_indexes(&app_config(false), &sources);
    let second = plan_indexes(&app_config(false), &sources);
    assert!(!first.delete_root);
    assert_eq!(first.dirs, second.dirs);
    assert_eq!(
        first.dirs,
        vec![
            Some(String::from("indexes/pravne_osebe")),
            Some(String::from("indexes/fizicne_osebe")),
            None,
            Some(String::from("indexes/poslovni_register_slovenije")),
        ]
    );
    let a = schema_for(&sources[0].fields).unwrap();
    let b = schema_for(&sources[0].fields).unwrap();
    assert!(a == b);
}

#[test]
fn index_plan_with_reindex_deletes_root_first() {
    let sources = source_configs();
    let plan = plan_indexes(&app_config(true), &sources);
    assert!(plan.delete_root);
    for dir in plan.dirs.iter().flatten() {
        assert!(dir.starts_with("indexes/"));
    }
}

#[test]
fn schema_needs_distinct_valid_names() {
    let dup = vec![
        FieldSpec { name: "a", tokenized: true, position: Position::Index(0) },
        FieldSpec { name: "a", tokenized: false, position: Position::Index(1) },
    ];
    assert!(schema_for(&dup).is_none());
    let dash = vec![FieldSpec { name: "-a", tokenized: true, position: Position::Index(0) }];
    assert!(schema_for(&dash).is_none());
    assert!(same_text("abc", "abc"));
    assert!(!same_text("abc", "abd"));
}

#[test]
fn indexing_reports_missing_strategy_or_index() {
    let sources = source_configs();
    let archive = zip_of(&[("prs.csv", b"a,b\n1,2\n")]);
    assert_eq!(index_source(&sources, 2, None, &archive), Err(IndexError::NotImplemented));
    assert_eq!(index_source(&sources, 3, None, &archive), Err(IndexError::NotImplemented));
    assert_eq!(index_source(&sources, 9, None, &archive), Err(IndexError::UnknownSource));
    let schema = schema_for(&sources[3].fields).unwrap();
    let index = tantivy::Index::create_in_ram(schema);
    assert_eq!(index_source(&sources, 3, Some(&index), b"junk"), Err(IndexError::Extraction(
        fuzzija::extract::ExtractionError::Archive
    )));
    assert_eq!(index_source(&sources, 3, Some(&index), &archive), Ok(1));
}

#[test]
fn search_of_no_sources_is_empty() {
    let indexes = register_index("id,name\n1,Acme\n");
    let readers = open_readers(&indexes);
    let results = search_indexes(&indexes, &readers, &vec![], "acme", None);
    assert_eq!(results.len(), 4);
    assert!(results.iter().all(|r| r.is_none()));
}

#[test]
fn search_keeps_limit_best_first() {
    let indexes = register_index(
        "id,name\n1,acme acme acme\n2,acme\n3,acme trading\n4,beta\n5,acme acme\n",
    );
    let readers = open_readers(&indexes);
    let results = search_indexes(&indexes, &readers, &vec![3], "acme", Some(2));
    let hits = results[3].as_ref().unwrap();
    assert_eq!(hits.len(), 2);
    assert!(f32::from_bits(hits[0].score_bits) >= f32::from_bits(hits[1].score_bits));
    assert!(hits[0].document.contains("acme acme"));
    assert!(results[0].is_none());
}

#[test]
fn search_skips_sources_without_index_and_degrades_bad_query() {
    let indexes = register_index("id,name\n1,Acme\n");
    let readers = open_readers(&indexes);
    let results = search_indexes(&indexes, &readers, &vec![0, 1, 3], "name:(", None);
    assert!(results[0].is_none());
    assert!(results[1].is_none());
    assert_eq!(results[3].as_ref().unwrap().len(), 0);
    let results = search_indexes(&indexes, &readers, &vec![3], "acme", None);
    assert_eq!(results[3].as_ref().unwrap().len(), 1);
    let one = search_source(readers[3].as_ref().unwrap(), "acme", 0);
    assert!(one.is_empty());
    assert_eq!(DEFAULT_LIMIT, 10);
    assert!(contains_source(&vec![2, 3], 3));
    assert!(!contains_source(&vec![2, 3], 1));
}

#[test]
fn one_failed_collection_leaves_others_indexed() {
    let sources = source_configs();
    let mut run = Pipeline::start(&sources);
    assert_eq!(run.to_collect(), vec![0, 1, 3]);
    assert_eq!(run.on_event(PipelineEvent::Collected(3)), PipelineAction::StartIndexing(3));
    assert_eq!(run.on_event(PipelineEvent::CollectionFailed(1)), PipelineAction::Nothing);
    assert_eq!(run.on_event(PipelineEvent::Collected(0)), PipelineAction::StartIndexing(0));
    assert_eq!(run.on_event(PipelineEvent::Collected(1)), PipelineAction::Nothing);
    assert!(!run.is_finished());
    run.on_event(PipelineEvent::IndexingFinished(0, true));
    run.on_event(PipelineEvent::IndexingFinished(3, true));
    assert!(run.is_finished());
    assert_eq!(
        run.stages,
        vec![Stage::Indexed, Stage::CollectionFailed, Stage::Idle, Stage::Indexed]
    );
}

#[test]
fn run_counts_sources_by_stage() {
    let sources = source_configs();
    let mut run = Pipeline::start(&sources);
    assert_eq!(run.count(Stage::Collecting), 3);
    assert_eq!(run.count(Stage::Idle), 1);
    run.on_event(PipelineEvent::CollectionFailed(0));
    run.on_event(PipelineEvent::Collected(1));
    run.on_event(PipelineEvent::IndexingFinished(1, false));
    assert_eq!(run.count(Stage::CollectionFailed), 1);
    assert_eq!(run.count(Stage::IndexingFailed), 1);
    assert_eq!(run.count(Stage::Collecting), 1);
}

#[test]
fn engine_hits_become_results_in_order() {
    let hits = vec![(7u32, String::from("{\"a\":1}")), (3u32, String::from("{}"))];
    let results = results_from_hits(Ok(hits));
    assert_eq!(results.len(), 2);
    assert_eq!(results[0].score_bits, 7);
    assert_eq!(results[0].document, "{\"a\":1}");
    assert_eq!(results[1].score_bits, 3);
    let failed = results_from_hits(Err(tantivy::TantivyError::InvalidArgument(String::from("q"))));
    assert!(failed.is_empty());
}

#[test]
fn search_returns_every_hit_with_its_document() {
    let indexes = register_index("id,name\n1,Acme\n2,Beta\n3,Acme Beta\n");
    let readers = open_readers(&indexes);
    let hits = search_source(readers[3].as_ref().unwrap(), "beta", 10);
    assert_eq!(hits.len(), 2);
    assert!(hits.iter().all(|h| h.document.contains("Beta")));
    let bad = search_source(readers[3].as_ref().unwrap(), "company_name:(", 10);
    assert!(bad.is_empty());
}

#[test]
fn source_without_member_leaves_index_alone() {
    let mut sources = source_configs();
    sources[0].zip_file_path = None;
    let schema = schema_for(&sources[0].fields).unwrap();
    let index = tantivy::Index::create_in_ram(schema);
    let archive = zip_of(&[("other.txt", b"x")]);
    assert_eq!(index_source(&sources, 0, Some(&index), &archive), Ok(0));
    let readers = open_readers(&vec![Some(index)]);
    let searcher = readers[0].as_ref().unwrap().searcher();
    assert_eq!(searcher.num_docs(), 0);
}

#[test]
fn readers_of_no_indexes_always_open() {
    let readers = open_readers(&vec![None, None]);
    assert_eq!(readers.len(), 2);
    assert!(readers.iter().all(|r| r.is_none()));
}

#[test]
fn invalid_layout_is_refused_before_opening() {
    let mut sources = source_configs();
    sources[3].fields[1].name = "company_id";
    assert!(matches!(
        open_or_create_index("/nonexistent-dir", &sources[3]),
        Err(IndexError::InvalidLayout)
    ));
    assert!(matches!(
        open_or_create_index("/nonexistent-dir", &source_configs()[3]),
        Err(IndexError::Engine)
    ));
    assert_eq!(field_name_list(&source_configs()[3].fields), vec!["company_id", "company_name"]);
}

#[test]
fn table_holds_every_setting() {
    let sources = source_configs();
    assert_eq!(sources[0].name, "Pravne Osebe");
    assert_eq!(sources[0].zip_file_path, Some("DURS_zavezanci_PO.txt"));
    assert_eq!(sources[3].source_url, "https://podatki.gov.si/dataset/poslovni-register-slovenije");
    assert_eq!(sources[2].index_path, Some("fizicne_osebe_dej"));
    assert!(sources[0].fields[2].tokenized);
    assert!(!sources[0].fields[0].tokenized);
}

#[test]
fn readers_open_per_source() {
    let readers = open_readers(&register_index("id,name\n1,Acme\n"));
    assert!(readers[3].is_some());
    assert!(readers[0].is_none());
}
