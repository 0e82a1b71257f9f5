use ragrig_cli::corpora::{
    added_summary, removed_notice, saved_summary, Corpora, CorpusStep, IngestStep,
};
use ragrig_cli::corpus::{
    parse_corpora, pick_web_route, CorpusEntry, CorpusKind, FolderCorpus, UrlCorpus, WebRoute,
};

fn dir_entry(name: &str) -> CorpusEntry {
    CorpusEntry {
        name: name.into(),
        kind: CorpusKind::Dir(FolderCorpus::named(name, "/tmp")),
        active: true,
    }
}

fn url_entry(name: &str) -> CorpusEntry {
    CorpusEntry {
        name: name.into(),
        kind: CorpusKind::Urls(UrlCorpus::new(name)),
        active: true,
    }
}

fn urls_of(entry: &CorpusEntry) -> Vec<String> {
    match &entry.kind {
        CorpusKind::Urls(c) => c.urls.clone(),
        CorpusKind::Dir(_) => panic!("a directory"),
    }
}

#[test]
fn parse_corpora_dir_and_urls() {
    let entries = parse_corpora(
        &["papers=/data/papers".to_string()],
        &["arxiv=https://arxiv.org/pdf/a.pdf".to_string()],
    )
    .unwrap();
    assert_eq!(entries.len(), 2);
    assert_eq!(entries[0].name, "papers");
    assert_eq!(entries[0].kind.label(), "dir");
    assert!(entries[0].active);
    assert_eq!(entries[0].as_corpus().name(), "papers");
    assert_eq!(entries[1].name, "arxiv");
    assert_eq!(entries[1].kind.label(), "urls");
    assert!(entries[1].active);
    assert_eq!(entries[1].as_corpus().name(), "arxiv");
}

#[test]
fn parse_corpora_repeated_url_name_merges() {
    let entries = parse_corpora(
        &[],
        &[
            "arxiv=https://arxiv.org/pdf/a.pdf".to_string(),
            "arxiv=https://arxiv.org/pdf/b.pdf".to_string(),
        ],
    )
    .unwrap();
    assert_eq!(entries.len(), 1);
    assert_eq!(entries[0].name, "arxiv");
    assert_eq!(entries[0].kind.label(), "urls");
    assert_eq!(entries[0].as_corpus().name(), "arxiv");
    assert_eq!(
        urls_of(&entries[0]),
        vec!["https://arxiv.org/pdf/a.pdf", "https://arxiv.org/pdf/b.pdf"]
    );
}

#[test]
fn parse_corpora_duplicate_dir_name_errors() {
    let err = parse_corpora(&["docs=/a".to_string(), "docs=/b".to_string()], &[]).unwrap_err();
    assert!(err.to_string().contains("Duplicate corpus name 'docs'"));
    assert_eq!(err, "Duplicate corpus name 'docs'");
}

#[test]
fn parse_corpora_name_clash_between_kinds_errors() {
    let err = parse_corpora(
        &["docs=/a".to_string()],
        &["docs=https://example.com/x.pdf".to_string()],
    )
    .unwrap_err();
    assert!(err.to_string().contains("Duplicate corpus name 'docs'"));
    assert_eq!(err, "Duplicate corpus name 'docs' (already a --corpus-dir corpus)");
}

#[test]
fn parse_corpora_missing_equals_errors() {
    assert!(parse_corpora(&["nodir".to_string()], &[]).is_err());
    assert!(parse_corpora(&[], &["nourl".to_string()]).is_err());
}

#[test]
fn corpus_arguments_need_a_name_and_a_value() {
    assert_eq!(
        parse_corpora(&[" =/a".to_string()], &[]).unwrap_err(),
        "Invalid --corpus-dir ' =/a': expected NAME=/path/to/dir"
    );
    assert_eq!(
        parse_corpora(&[], &["x= ".to_string()]).unwrap_err(),
        "Invalid --corpus-urls 'x= ': expected NAME=URL"
    );
    let entries = parse_corpora(&[" a = /x=y ".to_string()], &[]).unwrap();
    assert_eq!(entries[0].name, "a");
    match &entries[0].kind {
        CorpusKind::Dir(c) => assert_eq!(c.folder, "/x=y"),
        CorpusKind::Urls(_) => panic!("addresses"),
    }
}

#[test]
fn address_lists_keep_the_order_of_first_occurrence() {
    let entries = parse_corpora(
        &["d=/d".to_string()],
        &[
            "b=u1".to_string(),
            "a=u2".to_string(),
            "b=u3".to_string(),
        ],
    )
    .unwrap();
    let names: Vec<&str> = entries.iter().map(|e| e.name.as_str()).collect();
    assert_eq!(names, vec!["d", "b", "a"]);
    assert_eq!(urls_of(&entries[1]), vec!["u1", "u3"]);
    assert_eq!(urls_of(&entries[2]), vec!["u2"]);
    assert!(entries.iter().all(|e| e.active));
}

#[test]
fn route_dyn_off_goes_to_folder() {
    let corpora = vec![dir_entry("papers"), url_entry("arxiv")];
    assert!(matches!(pick_web_route(false, &corpora), WebRoute::Folder));
}

#[test]
fn route_without_corpora_goes_to_folder() {
    assert!(matches!(pick_web_route(true, &[]), WebRoute::Folder));
}

#[test]
fn route_prefers_first_active_url_corpus() {
    let corpora = vec![dir_entry("papers"), url_entry("arxiv")];
    match pick_web_route(true, &corpora) {
        WebRoute::Url { name } => assert_eq!(name, "arxiv"),
        other => panic!("expected Url route, got {other:?}"),
    }
}

#[test]
fn route_falls_back_to_first_active_dir_corpus() {
    let corpora = vec![dir_entry("papers"), dir_entry("books")];
    match pick_web_route(true, &corpora) {
        WebRoute::Dir { name } => assert_eq!(name, "papers"),
        other => panic!("expected Dir route, got {other:?}"),
    }
}

#[test]
fn route_skips_inactive_corpora() {
    let mut url = url_entry("arxiv");
    url.active = false;
    let mut dir = dir_entry("papers");
    dir.active = false;
    let corpora = vec![url.clone(), dir_entry("books")];
    match pick_web_route(true, &corpora) {
        WebRoute::Dir { name } => assert_eq!(name, "books"),
        other => panic!("expected Dir route, got {other:?}"),
    }
    let corpora = vec![url, dir];
    assert!(matches!(pick_web_route(true, &corpora), WebRoute::Folder));
}

fn said(step: CorpusStep) -> Vec<String> {
    match step {
        CorpusStep::Say(lines) => lines,
        other => panic!("unexpected {other:?}"),
    }
}

#[test]
fn corpora_are_listed() {
    let mut c = Corpora::new(vec![dir_entry("papers"), url_entry("arxiv")]);
    c.entries[1].active = false;
    assert_eq!(
        said(c.cmd_corpus("  ")),
        vec![
            "Document corpora:",
            "  papers           (dir ) on",
            "  arxiv            (urls) off",
            "  dyn              (route) on",
            "Usage: /corpus <name> on|off   (or /corpus to list)",
        ]
    );
    let mut none = Corpora::new(vec![]);
    assert_eq!(
        said(none.cmd_corpus(""))[0],
        "No named corpora configured. Use --corpus-dir NAME=DIR or --corpus-urls NAME=URL."
    );
}

#[test]
fn one_corpus_is_shown() {
    let mut c = Corpora::new(vec![dir_entry("papers")]);
    assert_eq!(said(c.cmd_corpus("papers")), vec!["Corpus 'papers' (dir) is on"]);
    assert_eq!(
        said(c.cmd_corpus("books")),
        vec!["Unknown corpus 'books'. Run /corpus to list corpora."]
    );
    assert_eq!(
        said(c.cmd_corpus("papers maybe")),
        vec!["Usage: /corpus <name> on|off (got 'maybe')"]
    );
}

#[test]
fn dynamic_routing_is_switched() {
    let mut c = Corpora::new(vec![url_entry("arxiv")]);
    assert!(c.dynamic);
    assert_eq!(
        said(c.cmd_corpus("dyn off")),
        vec!["Dynamic routing is off — web downloads go to the main folder."]
    );
    assert!(!c.dynamic);
    assert!(matches!(c.choose_web_route(), WebRoute::Folder));
    assert!(said(c.cmd_corpus("dyn"))[0].starts_with("Dynamic routing (dyn) is off: "));
    assert_eq!(said(c.cmd_corpus("dyn up")), vec!["Usage: /corpus dyn on|off (got 'up')"]);
    said(c.cmd_corpus("dyn on"));
    assert!(c.dynamic);
}

#[test]
fn corpora_are_switched_off_and_on_again() {
    let mut c = Corpora::new(vec![dir_entry("papers")]);
    match c.cmd_corpus("papers off") {
        CorpusStep::Remove { name } => assert_eq!(name, "papers"),
        other => panic!("unexpected {other:?}"),
    }
    assert!(!c.entries[0].active);
    assert_eq!(said(c.cmd_corpus("papers off")), vec!["Corpus 'papers' is already off."]);
    match c.cmd_corpus("papers on") {
        CorpusStep::Sync { index, notice } => {
            assert_eq!(index, 0);
            assert_eq!(notice, "Indexing corpus 'papers' (dir)...");
        }
        other => panic!("unexpected {other:?}"),
    }
    assert!(!c.entries[0].active);
    assert_eq!(
        c.corpus_synced(0, 3, 17),
        "Corpus 'papers' is on (3 documents indexed; store: 17 chunks)."
    );
    assert!(c.entries[0].active);
    match c.cmd_corpus("papers on") {
        CorpusStep::Sync { notice, .. } => {
            assert_eq!(notice, "Corpus 'papers' is already on — syncing for changes.")
        }
        other => panic!("unexpected {other:?}"),
    }
}

#[test]
fn unknown_corpora_cannot_be_switched() {
    let mut c = Corpora::new(vec![dir_entry("papers")]);
    for args in ["x on", "x off"] {
        match c.cmd_corpus(args) {
            CorpusStep::Fail(m) => {
                assert_eq!(m, "Unknown corpus 'x'. Run /corpus to list corpora.")
            }
            other => panic!("unexpected {other:?}"),
        }
    }
}

#[test]
fn active_corpora_are_indexed() {
    let mut c = Corpora::new(vec![dir_entry("a"), url_entry("b"), dir_entry("c")]);
    c.entries[1].active = false;
    assert_eq!(c.active(), vec![0, 2]);
}

#[test]
fn addresses_join_the_url_corpus() {
    let mut c = Corpora::new(vec![dir_entry("papers"), url_entry("arxiv")]);
    match c.ingest_web_url("https://a.org/x.pdf") {
        IngestStep::SyncUrls { index, name } => {
            assert_eq!(index, 1);
            assert_eq!(name, "arxiv");
        }
        other => panic!("unexpected {other:?}"),
    }
    assert_eq!(urls_of(&c.entries[1]), vec!["https://a.org/x.pdf"]);
    assert_eq!(
        added_summary("https://a.org/x.pdf", "arxiv", 1),
        "Added 'https://a.org/x.pdf' to URL corpus 'arxiv' (1 documents indexed)."
    );
}

#[test]
fn documents_are_saved_into_the_directory_corpus() {
    let mut c = Corpora::new(vec![dir_entry("papers")]);
    match c.ingest_web_url("https://a.org/x.pdf") {
        IngestStep::SaveInto { index, name, folder } => {
            assert_eq!((index, name.as_str(), folder.as_str()), (0, "papers", "/tmp"));
        }
        other => panic!("unexpected {other:?}"),
    }
    assert_eq!(
        saved_summary("x.pdf", "papers", 2),
        "Saved 'x.pdf' into dir corpus 'papers' (2 documents indexed)."
    );
}

#[test]
fn documents_go_to_the_main_folder_without_active_corpora() {
    let mut c = Corpora::new(vec![dir_entry("papers")]);
    c.entries[0].active = false;
    match c.ingest_web_url("u") {
        IngestStep::MainFolder { note } => assert_eq!(
            note.as_deref(),
            Some("Note: no active named corpora — adding to the main folder.")
        ),
        other => panic!("unexpected {other:?}"),
    }
    let mut none = Corpora::new(vec![]);
    assert!(matches!(none.ingest_web_url("u"), IngestStep::MainFolder { note: None }));
    let mut off = Corpora::new(vec![dir_entry("papers")]);
    off.dynamic = false;
    assert!(matches!(off.ingest_web_url("u"), IngestStep::MainFolder { note: None }));
}

#[test]
fn clashing_names_fail_the_ingestion() {
    let mut c = Corpora::new(vec![dir_entry("x"), url_entry("x")]);
    match c.ingest_web_url("u") {
        IngestStep::Fail(m) => {
            assert_eq!(m, "internal: web route chose a URL corpus, got directory 'x'")
        }
        other => panic!("unexpected {other:?}"),
    }
    let mut first = url_entry("x");
    first.active = false;
    let mut c = Corpora::new(vec![first, dir_entry("x")]);
    match c.ingest_web_url("u") {
        IngestStep::Fail(m) => {
            assert_eq!(m, "internal: web route chose a directory corpus, got URLs 'x'")
        }
        other => panic!("unexpected {other:?}"),
    }
}

#[test]
fn removal_is_reported() {
    assert_eq!(
        removed_notice("papers"),
        "Corpus 'papers' is off; its chunks were removed from the store."
    );
}
