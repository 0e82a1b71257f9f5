use ragrig_cli::papers::{
    cmd_download, cmd_get_papers, cmd_search_arxiv, cmd_search_scholar, show_arxiv_results,
    show_scholar_results, url_extension, DownloadStep, GetAction, GetRun, GetStep, Paper,
    PaperSearchStep,
};
use ragrig_cli::parsers::{
    configured_pdf_parser, distinct_formats, filtered_parsers, guard_parser, guard_verdict,
    keeps_parser, parsers_for, pdf_backend_name, pdf_backend_names, pipeline_warning,
    primary_name_for, EpubParserBackend, ParserState, ParserStep, PdfParserBackend, Pipeline,
};
use ragrig_cli::progress::{
    index_report, is_tabular, totals, EmbedProgress, FileStat, ProgressEvent,
};
use ragrig_cli::ranges::parse_number_range;

fn paper(title: &str, authors: &[&str], year: Option<i32>) -> Paper {
    Paper {
        title: title.into(),
        authors: authors.iter().map(|a| a.to_string()).collect(),
        year,
        arxiv_id: None,
        doi: None,
        pdf_url: None,
    }
}

fn strings(list: &[&str]) -> Vec<String> {
    list.iter().map(|s| s.to_string()).collect()
}

#[test]
fn ranges_become_indices() {
    assert_eq!(parse_number_range("1,2,3-4,8"), Ok(vec![0, 1, 2, 3, 7]));
    assert_eq!(parse_number_range(" 2 - 3 ,, +5"), Ok(vec![1, 2, 4]));
    assert_eq!(parse_number_range(""), Ok(vec![]));
}

#[test]
fn bad_ranges_are_refused() {
    assert_eq!(parse_number_range("x"), Err("invalid number: x".into()));
    assert_eq!(parse_number_range("a-2"), Err("invalid number: a".into()));
    assert_eq!(parse_number_range("2-b "), Err("invalid number: b".into()));
    assert_eq!(parse_number_range("0"), Err("Indices start at 1".into()));
    assert_eq!(parse_number_range("1-0"), Err("Indices start at 1".into()));
    assert_eq!(parse_number_range("4-3"), Err("invalid range: 4-3".into()));
    assert_eq!(parse_number_range("1,-3,x"), Err("invalid number: ".into()));
    assert_eq!(
        parse_number_range("18446744073709551616"),
        Err("invalid number: 18446744073709551616".into())
    );
}

#[test]
fn commas_join_selections() {
    let a = parse_number_range("1-3").unwrap();
    let b = parse_number_range("7,2").unwrap();
    let both = parse_number_range("1-3,7,2").unwrap();
    assert_eq!(both, [a, b].concat());
}

#[test]
fn listed_numbers_select_their_papers() {
    let papers: Vec<Paper> = (0..12).map(|i| paper(&format!("t{i}"), &["A"], None)).collect();
    let lines = show_scholar_results(&papers);
    for i in 0..12 {
        let shown = lines[i + 1].trim_start_matches("  [").trim_start();
        let digits: String = shown.chars().take_while(|c| c.is_ascii_digit()).collect();
        assert_eq!(parse_number_range(&digits), Ok(vec![i]));
    }
}

#[test]
fn papers_are_listed() {
    let mut a = paper("One", &["Smith", "Jones"], Some(2023));
    a.arxiv_id = Some("2301.12345".into());
    let mut b = paper("Two", &["A", "B", "C", "D"], Some(-44));
    b.pdf_url = Some("https://x.org/two.pdf".into());
    b.arxiv_id = Some("1".into());
    let c = paper("Three", &[], None);
    assert_eq!(
        show_arxiv_results(&vec![a, b, c]),
        vec![
            "\nResults (arXiv):",
            "  [ 1] One — Smith, Jones (2023)",
            "       /download https://arxiv.org/pdf/2301.12345.pdf",
            "  [ 2] Two — A, et al. (-44)",
            "       /download https://x.org/two.pdf",
            "  [ 3] Three — ",
            "\nUse /download <url> to ingest any paper.",
        ]
    );
    assert_eq!(show_scholar_results(&vec![]), vec!["No papers found."]);
    assert_eq!(show_scholar_results(&vec![paper("T", &["A"], None)])[0], "\nResults:");
}

#[test]
fn paper_searches_need_a_query() {
    assert!(matches!(cmd_search_scholar(""), PaperSearchStep::Say(l) if l == ["Usage: /scholar <query>"]));
    assert!(matches!(cmd_search_arxiv(""), PaperSearchStep::Say(l) if l == ["Usage: /arxiv <query>"]));
    assert!(matches!(cmd_search_scholar("rag"), PaperSearchStep::Search(q) if q == "rag"));
    assert!(matches!(cmd_search_arxiv("rag"), PaperSearchStep::Search(q) if q == "rag"));
}

#[test]
fn get_needs_results_and_a_range() {
    assert!(matches!(
        cmd_get_papers("1", 0),
        GetStep::Say(l) if l == ["No search results available. Run /scholar or /arxiv first."]
    ));
    assert!(matches!(cmd_get_papers("", 3), GetStep::Say(l) if l == ["Usage: /get 1,2,3-4,8"]));
    assert!(matches!(
        cmd_get_papers("x", 3),
        GetStep::Say(l) if l == ["Invalid range: invalid number: x"]
    ));
    assert!(matches!(cmd_get_papers("2,9", 3), GetStep::Fetch(v) if v == [1, 8]));
}

fn pipeline(stored: usize) -> Pipeline {
    Pipeline { parser: "p".into(), chunker: "c".into(), embedder: "e".into(), stored }
}

#[test]
fn papers_need_an_indexed_pipeline() {
    assert_eq!(
        GetRun::begin(vec![0], &pipeline(0)).unwrap_err(),
        "Cannot add papers: no index exists for the current pipeline (parser=p, chunker=c, embedder=e). Run '/embed index' first."
    );
    assert!(GetRun::begin(vec![0], &pipeline(1)).unwrap().is_open());
    assert!(!GetRun::begin(vec![], &pipeline(1)).unwrap().is_open());
    assert_eq!(pipeline(1).guard("x"), Ok(()));
    assert!(pipeline(0).guard("x").unwrap_err().starts_with("Cannot add x: "));
}

#[test]
fn selected_papers_are_fetched_in_turn() {
    let mut a = paper("One", &[], None);
    a.pdf_url = Some("\u{1b}[1mhttps://x.org/1.pdf".into());
    let b = paper("Two", &[], None);
    let papers = vec![a, b];
    let mut run = GetRun::begin(vec![0, 1, 8, 0], &pipeline(3)).unwrap();
    match run.next_action(&papers) {
        GetAction::Fetch { label, url } => {
            assert_eq!(label, "  [ 1] One ... ");
            assert_eq!(url, "https://x.org/1.pdf");
        }
        other => panic!("unexpected {other:?}"),
    }
    assert!(run.is_open());
    run.record(true);
    assert!(matches!(
        run.next_action(&papers),
        GetAction::Say(m) if m == "  [ 2] Two — no download URL available"
    ));
    assert!(matches!(
        run.next_action(&papers),
        GetAction::Say(m) if m == "  Skipping [9]: out of range (max 2)"
    ));
    assert!(matches!(run.next_action(&papers), GetAction::Fetch { .. }));
    run.record(false);
    assert!(!run.is_open());
    assert!(matches!(
        run.next_action(&papers),
        GetAction::Finished(m) if m == "Download complete: 1 added, 3 failed, 0 skipped."
    ));
}

#[test]
fn downloads_are_guarded_by_extension() {
    assert!(matches!(cmd_download(""), DownloadStep::Say(l) if l == ["Usage: /download <url>"]));
    assert!(matches!(
        cmd_download("https://a.org/book.epub?x=1.html"),
        DownloadStep::Fetch { extension } if extension == "epub"
    ));
    assert_eq!(url_extension("https://a.org/paper.tar.gz/"), "gz");
    assert_eq!(url_extension("https://a.org/pdf/2301.12345"), "12345");
    assert_eq!(url_extension("https://a.org/plain/."), "pdf");
    assert_eq!(url_extension("https://a.org/x.html/.."), "pdf");
    assert_eq!(url_extension("https://a.org/.hidden"), "pdf");
    assert_eq!(url_extension("https://a.org/dot."), "");
    assert_eq!(url_extension("?q"), "pdf");
    assert_eq!(url_extension("https://a.org"), "org");
    for url in [
        "https://a.org/paper.tar.gz/",
        "https://a.org/pdf/2301.12345",
        "https://a.org/plain/.",
        "https://a.org/x.html/..",
        "https://a.org/.hidden",
        "https://a.org/dot.",
        "https://a.org/a/./b.md/./",
        "..a",
        ".",
        "",
        "/",
    ] {
        let std = std::path::Path::new(url)
            .extension()
            .and_then(|e| e.to_str())
            .unwrap_or("pdf");
        assert_eq!(url_extension(url), std, "{url}");
    }
}

#[test]
fn selected_parser_is_first_for_pdf() {
    for (backend, name) in [
        (PdfParserBackend::Unpdf, "unpdf"),
        (PdfParserBackend::Sink, "pdfsink"),
        (PdfParserBackend::Extract, "pdf-extract"),
        (PdfParserBackend::Internal, "sloppy-pdf"),
        (PdfParserBackend::Vision, "pdf-extract"),
    ] {
        let parsers = filtered_parsers(backend);
        assert_eq!(primary_name_for(&parsers, "pdf").as_deref(), Some(name));
        for p in &parsers {
            assert!(keeps_parser(backend, p));
        }
    }
}

#[test]
fn other_formats_keep_their_parsers() {
    let parsers = filtered_parsers(PdfParserBackend::Sink);
    let names: Vec<&str> = parsers.iter().map(|p| p.name.as_str()).collect();
    assert_eq!(
        names,
        vec!["pdfsink", "sloppy-pdf", "epub-parser", "html", "docx", "markdown"]
    );
    assert_eq!(primary_name_for(&parsers, "htm").as_deref(), Some("html"));
    assert_eq!(primary_name_for(&parsers, "Qmd").as_deref(), Some("markdown"));
    assert_eq!(primary_name_for(&parsers, "txt"), None);
}

#[test]
fn built_parsers_match_the_registry() {
    let ours = filtered_parsers(PdfParserBackend::Unpdf);
    let theirs: Vec<String> = ragrig::parsers::build_parsers()
        .iter()
        .filter(|p| !p.extensions().contains(&"pdf") || ["unpdf", "sloppy-pdf"].contains(&p.name()))
        .map(|p| p.name().to_string())
        .collect();
    assert_eq!(ours.iter().map(|p| p.name.clone()).collect::<Vec<_>>(), theirs);
}

#[test]
fn parsers_are_swapped() {
    let mut s = ParserState { pdf: PdfParserBackend::Extract, epub: EpubParserBackend::Epub };
    match s.cmd_parser("") {
        ParserStep::Say(l) => assert_eq!(
            l,
            vec![
                "PDF:  Extract",
                "EPUB: Epub",
                "Usage: /parser pdf unpdf|sink|extract|internal",
                "       /parser epub epub",
            ]
        ),
        other => panic!("unexpected {other:?}"),
    }
    assert!(matches!(s.cmd_parser("pdf"), ParserStep::Say(l) if l == ["Usage: /parser pdf <backend>"]));
    assert!(matches!(
        s.cmd_parser("PDF Sink"),
        ParserStep::PdfSwapped { old: PdfParserBackend::Extract, new: PdfParserBackend::Sink }
    ));
    assert_eq!(s.pdf, PdfParserBackend::Sink);
    assert!(matches!(
        s.cmd_parser("pdf Vision"),
        ParserStep::Say(l) if l == ["Unknown PDF parser: vision. Use unpdf, sink, extract, internal."]
    ));
    assert_eq!(s.pdf, PdfParserBackend::Sink);
    assert!(matches!(s.cmd_parser("epub EPUB"), ParserStep::EpubSwapped));
    assert!(matches!(
        s.cmd_parser("epub x"),
        ParserStep::Say(l) if l == ["Unknown EPUB parser: x. The only option is 'epub'."]
    ));
    assert!(matches!(
        s.cmd_parser("DOC x"),
        ParserStep::Say(l) if l == ["Unknown format: doc. Use pdf or epub."]
    ));
    assert!(matches!(s.choose_parser("pdf", "unpdf"), ParserStep::PdfSwapped { .. }));
}

#[test]
fn parser_names_are_known() {
    assert_eq!(pdf_backend_names(), vec!["unpdf", "sink", "extract", "internal"]);
    assert_eq!(pdf_backend_name(PdfParserBackend::Vision), "Vision");
    assert_eq!(configured_pdf_parser("unpdf"), PdfParserBackend::Unpdf);
    assert_eq!(configured_pdf_parser("vision"), PdfParserBackend::Vision);
    assert_eq!(configured_pdf_parser("extract"), PdfParserBackend::Extract);
    assert_eq!(configured_pdf_parser("nonsense"), PdfParserBackend::Extract);
}

#[test]
fn missing_pipelines_are_reported() {
    let formats = distinct_formats(&strings(&["pdf", "md", "pdf", "txt"]));
    assert_eq!(formats, vec!["pdf", "md", "txt"]);
    let names = parsers_for(&filtered_parsers(PdfParserBackend::Unpdf), &formats);
    assert_eq!(names, vec!["unpdf", "markdown", ""]);
    let warning = pipeline_warning(&formats, &names, &vec![0, 5, 0], "token", "Ollama/x");
    assert_eq!(
        warning.as_deref(),
        Some("Warning: no chunks indexed for pdf (unpdf), txt () with chunker=token, embedder=Ollama/x. Run '/embed index' to build the index.")
    );
    assert_eq!(pipeline_warning(&formats, &names, &vec![1, 2, 3], "token", "e"), None);
}

#[test]
fn documents_need_an_indexed_pipeline() {
    let parsers = filtered_parsers(PdfParserBackend::Extract);
    assert_eq!(guard_parser(&parsers, "pdf"), Ok("pdf-extract".to_string()));
    assert_eq!(guard_parser(&parsers, "exe"), Err("No parser registered for .exe files".to_string()));
    assert_eq!(guard_verdict(1, "papers", "p", "c", "e"), Ok(()));
    assert_eq!(
        guard_verdict(0, "papers", "p", "c", "e").unwrap_err(),
        "Cannot add papers: no index exists for the current pipeline (parser=p, chunker=c, embedder=e). Run '/embed index' first."
    );
}

#[test]
fn progress_follows_events() {
    let mut p = EmbedProgress::new();
    let started = ProgressEvent::FileStarted {
        index: 6,
        total: 12,
        corpus: "papers".into(),
        document: "a.pdf".into(),
    };
    assert!(p.can_apply(&started));
    p.apply(&started);
    p.apply(&ProgressEvent::ChunksEmbedded { done: 341 });
    p.apply(&ProgressEvent::Other);
    assert_eq!(
        p.render_embed_progress(17),
        "[#################-------------] 7/12 files | 341 chunks | papers/a.pdf (ESC: cancel)"
    );
    p.apply(&ProgressEvent::FileStored);
    p.apply(&ProgressEvent::FileFailed);
    p.apply(&ProgressEvent::FileFailed);
    assert_eq!((p.done, p.failed), (1, 2));
    assert_eq!(
        p.render_embed_progress(30),
        "[##############################] 7/12 files | 341 chunks | 2 failed | papers/a.pdf (ESC: cancel)"
    );
    p.done = usize::MAX;
    assert!(!p.can_apply(&ProgressEvent::FileStored));
    assert!(p.can_apply(&ProgressEvent::FileFailed));
}

fn stat(name: &str, chunks: usize, ok: bool) -> FileStat {
    FileStat {
        name: name.into(),
        size_kb: 12,
        chunks,
        chars: chunks * 100,
        average: "100".into(),
        ok,
    }
}

#[test]
fn indexing_is_reported() {
    let long = "n".repeat(50);
    let stats = vec![stat("a.pdf", 3, true), stat(&long, 0, false)];
    let t = totals(&stats).unwrap();
    assert_eq!((t.ok, t.chunks, t.chars, t.size_kb), (1, 3, 300, 24));
    assert_eq!(
        index_report(&stats, &t),
        vec![
            "\n2 files processed (1 ok, 1 failed), 3 chunks, 300 chars, 24 KB total.\n".to_string(),
            format!("{:<44} {:>6} {:>7} {:>8} {:>6}", "File", "KB", "Chunks", "Chars", "Avg/Ch"),
            "─".repeat(78),
            format!("{:<44} {:>6} {:>7} {:>8} {:>6}", "a.pdf", 12, 3, 300, "100"),
            format!("{:<44} {:>6} {:>7} {:>8} {:>6}  FAIL", format!("{}…", &long[..41]), 12, "—", "—", "—"),
        ]
    );
    let none: Vec<FileStat> = vec![];
    let t = totals(&none).unwrap();
    assert_eq!(
        index_report(&none, &t),
        vec!["\n0 files processed (0 ok, 0 failed), 0 chunks, 0 chars, 0 KB total.\n"]
    );
}

#[test]
fn sums_must_fit() {
    let mut a = stat("a", 1, true);
    a.chars = usize::MAX;
    assert!(totals(&vec![a, stat("b", 1, true)]).is_none());
}

#[test]
fn long_names_are_cut_between_characters() {
    assert!(is_tabular("short"));
    assert!(is_tabular(&"x".repeat(60)));
    assert!(!is_tabular(&format!("{}é{}", "x".repeat(40), "y".repeat(20))));
    assert!(is_tabular(&format!("{}é", "x".repeat(40))));
}

#[test]
fn query_strings_do_not_change_the_extension() {
    for url in ["https://a.org/b.html", "https://a.org/b", "x.tar.gz?y"] {
        assert_eq!(url_extension(&format!("{url}?download=c.exe")), url_extension(url));
    }
}

#[test]
fn bar_has_one_width() {
    let p = EmbedProgress::new();
    for filled in 0..=30 {
        let line = p.render_embed_progress(filled);
        assert_eq!(line.find(']'), Some(31));
    }
}
