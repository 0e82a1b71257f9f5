use ragrig_cli::backends::{check_chunk_sizes, ChatSpec, EmbedSpec};
use ragrig_cli::chat::{
    cmd_chat, context_notice, prompt_budget, rebuild_chat_with_param, rebuilt, swap, ChatStatus,
    ChatStep,
};
use ragrig_cli::embed::{cmd_chunker, cmd_embed, ChunkerStep, EmbedStatus, EmbedStep};
use ragrig_cli::search::{
    build_default_ranker, cmd_search, llm_ranker, show_similar, BaseRanker, RankPlan, SearchStatus,
    SearchStep, SimilarChunk,
};

fn chat_status() -> ChatStatus {
    ChatStatus {
        backend: "Ollama".into(),
        model: "qwen3.5:9b".into(),
        context_tokens: 4096,
    }
}

fn search_status(ranker: Option<&str>) -> SearchStatus {
    SearchStatus {
        top_k: 50,
        threshold: "0.040".into(),
        ranker: ranker.map(String::from),
        memory_model: "qwen2.5:1.5b".into(),
    }
}

fn embed_status() -> EmbedStatus {
    EmbedStatus {
        backend: "Ollama".into(),
        model: "nomic-embed-text".into(),
        top_k: 50,
        threshold: "0.04".into(),
        threshold_rounded: "0.040".into(),
    }
}

fn chat_said(step: ChatStep) -> Vec<String> {
    match step {
        ChatStep::Say(lines) => lines,
        other => panic!("unexpected {other:?}"),
    }
}

fn search_said(step: SearchStep) -> Vec<String> {
    match step {
        SearchStep::Say(lines) => lines,
        other => panic!("unexpected {other:?}"),
    }
}

#[test]
fn chat_shows_its_engine() {
    let lines = chat_said(cmd_chat("", &chat_status()));
    assert_eq!(lines[0], "Chat: Ollama (qwen3.5:9b) — context window: 4096 tokens");
    assert_eq!(lines[2], "  backends: ollama, deepseek");
}

#[test]
fn chat_parameters_are_read() {
    let s = chat_status();
    assert!(matches!(cmd_chat("context 131072", &s), ChatStep::SetContext(131072)));
    assert_eq!(
        chat_said(cmd_chat("context 0", &s)),
        vec!["Usage: /chat context <tokens>  (current: 4096)"]
    );
    assert!(matches!(cmd_chat("max_tokens +2048", &s), ChatStep::MaxTokens(2048)));
    assert_eq!(chat_said(cmd_chat("max_tokens x", &s)), vec!["Usage: /chat max_tokens <N>"]);
    assert!(matches!(
        cmd_chat("seed 18446744073709551615", &s),
        ChatStep::Seed(18446744073709551615)
    ));
    assert_eq!(
        chat_said(cmd_chat("seed 18446744073709551616", &s)),
        vec!["Usage: /chat seed <N>"]
    );
    assert!(matches!(cmd_chat("seed 0", &s), ChatStep::Seed(0)));
    match cmd_chat("temperature 0.1", &s) {
        ChatStep::Temperature { value, usage } => {
            assert_eq!(value.as_deref(), Some("0.1"));
            assert_eq!(usage, "Usage: /chat temperature <F>  (0.0 = deterministic)");
        }
        other => panic!("unexpected {other:?}"),
    }
    match cmd_chat("top_p", &s) {
        ChatStep::TopP { value, usage } => {
            assert_eq!(value, None);
            assert_eq!(usage, "Usage: /chat top_p <F>  (0.0–1.0)");
        }
        other => panic!("unexpected {other:?}"),
    }
}

#[test]
fn chat_engines_are_swapped() {
    let s = chat_status();
    match cmd_chat("OLLAMA", &s) {
        ChatStep::Swap(ChatSpec::Ollama { model }) => assert_eq!(model, "qwen3.5:9b"),
        other => panic!("unexpected {other:?}"),
    }
    match cmd_chat("DeepSeek deepseek-v4-pro sk-1", &s) {
        ChatStep::Swap(ChatSpec::DeepSeek { model, api_key }) => {
            assert_eq!(model, "deepseek-v4-pro");
            assert_eq!(api_key.as_deref(), Some("sk-1"));
        }
        other => panic!("unexpected {other:?}"),
    }
    match cmd_chat("deepseek", &s) {
        ChatStep::Swap(ChatSpec::DeepSeek { model, api_key }) => {
            assert_eq!(model, "deepseek-chat");
            assert_eq!(api_key, None);
        }
        other => panic!("unexpected {other:?}"),
    }
    match cmd_chat("Claptrap", &s) {
        ChatStep::Refused(m) => assert_eq!(
            m,
            "Chat agent spec parse error: Unknown chat backend: 'claptrap'. Available: ollama, deepseek"
        ),
        other => panic!("unexpected {other:?}"),
    }
    assert!(matches!(swap(Err("no".into())), ChatStep::Refused(m) if m == "Chat agent spec parse error: no"));
}

#[test]
fn chat_engines_are_rebuilt() {
    match rebuild_chat_with_param("Ollama", "m") {
        Ok(ChatSpec::Ollama { model }) => assert_eq!(model, "m"),
        other => panic!("unexpected {other:?}"),
    }
    assert_eq!(
        rebuild_chat_with_param("Zed", "m").unwrap_err(),
        "Cannot rebuild unknown backend: Unknown chat backend: 'zed'. Available: ollama, deepseek"
    );
}

#[test]
fn rebuilding_passes_refusals_on() {
    assert_eq!(rebuilt(Err("x".into())).unwrap_err(), "Cannot rebuild unknown backend: x");
    assert!(matches!(
        rebuilt(Ok(ChatSpec::Ollama { model: "m".into() })),
        Ok(ChatSpec::Ollama { model }) if model == "m"
    ));
}

#[test]
fn prompt_budget_is_three_chars_per_spare_token() {
    assert_eq!(prompt_budget(4096), 9216);
    assert_eq!(prompt_budget(1024), 0);
    assert_eq!(prompt_budget(10), 0);
    assert_eq!(prompt_budget(usize::MAX), usize::MAX);
    assert!(prompt_budget(5000) >= prompt_budget(4096));
    assert_eq!(
        context_notice(4096),
        "Context window set to 4096 tokens (prompt budget ~9216 chars)."
    );
}

#[test]
fn search_shows_its_parameters() {
    assert_eq!(
        search_said(cmd_search("", &search_status(Some("RRFFusion")))),
        vec![
            "Vector search parameters:",
            "  top-k:     50  (change: /search topk <N>)",
            "  threshold: 0.040  (change: /search threshold <F>)",
            "  ranker:    RRFFusion  (change: /search rank <name> [key value]*)",
            "  /search by <file> — use a document as the search query",
        ]
    );
    assert_eq!(
        search_said(cmd_search("", &search_status(None)))[3],
        "  ranker:    (opaque — store backend handles ranking)"
    );
}

#[test]
fn search_parameters_are_read() {
    let s = search_status(None);
    assert!(matches!(cmd_search("topk 10", &s), SearchStep::SetTopK(10)));
    assert_eq!(
        search_said(cmd_search("topk 0", &s)),
        vec!["Usage: /search topk <N>  (current: 50)"]
    );
    match cmd_search("threshold 0.08", &s) {
        SearchStep::SetThreshold { value, usage } => {
            assert_eq!(value.as_deref(), Some("0.08"));
            assert_eq!(usage, "Usage: /search threshold <F>  (current: 0.040)");
        }
        other => panic!("unexpected {other:?}"),
    }
    assert!(matches!(cmd_search("by a.pdf", &s), SearchStep::ByDocument(f) if f == "a.pdf"));
    assert_eq!(search_said(cmd_search("by", &s)).len(), 2);
    assert_eq!(
        search_said(cmd_search("foo", &s)),
        vec!["Unknown subcommand: 'foo'. Use /search, /search topk <N>, /search threshold <F>, /search rank <name>, or /search by <file>."]
    );
}

#[test]
fn rankers_are_chosen() {
    let s = search_status(Some("Cosine"));
    assert!(matches!(
        cmd_search("rank Cosine", &s),
        SearchStep::Rank(RankPlan::Cosine)
    ));
    assert!(matches!(
        cmd_search("rank bm25 x", &s),
        SearchStep::Rank(RankPlan::Bm25)
    ));
    match cmd_search("rank Weighted alpha 0.3 alpha 0.7 alpha", &s) {
        SearchStep::Rank(RankPlan::Weighted { alpha }) => assert_eq!(alpha.as_deref(), Some("0.7")),
        other => panic!("unexpected {other:?}"),
    }
    match cmd_search("rank RRFFusion", &s) {
        SearchStep::Rank(RankPlan::RrfFusion { k }) => assert_eq!(k, None),
        other => panic!("unexpected {other:?}"),
    }
    match cmd_search("rank MMR lambda 0.7 inner BM25", &s) {
        SearchStep::Rank(RankPlan::Mmr { lambda, inner }) => {
            assert_eq!(lambda.as_deref(), Some("0.7"));
            assert_eq!(inner, BaseRanker::Bm25);
        }
        other => panic!("unexpected {other:?}"),
    }
    match cmd_search("rank mmr", &s) {
        SearchStep::Rank(RankPlan::Mmr { inner, .. }) => assert_eq!(inner, BaseRanker::Cosine),
        other => panic!("unexpected {other:?}"),
    }
    match cmd_search("rank mmr", &search_status(Some("MMR"))) {
        SearchStep::Rank(RankPlan::Mmr { inner, .. }) => assert_eq!(inner, BaseRanker::RrfFusion),
        other => panic!("unexpected {other:?}"),
    }
    assert_eq!(
        search_said(cmd_search("rank mmr inner LLM", &s)),
        vec!["Unknown inner ranker: 'LLM'"]
    );
    assert_eq!(
        search_said(cmd_search("rank Foo", &s)),
        vec!["Unknown ranker: 'Foo'. Available: RRFFusion, Cosine, BM25, Weighted, MMR, LLM"]
    );
    assert_eq!(search_said(cmd_search("rank", &s))[0], "Current ranker: Cosine");
    assert_eq!(
        search_said(cmd_search("rank", &search_status(None))),
        vec!["This store backend handles ranking internally."]
    );
    assert_eq!(build_default_ranker("weighted"), Some(BaseRanker::Weighted));
    assert_eq!(build_default_ranker("WEIGHTED"), None);
}

#[test]
fn language_models_rerank() {
    let s = search_status(Some("Cosine"));
    match cmd_search("rank LLM inner Cosine model qwen2.5:0.5b", &s) {
        SearchStep::Rank(RankPlan::Llm { generator, inner }) => {
            assert_eq!(inner, BaseRanker::Cosine);
            assert!(matches!(generator, ChatSpec::Ollama { model } if model == "qwen2.5:0.5b"));
        }
        other => panic!("unexpected {other:?}"),
    }
    match cmd_search("rank llm provider DEEPSEEK key k1", &s) {
        SearchStep::Rank(RankPlan::Llm { generator, inner }) => {
            assert_eq!(inner, BaseRanker::RrfFusion);
            match generator {
                ChatSpec::DeepSeek { model, api_key } => {
                    assert_eq!(model, "qwen2.5:1.5b");
                    assert_eq!(api_key.as_deref(), Some("k1"));
                }
                other => panic!("unexpected {other:?}"),
            }
        }
        other => panic!("unexpected {other:?}"),
    }
    assert_eq!(
        search_said(cmd_search("rank llm provider foo", &s)),
        vec!["Could not build LLM reranker generator: Unknown chat backend: 'foo'. Available: ollama, deepseek"]
    );
    assert_eq!(
        search_said(llm_ranker(Err("x".into()), BaseRanker::Cosine)),
        vec!["Could not build LLM reranker generator: x"]
    );
}

#[test]
fn similar_chunks_are_listed() {
    assert_eq!(show_similar(&vec![], "a.pdf"), vec!["No similar documents found."]);
    let found = vec![SimilarChunk {
        score: "0.0164".into(),
        document: "b.pdf".into(),
        text: format!("  {}  ", "x".repeat(120)),
    }];
    assert_eq!(
        show_similar(&found, "a.pdf"),
        vec![
            "Found 1 similar chunks (from document 'a.pdf'):".to_string(),
            format!("  [ 1] 0.0164  b.pdf — {}", "x".repeat(100)),
            "\nUse /refs to extract references from these results.".to_string(),
        ]
    );
}

#[test]
fn embedders_are_swapped() {
    let s = embed_status();
    match cmd_embed("", &s) {
        EmbedStep::Say(lines) => {
            assert_eq!(lines[0], "Embed: Ollama (nomic-embed-text) — top‑k: 50, threshold: 0.04");
            assert_eq!(lines[3], "  backends: ollama, none");
        }
        other => panic!("unexpected {other:?}"),
    }
    assert!(matches!(cmd_embed("PURGE", &s), EmbedStep::Purge));
    assert!(matches!(cmd_embed("index", &s), EmbedStep::Index));
    assert!(matches!(cmd_embed("topk 7", &s), EmbedStep::SetTopK(7)));
    assert!(matches!(cmd_embed("topk", &s), EmbedStep::Say(l) if l[0] == "Usage: /embed topk <N>  (current: 50)"));
    assert!(matches!(
        cmd_embed("threshold 1", &s),
        EmbedStep::SetThreshold { value: Some(v), usage }
            if v == "1" && usage == "Usage: /embed threshold <F>  (current: 0.040)"
    ));
    assert!(matches!(
        cmd_embed("Ollama", &s),
        EmbedStep::Swap(EmbedSpec::Ollama { model }) if model == "nomic-embed-text:latest"
    ));
    assert!(matches!(cmd_embed("None", &s), EmbedStep::Swap(EmbedSpec::Disabled)));
    assert!(matches!(
        cmd_embed("fastembed", &s),
        EmbedStep::Refused(m)
            if m == "Embed spec parse error: Unknown embedding backend: 'fastembed'. Available: ollama, none"
    ));
}

#[test]
fn chunkers_are_chosen() {
    match cmd_chunker("", "markdown") {
        ChunkerStep::Say(lines) => assert_eq!(
            lines,
            vec![
                "Chunker: markdown",
                "Available: markdown, token, chunkedrs-recursive, chunkedrs-markdown, chunkedrs-code, chunkedrs-html",
                "Usage: /chunker <name>",
            ]
        ),
        other => panic!("unexpected {other:?}"),
    }
    assert!(matches!(
        cmd_chunker(" ChunkedRS-Markdown ", "markdown"),
        ChunkerStep::Swap { index: 3, name } if name == "chunkedrs-markdown"
    ));
    assert!(matches!(
        cmd_chunker("foo", "markdown"),
        ChunkerStep::Say(l) if l[0].starts_with("Unknown chunker: 'foo'. Available: markdown, token")
    ));
}

#[test]
fn chunk_sizes_are_checked() {
    assert_eq!(check_chunk_sizes(1024, 128), Ok(()));
    assert_eq!(
        check_chunk_sizes(0, 0).unwrap_err(),
        "ChunkConfig::size must be > 0, got 0"
    );
    assert_eq!(
        check_chunk_sizes(128, 128).unwrap_err(),
        "ChunkConfig::overlap (128) must be less than size (128)"
    );
}

#[test]
fn indexing_happens_on_request_only() {
    let s = embed_status();
    for args in ["", "ollama", "none", "topk 3", "threshold 1", "indexes", "purged"] {
        assert!(!matches!(cmd_embed(args, &s), EmbedStep::Index | EmbedStep::Purge));
    }
}
