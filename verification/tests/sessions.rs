use ragrig_cli::attach::{AttachStep, Attachments};
use ragrig_cli::backends::{ChatSpec, EmbedSpec};
use ragrig_cli::chat::{ChatParams, ChatStatus, ChatStep};
use ragrig_cli::command::Command;
use ragrig_cli::config::{
    chat_provider, context_size_mode, demo_corpora, embedding_provider, has_explicit_corpora,
    resolve_workspace_and_corpora, AgentState, ChatChoice, EmbeddingProvider, Provider, Settings,
};
use ragrig_cli::corpora::{Corpora, CorpusStep, IngestStep};
use ragrig_cli::corpus::parse_corpora;
use ragrig_cli::embed::{ChunkerStep, EmbedStatus, EmbedStep};
use ragrig_cli::history::{cmd_hist, list_sessions, HistStep, SavedSession};
use ragrig_cli::indexing::{IndexAction, IndexEvent, IndexRun};
use ragrig_cli::log::{allows, Level, LogFilter, LogStep};
use ragrig_cli::memory::{engine, MemoryState, MemoryStep, Rewriter};
use ragrig_cli::papers::{DownloadStep, GetAction, GetRun, GetStep, Paper, PaperSearchStep};
use ragrig_cli::parsers::{EpubParserBackend, ParserStep, PdfParserBackend, Pipeline};
use ragrig_cli::profile::{cmd_profile, list_profiles, shows_running_state, ProfileStep};
use ragrig_cli::progress::FileStat;
use ragrig_cli::prompt::{cmd_prompt, PromptStep, Prompts};
use ragrig_cli::purge::{PurgeAction, PurgeEvent, PurgeRun};
use ragrig_cli::query::{
    answer_footer, cancelled_line, cmd_extract_refs, fitting_window, AnswerInfo, ContextSizeMode,
    FoundChunk, QueryAction, QueryEvent, QueryRun, RefsStep,
};
use ragrig_cli::search::{SearchStatus, SearchStep};
use ragrig_cli::session::{AddStep, Session, Status, Step};
use ragrig_cli::startup::{Refusal, StartAction, StartConfig, StartEvent, Startup};

fn no_params() -> ChatParams {
    ChatParams { max_tokens: None, seed: None }
}

fn strings(list: &[&str]) -> Vec<String> {
    list.iter().map(|s| s.to_string()).collect()
}

#[test]
fn resolve_folder_is_workspace_plus_corpus() {
    let (ws, dirs) = resolve_workspace_and_corpora(Some("/data/docs"), None, vec![], &[]);
    assert_eq!(ws, "/data/docs");
    assert_eq!(dirs, vec!["folder=/data/docs".to_string()]);
}

#[test]
fn resolve_workspace_alone_has_no_implicit_corpus() {
    let (ws, dirs) = resolve_workspace_and_corpora(None, Some("/data/ws"), vec![], &[]);
    assert_eq!(ws, "/data/ws");
    assert!(dirs.is_empty());
}

#[test]
fn resolve_bare_invocation_defaults_to_cwd() {
    let (ws, dirs) = resolve_workspace_and_corpora(None, None, vec![], &[]);
    assert_eq!(ws, ".");
    assert_eq!(dirs, vec!["folder=.".to_string()]);
}

#[test]
fn resolve_explicit_corpora_suppress_implicit_dir() {
    let (ws, dirs) = resolve_workspace_and_corpora(
        None,
        None,
        vec![],
        &["arxiv=https://arxiv.org/pdf/a.pdf".to_string()],
    );
    assert_eq!(ws, ".");
    assert!(dirs.is_empty());
}

#[test]
fn folder_is_short_for_workspace_and_corpus() {
    let a = resolve_workspace_and_corpora(Some("x"), None, strings(&["a=1"]), &[]);
    let b = resolve_workspace_and_corpora(None, Some("x"), strings(&["a=1", "folder=x"]), &[]);
    assert_eq!(a, b);
    let bare = resolve_workspace_and_corpora(None, None, vec![], &[]);
    assert_eq!(bare, resolve_workspace_and_corpora(Some("."), None, vec![], &[]));
}

#[test]
fn configuration_names_are_read() {
    assert_eq!(chat_provider("deepseek"), Provider::Deepseek);
    assert_eq!(chat_provider("Deepseek"), Provider::Ollama);
    assert_eq!(embedding_provider("anything"), EmbeddingProvider::Ollama);
    assert_eq!(context_size_mode("forced"), ContextSizeMode::Forced);
    assert_eq!(context_size_mode("auto"), ContextSizeMode::Auto);
    assert_eq!(context_size_mode("x"), ContextSizeMode::Auto);
}

fn start_config() -> StartConfig {
    StartConfig {
        provider: Provider::Ollama,
        model: "m".into(),
        deepseek_model: "d".into(),
        deepseek_api_key: Some("k".into()),
        embedding_provider: EmbeddingProvider::Ollama,
        embed_model: "e".into(),
        memory_model: "mm".into(),
        pdf_parser: PdfParserBackend::Sink,
        chunk_size: 1024,
        chunk_overlap: 128,
        corpus_dirs: strings(&["a=/a"]),
        corpus_urls: strings(&["b=u"]),
        mode: ContextSizeMode::Forced,
        params: ChatParams { max_tokens: Some(9), seed: Some(42) },
    }
}

#[test]
fn sessions_start_in_order() {
    let (mut s, first) = Startup::begin(start_config());
    assert!(matches!(first, StartAction::BuildChat {
        spec: ChatSpec::Ollama { model },
        params: ChatParams { max_tokens: Some(9), seed: Some(42) },
    } if model == "m"));
    assert!(matches!(
        s.next_action(StartEvent::Done),
        StartAction::BuildEmbedder(EmbedSpec::Ollama { model }) if model == "e"
    ));
    assert!(matches!(
        s.next_action(StartEvent::Done),
        StartAction::OpenStore { parsers } if parsers[0].name == "pdfsink"
    ));
    assert!(matches!(
        s.next_action(StartEvent::Done),
        StartAction::BuildMemory(ChatSpec::Ollama { model }) if model == "mm"
    ));
    assert!(matches!(s.next_action(StartEvent::Done), StartAction::BuildAgent));
    assert!(matches!(s.next_action(StartEvent::Done), StartAction::Index(0)));
    assert!(matches!(s.next_action(StartEvent::Done), StartAction::Index(1)));
    assert!(matches!(s.next_action(StartEvent::Done), StartAction::CountRows));
    assert!(matches!(
        s.next_action(StartEvent::Rows(42)),
        StartAction::Ready { notice } if notice == "Vector store initialized with 42 total entries."
    ));
    assert_eq!(s.entries().len(), 2);
    assert!(s.is_ready());
    let rewriter = Rewriter { backend: "Ollama".into(), model: "mm".into() };
    let session = s.into_session("info".into(), Some(rewriter), true);
    assert!(session.corpora.dynamic);
    assert_eq!(session.corpora.entries[1].name, "b");
    assert!(session.attachments.docs.is_empty());
    assert_eq!(session.parsers.pdf, PdfParserBackend::Sink);
    assert_eq!(session.parsers.epub, EpubParserBackend::Epub);
    assert_eq!(session.memory.rewriter.unwrap().model, "mm");
    assert!(session.memory.use_transcript);
    assert!(session.memory.diffusion.is_none());
    assert_eq!(session.memory.turns, 0);
    assert_eq!(session.log.filter, "info");
    assert_eq!(session.mode, ContextSizeMode::Forced);
    assert_eq!(session.params, ChatParams { max_tokens: Some(9), seed: Some(42) });
    assert!(session.papers.is_empty());
    assert!(session.found.is_empty());
}

#[test]
fn sessions_start_with_deepseek() {
    let mut c = start_config();
    c.provider = Provider::Deepseek;
    let (_, first) = Startup::begin(c);
    assert!(matches!(
        first,
        StartAction::BuildChat { spec: ChatSpec::DeepSeek { model, api_key: Some(k) }, .. }
            if model == "d" && k == "k"
    ));
}

fn started(config: StartConfig, steps: usize) -> (Startup, StartAction) {
    let (mut s, mut action) = Startup::begin(config);
    for _ in 0..steps {
        action = s.next_action(StartEvent::Done);
    }
    (s, action)
}

#[test]
fn bad_configurations_do_not_start() {
    let mut c = start_config();
    c.chunk_size = 0;
    assert!(matches!(
        started(c, 3).1,
        StartAction::Refuse(Refusal::Config(m)) if m == "ChunkConfig::size must be > 0, got 0"
    ));
    let mut c = start_config();
    c.corpus_dirs = strings(&["x"]);
    assert!(matches!(
        started(c, 5).1,
        StartAction::Refuse(Refusal::Config(m))
            if m == "Invalid --corpus-dir 'x': expected NAME=/path/to/dir"
    ));
    let mut c = start_config();
    c.corpus_dirs = vec![];
    c.corpus_urls = vec![];
    assert!(matches!(started(c, 5).1, StartAction::CountRows));
}

#[test]
fn sessions_need_documents() {
    let (mut s, _) = started(start_config(), 7);
    assert!(matches!(
        s.next_action(StartEvent::Rows(0)),
        StartAction::Refuse(Refusal::NoDocuments)
    ));
}

#[test]
fn failures_and_cancellation_stop_the_start() {
    let (mut s, _) = started(start_config(), 5);
    assert!(matches!(
        s.next_action(StartEvent::Cancelled),
        StartAction::Refuse(Refusal::Cancelled(m)) if m == "Indexing cancelled — exiting."
    ));
    let (mut s, _) = started(start_config(), 2);
    assert!(matches!(
        s.next_action(StartEvent::Failed),
        StartAction::Refuse(Refusal::Outside)
    ));
    assert!(matches!(
        s.next_action(StartEvent::Done),
        StartAction::Refuse(Refusal::Outside)
    ));
}

#[test]
fn demonstration_keeps_named_corpora() {
    assert!(!has_explicit_corpora(&[], &[]));
    assert!(has_explicit_corpora(&[], &strings(&["u=x"])));
    assert_eq!(demo_corpora(false, "/b", strings(&["folder=."])), vec!["book=/b"]);
    assert_eq!(demo_corpora(true, "/b", strings(&["a=1"])), vec!["book=/b", "a=1"]);
}

fn settings() -> Settings {
    Settings {
        workspace: "/ws".into(),
        chat: ChatChoice {
            provider: Provider::Ollama,
            model: "c".into(),
            deepseek_model: "d".into(),
        },
        params: ChatParams { max_tokens: Some(5), seed: None },
        context_tokens: 1,
        embed_model: "e".into(),
        top_k: 2,
        memory_model: "m".into(),
        pdf_parser: PdfParserBackend::Extract,
    }
}

#[test]
fn demonstration_pins_a_small_model() {
    let mut s = settings();
    s.apply_demo_setup();
    assert_eq!(s.chat.model, "llama3.2:3b");
    assert_eq!((s.chat.provider, s.chat.deepseek_model.as_str()), (Provider::Ollama, "d"));
    assert_eq!(s.context_tokens, 4096);
    assert_eq!(s.embed_model, "e");
}

#[test]
fn profiles_keep_the_workspace() {
    let mut s = settings();
    let mut p = settings();
    p.workspace = "/elsewhere".into();
    p.chat.model = "other".into();
    p.chat.provider = Provider::Deepseek;
    p.pdf_parser = PdfParserBackend::Sink;
    p.top_k = 9;
    s.load_profile(p);
    assert_eq!(s.workspace, "/ws");
    assert_eq!(s.chat.model, "other");
    assert_eq!(s.chat.provider, Provider::Deepseek);
    assert_eq!(s.pdf_parser, PdfParserBackend::Sink);
    assert_eq!(s.top_k, 9);
}

#[test]
fn running_state_flows_into_the_configuration() {
    let agent = AgentState {
        chat_backend: "Ollama".into(),
        chat_model: "c2".into(),
        params: no_params(),
        context_tokens: 8192,
        embed_model: "e2".into(),
        top_k: 7,
        rewriter_model: None,
        pdf_parser: PdfParserBackend::Unpdf,
    };
    let mut s = settings();
    s.sync_config_from_agent(&agent);
    assert_eq!((s.chat.model.as_str(), s.embed_model.as_str()), ("c2", "e2"));
    assert_eq!((s.context_tokens, s.top_k), (8192, 7));
    assert_eq!(s.memory_model, "m");
    assert_eq!(s.pdf_parser, PdfParserBackend::Unpdf);
    assert_eq!(s.params, no_params());
    s.sync_config_from_agent(&AgentState { rewriter_model: Some("r".into()), ..agent });
    assert_eq!(s.memory_model, "r");
    let mut later = settings();
    later.load_profile(s);
    assert_eq!(later.chat.model, "c2");
}

#[test]
fn saved_profiles_build_the_running_engine() {
    let mut s = settings();
    s.sync_config_from_agent(&AgentState {
        chat_backend: "DeepSeek".into(),
        chat_model: "deepseek-chat".into(),
        params: ChatParams { max_tokens: None, seed: Some(7) },
        context_tokens: 1,
        embed_model: "e2".into(),
        top_k: 7,
        rewriter_model: Some("r".into()),
        pdf_parser: PdfParserBackend::Sink,
    });
    assert_eq!(s.chat.provider, Provider::Deepseek);
    assert_eq!(s.chat.deepseek_model, "deepseek-chat");
    assert_eq!(s.chat.model, "c");
    let mut c = start_config();
    c.provider = s.chat.provider;
    c.model = s.chat.model;
    c.deepseek_model = s.chat.deepseek_model;
    c.params = s.params;
    assert!(matches!(
        Startup::begin(c).1,
        StartAction::BuildChat {
            spec: ChatSpec::DeepSeek { model, .. },
            params: ChatParams { max_tokens: None, seed: Some(7) },
        } if model == "deepseek-chat"
    ));
    let mut chat = ChatChoice {
        provider: Provider::Deepseek,
        model: "c".into(),
        deepseek_model: "d".into(),
    };
    chat.describe("Ollama", "q");
    assert_eq!(chat.provider, Provider::Ollama);
    assert_eq!((chat.model.as_str(), chat.deepseek_model.as_str()), ("q", "d"));
    chat.describe("deepSeek", "x");
    assert_eq!(chat.provider, Provider::Deepseek);
}

#[test]
fn profile_commands_are_read() {
    assert!(matches!(
        cmd_profile(""),
        ProfileStep::List { name, asked: false } if name == "default"
    ));
    assert!(matches!(
        cmd_profile("list physics"),
        ProfileStep::List { name, asked: true } if name == "physics"
    ));
    assert!(matches!(cmd_profile("save physics"), ProfileStep::Save(n) if n == "physics"));
    assert!(matches!(cmd_profile("load"), ProfileStep::Load(n) if n == "default"));
    assert!(matches!(
        cmd_profile("show"),
        ProfileStep::Show { name, running: false, running_if_none: true } if name == "default"
    ));
    assert!(matches!(
        cmd_profile("show default x"),
        ProfileStep::Show { running: false, running_if_none: false, .. }
    ));
    assert!(matches!(cmd_profile("show current"), ProfileStep::Show { running: true, .. }));
    assert!(matches!(cmd_profile("frob"), ProfileStep::Say(l) if l.len() == 5));
    assert!(shows_running_state(true, false, 3));
    assert!(shows_running_state(false, true, 0));
    assert!(!shows_running_state(false, true, 1));
}

#[test]
fn saved_profiles_are_listed() {
    assert_eq!(
        list_profiles(&vec![], "default", false),
        vec!["No saved profiles. Use /profile save <name> to create one."]
    );
    assert_eq!(
        list_profiles(&strings(&["a"]), "default", false),
        vec!["Saved profiles:", "  a *"]
    );
    assert_eq!(
        list_profiles(&strings(&["a", "b"]), "b", true),
        vec!["Saved profiles:", "  a", "  b *"]
    );
    assert_eq!(
        list_profiles(&strings(&["a"]), "c", true),
        vec!["Saved profiles:", "  a", "  (profile 'c' not found)"]
    );
}

#[test]
fn saved_sessions_are_managed() {
    assert!(matches!(cmd_hist(""), HistStep::List));
    assert!(matches!(cmd_hist(" list "), HistStep::List));
    assert!(matches!(cmd_hist("load 17"), HistStep::Load(id) if id == "17"));
    assert!(matches!(cmd_hist("delete 17"), HistStep::Delete(id) if id == "17"));
    for args in ["load", "delete", "foo", "list all"] {
        assert!(matches!(
            cmd_hist(args),
            HistStep::Say(l) if l == ["Usage: /hist [list | load <id> | delete <id>]"]
        ));
    }
    assert_eq!(list_sessions(&vec![]), vec!["No saved sessions."]);
    let s = SavedSession { id: "17".into(), turns: 4, created: "today".into() };
    assert_eq!(
        list_sessions(&vec![s]),
        vec!["1 saved session(s):", "  17 — 4 turns — today"]
    );
}

#[test]
fn log_levels_are_set() {
    let mut f = LogFilter { filter: "info".into() };
    assert!(matches!(
        f.cmd_log(""),
        LogStep::Say(l)
            if l == ["Interactive log level: info — change with /log <off|error|warn|info|debug|trace>"]
    ));
    assert!(matches!(
        f.cmd_log(" DEBUG "),
        LogStep::Changed { notice } if notice == "Interactive log level set to debug."
    ));
    assert_eq!(f.filter, "ragrig=debug,info");
    assert!(matches!(
        f.cmd_log("Loud"),
        LogStep::Say(l) if l == ["Unknown log level 'loud'. Use off, error, warn, info, debug, or trace."]
    ));
    assert_eq!(f.filter, "ragrig=debug,info");
    for (level, filter) in [
        ("off", "off"),
        ("error", "error"),
        ("warn", "warn"),
        ("info", "info"),
        ("trace", "ragrig=trace,info"),
    ] {
        f.set_level(level);
        assert_eq!(f.filter, filter);
    }
}

#[test]
fn log_filters_grow() {
    let all = [Level::Error, Level::Warn, Level::Info, Level::Debug, Level::Trace];
    let count = |filter: &str, target: &str| {
        all.iter().filter(|l| allows(filter, **l, target)).count()
    };
    assert_eq!(count("off", "ragrig"), 0);
    assert_eq!(count("error", "ragrig"), 1);
    assert_eq!(count("warn", "ragrig"), 2);
    assert_eq!(count("info", "ragrig"), 3);
    assert_eq!(count("ragrig=debug,info", "ragrig::agent"), 4);
    assert_eq!(count("ragrig=trace,info", "ragrig_cli"), 5);
    assert_eq!(count("debug", "hyper"), 4);
    assert_eq!(count("trace", "hyper"), 5);
    assert_eq!(count("nonsense", "hyper"), 3);
}

#[test]
fn other_targets_stay_at_info() {
    for level in [Level::Error, Level::Warn, Level::Info, Level::Debug, Level::Trace] {
        let at_info = allows("info", level, "rustyline");
        assert_eq!(allows("ragrig=debug,info", level, "rustyline"), at_info);
        assert_eq!(allows("ragrig=trace,info", level, "rustyline"), at_info);
    }
}

fn prompts() -> Prompts {
    Prompts {
        chat: format!("  {}\n", "c".repeat(90)),
        chat_without_docs: "plain".into(),
        rewrite: "rewrite".into(),
    }
}

#[test]
fn prompts_are_managed() {
    let p = prompts();
    match cmd_prompt("", &p) {
        PromptStep::Say(l) => {
            assert_eq!(l[1], format!("  chat (docs):    {}", "c".repeat(80)));
            assert_eq!(l[2], "  chat (no docs): plain");
            assert_eq!(l[3], "  rewrite:        rewrite");
        }
        other => panic!("unexpected {other:?}"),
    }
    match cmd_prompt("reset", &p) {
        PromptStep::Reset { chat, rewrite } => {
            assert!(chat.ends_with("Context snippets.\n\nContext:\n{context}\n"));
            assert!(rewrite.ends_with("nothing else.\n\nLatest question: {question}"));
        }
        other => panic!("unexpected {other:?}"),
    }
    assert!(matches!(cmd_prompt("chat a.txt", &p), PromptStep::LoadChat(f) if f == "a.txt"));
    assert!(matches!(cmd_prompt("rewrite b", &p), PromptStep::LoadRewrite(f) if f == "b"));
    assert!(matches!(cmd_prompt("chat", &p), PromptStep::Say(l) if l == ["Usage: /prompt chat <file>"]));
    assert!(matches!(cmd_prompt("rewrite", &p), PromptStep::Say(l) if l == ["Usage: /prompt rewrite <file>"]));
    assert!(matches!(
        cmd_prompt("foo", &p),
        PromptStep::Say(l) if l == ["Unknown sub-command: foo. Use chat, rewrite, or reset."]
    ));
}

fn memory() -> MemoryState {
    MemoryState {
        rewriter: Some(Rewriter { backend: "Ollama".into(), model: "qwen2.5:1.5b".into() }),
        use_transcript: true,
        diffusion: None,
        turns: 4,
    }
}

#[test]
fn memory_is_shown() {
    let mut m = memory();
    match m.cmd_memory(" ") {
        MemoryStep::Say(l) => {
            assert_eq!(l.len(), 6);
            assert_eq!(l[0], "Memory: rewrite — 4 turns  |  history diffusion: off");
        }
        other => panic!("unexpected {other:?}"),
    }
    assert_eq!(m.turns, 4);
}

#[test]
fn memory_off_forgets() {
    let mut m = memory();
    assert!(matches!(
        m.cmd_memory("OFF"),
        MemoryStep::Off { notice } if notice == "Memory disabled (was: Ollama qwen2.5:1.5b)"
    ));
    assert!(m.rewriter.is_none() && !m.use_transcript && m.turns == 0);
    assert!(matches!(m.cmd_memory("none"), MemoryStep::Off { notice } if notice == "Memory already off."));
    m.turns = 3;
    assert!(matches!(m.cmd_memory("off"), MemoryStep::Off { notice } if notice == "Memory off — 3 turns cleared."));
}

#[test]
fn memory_is_purged() {
    let mut m = memory();
    assert!(matches!(
        m.cmd_memory("purge"),
        MemoryStep::Purge { notice } if notice == "Conversation memory purged (4 entries removed)."
    ));
    assert_eq!(m.turns, 0);
    assert!(m.rewriter.is_some());
}

#[test]
fn memory_keeps_earlier_sessions() {
    let mut m = memory();
    assert!(matches!(m.cmd_memory("log"), MemoryStep::Log { notice } if notice == "History diffusion: off → log"));
    assert!(matches!(m.cmd_memory("LOG"), MemoryStep::Log { notice } if notice == "History diffusion unchanged: log"));
    assert!(matches!(m.cmd_memory("summary"), MemoryStep::Summary));
    assert_eq!(m.diffusion.as_deref(), Some("log"));
    assert_eq!(m.summary_ready(), "History diffusion: log → summary");
    assert_eq!(m.summary_ready(), "History diffusion unchanged: summary");
    assert!(matches!(m.cmd_memory("log"), MemoryStep::Log { notice } if notice == "History diffusion: summary → log"));
    let mut fresh = memory();
    assert_eq!(fresh.summary_ready(), "History diffusion enabled: summary");
    assert_eq!(m.turns, 4);
}

#[test]
fn memory_uses_the_transcript() {
    let mut m = memory();
    assert!(matches!(
        m.cmd_memory("transcript"),
        MemoryStep::Transcript { notice } if notice == "Memory strategy: rewrite → transcript"
    ));
    assert!(m.rewriter.is_none() && m.use_transcript);
    assert!(matches!(
        m.cmd_memory("transcript"),
        MemoryStep::Transcript { notice } if notice == "Memory unchanged: transcript"
    ));
}

#[test]
fn memory_gets_a_rewriter() {
    let mut m = memory();
    m.cmd_memory("off");
    assert!(matches!(
        m.cmd_memory("ollama small"),
        MemoryStep::Rewrite(ChatSpec::Ollama { model }) if model == "small"
    ));
    assert!(m.use_transcript);
    assert_eq!(m.rewriter_ready("Ollama", "small"), "Memory enabled: rewrite — Ollama (small)");
    assert_eq!(m.rewriter_ready("Ollama", "big"), "Memory agent: Ollama (big)");
    assert!(matches!(
        m.cmd_memory("foo"),
        MemoryStep::Refused(e)
            if e == "Memory spec parse error: Unknown chat backend: 'foo'. Available: ollama, deepseek"
    ));
    assert!(matches!(engine(Err("x".into())), MemoryStep::Refused(e) if e == "Memory spec parse error: x"));
}

#[test]
fn attachments_serve_one_question() {
    let mut a = Attachments::new();
    assert!(matches!(
        a.cmd_attach(""),
        AttachStep::Say(l) if l == ["No files attached. Usage: /attach <file>  |  /attach clear"]
    ));
    assert!(matches!(a.cmd_attach("notes.md"), AttachStep::Open(p) if p == "notes.md"));
    assert_eq!(a.attach("notes.md", "né"), "Attached: notes.md (3 chars, 1 total attached)");
    assert!(matches!(
        a.cmd_attach(""),
        AttachStep::Say(l)
            if l == ["Attached files:", "  notes.md (3 chars)", "Use /attach clear to remove all attachments."]
    ));
    let taken = a.take();
    assert_eq!(taken.len(), 1);
    assert_eq!(taken[0].content, "né");
    assert!(a.take().is_empty());
    a.attach("b", "");
    assert!(matches!(a.cmd_attach("CLEAR"), AttachStep::Say(l) if l == ["Cleared 1 attached document(s)."]));
    assert!(a.docs.is_empty());
}

#[test]
fn answers_have_a_footer() {
    let mut a = AnswerInfo {
        chunks: Some(5),
        tokens: 132,
        documents: Some(strings(&["a.pdf"])),
        attached: 0,
        seconds: "2.1".into(),
    };
    assert_eq!(answer_footer(&a), "--- 5 chunks | 132 tokens from [a.pdf] in 2.1s ---");
    a.attached = 2;
    a.documents = Some(strings(&["a.pdf", "b.pdf"]));
    assert_eq!(
        answer_footer(&a),
        "--- 5 chunks | 132 tokens from [a.pdf, b.pdf] + 2 attached doc(s) in 2.1s ---"
    );
    a.chunks = None;
    a.documents = None;
    assert_eq!(answer_footer(&a), "--- 0 chunks | 132 tokens + 2 attached doc(s) in 2.1s ---");
    assert_eq!(cancelled_line(7), "[cancelled after 7 tokens]");
}

#[test]
fn overflows_are_retried_once() {
    let mut q = QueryRun::new(ContextSizeMode::Auto);
    assert!(matches!(
        q.next_action(&QueryEvent::Overflow { max: 4608, needed: 9000 }),
        QueryAction::Retry { window: 4096, notice }
            if notice == "Context overflow — shrinking budget to 9216 chars, retrying."
    ));
    match q.next_action(&QueryEvent::Overflow { max: 4608, needed: 8000 }) {
        QueryAction::GiveUp { window, report, lines } => {
            assert_eq!(window, 4096);
            assert_eq!(
                report,
                "Context overflow: model allows 4608 tokens, prompt needed 8000. Budget auto-adjusted to 4096."
            );
            assert_eq!(
                lines,
                vec![
                    "\n*** Context overflow: model allows 4608 tokens, prompt needed 8000. ***",
                    "*** Budget auto-adjusted to 4096 tokens. Use `/chat context 4096` to override. ***",
                ]
            );
        }
        other => panic!("unexpected {other:?}"),
    }
    let mut small = QueryRun { mode: ContextSizeMode::Auto, retried: true };
    assert!(matches!(
        small.next_action(&QueryEvent::Overflow { max: 100, needed: 200 }),
        QueryAction::GiveUp { window: 0, lines, .. } if lines[1].contains("`/chat context 0`")
    ));
    assert_eq!(fitting_window(4608), 4096);
    assert_eq!(fitting_window(513), 1);
    assert_eq!(fitting_window(512), 0);
}

#[test]
fn forced_overflows_are_errors() {
    let mut q = QueryRun::new(ContextSizeMode::Forced);
    for _ in 0..2 {
        assert!(matches!(
            q.next_action(&QueryEvent::Overflow { max: 4608, needed: 9000 }),
            QueryAction::Fail
        ));
    }
    assert_eq!(q, QueryRun::new(ContextSizeMode::Forced));
}

fn answered(document: &str) -> QueryEvent {
    QueryEvent::Answered {
        info: AnswerInfo {
            chunks: Some(1),
            tokens: 3,
            documents: None,
            attached: 0,
            seconds: "0.5".into(),
        },
        found: vec![FoundChunk { document: document.into(), text: "t".into() }],
    }
}

#[test]
fn questions_have_one_outcome() {
    let mut s = session();
    let mut q = QueryRun::new(s.mode);
    assert!(matches!(s.question_outcome(&mut q, QueryEvent::Failed), QueryAction::Fail));
    assert!(matches!(
        s.question_outcome(&mut q, QueryEvent::Cancelled { tokens: 7 }),
        QueryAction::Close(m) if m == "[cancelled after 7 tokens]"
    ));
    assert!(s.found.is_empty());
    assert!(matches!(
        s.question_outcome(&mut q, answered("d")),
        QueryAction::Close(m) if m == "--- 1 chunks | 3 tokens in 0.5s ---"
    ));
    assert_eq!(s.found[0].document, "d");
    assert!(s.papers.is_empty());
    assert!(!q.retried);
}

#[test]
fn references_are_asked_for() {
    assert!(matches!(
        cmd_extract_refs("", &vec![]),
        RefsStep::Say(l) if l == ["No previous query results. Ask a question first, then use /refs."]
    ));
    let found: Vec<FoundChunk> = (0..7)
        .map(|i| FoundChunk { document: format!("d{i}"), text: format!("t{i}") })
        .collect();
    match cmd_extract_refs("bayes", &found) {
        RefsStep::Ask(p) => {
            assert!(p.starts_with("Extract all academic paper references (cited works with title, authors, year) from the documents below. Focus specifically on references related to: \"bayes\".\n\nReturn ONLY a numbered list."));
            assert!(p.ends_with("Documents:\n[Document 1 | Corpus: d0]\nt0\n\n[Document 2 | Corpus: d1]\nt1\n\n[Document 3 | Corpus: d2]\nt2\n\n[Document 4 | Corpus: d3]\nt3\n\n[Document 5 | Corpus: d4]\nt4\n\n"));
        }
        other => panic!("unexpected {other:?}"),
    }
    assert!(matches!(cmd_extract_refs("", &found), RefsStep::Ask(p) if p.contains("documents below.\n\nReturn ONLY")));
}

fn session() -> Session {
    let m = memory();
    Session::begin(
        Corpora::new(parse_corpora(&strings(&["papers=/p"]), &[]).unwrap()),
        PdfParserBackend::Extract,
        ContextSizeMode::Auto,
        no_params(),
        "info".into(),
        m.rewriter,
        m.use_transcript,
    )
}

fn status() -> Status {
    Status {
        chat: ChatStatus { backend: "Ollama".into(), model: "m".into(), context_tokens: 4096 },
        search: SearchStatus {
            top_k: 5,
            threshold: "0.040".into(),
            ranker: None,
            memory_model: "mm".into(),
        },
        embed: EmbedStatus {
            backend: "Ollama".into(),
            model: "e".into(),
            top_k: 5,
            threshold: "0.04".into(),
            threshold_rounded: "0.040".into(),
        },
        chunker: "markdown".into(),
        prompts: prompts(),
    }
}

#[test]
fn commands_are_dispatched() {
    let mut s = session();
    let st = status();
    let run = |s: &mut Session, line: &str| s.execute(Command::from(line), &st);
    assert!(matches!(run(&mut s, "/attach a.md"), Step::Attach(AttachStep::Open(_))));
    assert!(matches!(
        run(&mut s, "/download http://a/b.md"),
        Step::Download { url, step: DownloadStep::Fetch { extension } }
            if url == "http://a/b.md" && extension == "md"
    ));
    assert!(matches!(run(&mut s, "/get 1"), Step::Get(GetStep::Say(_))));
    assert!(matches!(run(&mut s, "/help"), Step::Say(l) if l.len() == 20));
    assert!(matches!(run(&mut s, "/scholar"), Step::Scholar(PaperSearchStep::Say(_))));
    assert!(matches!(run(&mut s, "/arxiv q"), Step::Arxiv(PaperSearchStep::Search(_))));
    assert!(matches!(run(&mut s, "/refs"), Step::Refs(RefsStep::Say(_))));
    assert!(matches!(run(&mut s, "/chat context 9"), Step::Chat(ChatStep::SetContext(9))));
    assert!(matches!(run(&mut s, "/search topk 9"), Step::Search(SearchStep::SetTopK(9))));
    assert!(matches!(run(&mut s, "/embed index"), Step::Embed(EmbedStep::Index)));
    assert!(matches!(run(&mut s, "/chunker token"), Step::Chunker(ChunkerStep::Swap { index: 1, .. })));
    assert!(matches!(run(&mut s, "/memory off"), Step::Memory(MemoryStep::Off { .. })));
    assert!(matches!(run(&mut s, "/hist"), Step::Hist(HistStep::List)));
    assert!(matches!(run(&mut s, "/prompt reset"), Step::Prompt(PromptStep::Reset { .. })));
    assert!(matches!(run(&mut s, "/log warn"), Step::Log(LogStep::Changed { .. })));
    assert!(matches!(run(&mut s, "/parser pdf sink"), Step::Parser(ParserStep::PdfSwapped { .. })));
    assert!(matches!(run(&mut s, "/profile list"), Step::Profile(ProfileStep::List { .. })));
    assert!(matches!(run(&mut s, "/corpus papers off"), Step::Corpus(CorpusStep::Remove { .. })));
    assert!(matches!(run(&mut s, "/nope"), Step::Say(l) if l == ["Unknown command: '/nope'"]));
    assert!(matches!(run(&mut s, "exit"), Step::Nothing));
    assert!(s.memory.rewriter.is_none());
    assert_eq!(s.log.filter, "warn");
    assert_eq!(s.parsers.pdf, PdfParserBackend::Sink);
    assert!(!s.corpora.entries[0].active);
}

#[test]
fn questions_take_the_attachments() {
    let mut s = session();
    s.attachments.attach("a.md", "text");
    match s.execute(Command::from("why?"), &status()) {
        Step::Ask { question, attached, run } => {
            assert_eq!(question, "why?");
            assert_eq!(attached.len(), 1);
            assert_eq!(run, QueryRun::new(ContextSizeMode::Auto));
        }
        other => panic!("unexpected {other:?}"),
    }
    match s.execute(Command::from("why?"), &status()) {
        Step::Ask { attached, .. } => assert!(attached.is_empty()),
        other => panic!("unexpected {other:?}"),
    }
}

#[test]
fn search_results_are_remembered() {
    let mut s = session();
    let p = || Paper {
        title: "T".into(),
        authors: vec![],
        year: None,
        arxiv_id: Some("1".into()),
        doi: None,
        pdf_url: None,
    };
    assert_eq!(s.scholar_found(vec![p()])[0], "\nResults:");
    assert_eq!(s.papers.len(), 1);
    assert_eq!(s.arxiv_found(vec![]), vec!["No papers found."]);
    assert_eq!(s.papers.len(), 1);
    assert_eq!(s.arxiv_found(vec![p(), p()])[0], "\nResults (arXiv):");
    assert_eq!(s.papers.len(), 2);
    assert!(matches!(
        s.execute(Command::from("/get 2"), &status()),
        Step::Get(GetStep::Fetch(v)) if v == [1]
    ));
    let mut q = QueryRun::new(s.mode);
    s.question_outcome(&mut q, answered("d"));
    assert_eq!(s.papers.len(), 2);
    assert!(matches!(
        s.execute(Command::from("/refs"), &status()),
        Step::Refs(RefsStep::Ask(_))
    ));
}

#[test]
fn swapping_engines_keeps_the_session() {
    let mut s = session();
    s.attachments.attach("a.md", "text");
    let before = format!("{s:?}");
    for line in ["/chat deepseek", "/embed none", "/chunker token", "/search rank BM25"] {
        s.execute(Command::from(line), &status());
    }
    assert_eq!(format!("{s:?}"), before);
}

#[test]
fn get_follows_a_search_by_document() {
    let chunk = |d: &str| FoundChunk { document: d.into(), text: "t".into() };
    let mut s = session();
    s.similar_found(vec![]);
    assert!(matches!(
        s.execute(Command::from("/get 1"), &status()),
        Step::Get(GetStep::Say(l))
            if l == ["No search results available. Run /scholar or /arxiv first."]
    ));
    s.similar_found(vec![chunk("a.pdf"), chunk("https://x.org/b.html"), chunk("http://y")]);
    assert_eq!(s.found.len(), 3);
    assert_eq!(s.papers[0].title, "a.pdf");
    assert_eq!(s.papers[0].pdf_url, None);
    assert_eq!(s.papers[1].pdf_url.as_deref(), Some("https://x.org/b.html"));
    assert_eq!(s.papers[2].pdf_url.as_deref(), Some("http://y"));
    let indices = match s.execute(Command::from("/get 1,2"), &status()) {
        Step::Get(GetStep::Fetch(v)) => v,
        other => panic!("unexpected {other:?}"),
    };
    assert_eq!(indices, vec![0, 1]);
    let mut run = GetRun::begin(indices, &pipeline(1)).unwrap();
    assert!(matches!(
        run.next_action(&s.papers),
        GetAction::Say(m) if m == "  [ 1] a.pdf — no download URL available"
    ));
    assert!(matches!(
        run.next_action(&s.papers),
        GetAction::Fetch { url, .. } if url == "https://x.org/b.html"
    ));
    s.similar_found(vec![]);
    assert_eq!((s.papers.len(), s.found.len()), (3, 0));
}

fn pipeline(stored: usize) -> Pipeline {
    Pipeline { parser: "p".into(), chunker: "c".into(), embedder: "e".into(), stored }
}

#[test]
fn nothing_is_added_without_an_index() {
    let mut s = Session::begin(
        Corpora::new(parse_corpora(&[], &strings(&["web=http://a"])).unwrap()),
        PdfParserBackend::Extract,
        ContextSizeMode::Auto,
        no_params(),
        "info".into(),
        None,
        false,
    );
    assert_eq!(s.pipeline_parser("pdf"), Ok("pdf-extract".to_string()));
    assert_eq!(s.pipeline_parser("exe"), Err("No parser registered for .exe files".to_string()));
    let before = format!("{s:?}");
    assert!(matches!(
        s.add_document("http://b", &pipeline(0)),
        AddStep::Refuse(m) if m == "Cannot add http://b: no index exists for the current pipeline (parser=p, chunker=c, embedder=e). Run '/embed index' first."
    ));
    assert_eq!(format!("{s:?}"), before);
    assert!(matches!(
        s.add_document("http://b", &pipeline(1)),
        AddStep::Ingest(IngestStep::SyncUrls { index: 0, name }) if name == "web"
    ));
    assert_ne!(format!("{s:?}"), before);
}

fn file(name: &str) -> FileStat {
    FileStat { name: name.into(), size_kb: 1, chunks: 2, chars: 3, average: "2".into(), ok: true }
}

#[test]
fn active_corpora_are_indexed_in_turn() {
    let mut corpora =
        Corpora::new(parse_corpora(&strings(&["a=/a", "b=/b", "c=/c"]), &[]).unwrap());
    corpora.entries[1].active = false;
    let (mut run, first) = IndexRun::begin(&corpora);
    assert!(matches!(first, IndexAction::Index(0)));
    let next = run.next_action(IndexEvent::Done(vec![file("x")]));
    assert!(matches!(next, IndexAction::Index(2)));
    let next = run.next_action(IndexEvent::Done(vec![file("y"), file("z")]));
    assert!(matches!(next, IndexAction::Report));
    let names: Vec<&str> = run.stats().iter().map(|f| f.name.as_str()).collect();
    assert_eq!(names, vec!["x", "y", "z"]);
    assert!(matches!(run.next_action(IndexEvent::Done(vec![])), IndexAction::Fail));
    assert_eq!(run.stats().len(), 3);
}

#[test]
fn indexing_can_be_broken_off() {
    let corpora = Corpora::new(parse_corpora(&strings(&["a=/a", "b=/b"]), &[]).unwrap());
    let (mut run, _) = IndexRun::begin(&corpora);
    assert!(matches!(
        run.next_action(IndexEvent::Cancelled),
        IndexAction::Stop(m) if m == "Indexing cancelled."
    ));
    assert!(matches!(run.next_action(IndexEvent::Done(vec![])), IndexAction::Fail));
    let (mut run, _) = IndexRun::begin(&corpora);
    assert!(matches!(run.next_action(IndexEvent::Failed), IndexAction::Fail));
    let (_, first) = IndexRun::begin(&Corpora::new(vec![]));
    assert!(matches!(first, IndexAction::Report));
}

#[test]
fn chat_parameters_reach_a_saved_profile() {
    let mut s = session();
    let saved = |s: &Session| {
        let mut settings = settings();
        settings.sync_config_from_agent(&AgentState {
            chat_backend: "Ollama".into(),
            chat_model: "c".into(),
            params: s.params,
            context_tokens: 1,
            embed_model: "e".into(),
            top_k: 1,
            rewriter_model: None,
            pdf_parser: PdfParserBackend::Extract,
        });
        settings.params
    };
    let chat = |s: &mut Session, line: &str, built: bool| {
        match s.execute(Command::from(line), &status()) {
            Step::Chat(step) => s.chat_outcome(&step, built),
            other => panic!("unexpected {other:?}"),
        }
    };
    chat(&mut s, "/chat max_tokens 2048", true);
    assert_eq!(saved(&s), ChatParams { max_tokens: Some(2048), seed: None });
    chat(&mut s, "/chat seed 42", false);
    assert_eq!(saved(&s), ChatParams { max_tokens: Some(2048), seed: None });
    chat(&mut s, "/chat seed 42", true);
    assert_eq!(saved(&s), ChatParams { max_tokens: None, seed: Some(42) });
    chat(&mut s, "/chat context 9", true);
    assert_eq!(saved(&s), ChatParams { max_tokens: None, seed: Some(42) });
    chat(&mut s, "/chat temperature 0.1", true);
    assert_eq!(saved(&s), no_params());
    chat(&mut s, "/chat seed 42", true);
    chat(&mut s, "/chat ollama m", true);
    assert_eq!(saved(&s), no_params());
}

#[test]
fn every_document_is_deleted_once() {
    let (mut run, first) = PurgeRun::begin(strings(&["a", "b"]), 7);
    assert!(matches!(first, PurgeAction::Delete(d) if d == "a"));
    assert!(matches!(run.next_action(PurgeEvent::Done), PurgeAction::Delete(d) if d == "b"));
    assert!(matches!(
        run.next_action(PurgeEvent::Done),
        PurgeAction::Report(m) if m == "Vector store purged (7 chunks across 2 documents)."
    ));
    assert!(matches!(run.next_action(PurgeEvent::Done), PurgeAction::Fail));
    let (_, first) = PurgeRun::begin(vec![], 0);
    assert!(matches!(
        first,
        PurgeAction::Report(m) if m == "Vector store purged (0 chunks across 0 documents)."
    ));
}

#[test]
fn failures_end_a_purge() {
    let (mut run, _) = PurgeRun::begin(strings(&["a", "b", "c"]), 7);
    assert!(matches!(run.next_action(PurgeEvent::Done), PurgeAction::Delete(d) if d == "b"));
    assert!(matches!(run.next_action(PurgeEvent::Failed), PurgeAction::Fail));
    assert!(matches!(run.next_action(PurgeEvent::Done), PurgeAction::Fail));
}
