//! The start of a session: in which order engines, store and corpora come to
//! life, and what stops it.

use vstd::prelude::*;

use crate::backends;
use crate::backends::ChatSpec;
use crate::backends::ChatSpecView;
use crate::backends::EmbedSpec;
use crate::backends::EmbedSpecView;
use crate::backends::ParserInfo;
use crate::chat::ChatParams;
use crate::config;
use crate::config::AgentState;
use crate::config::EmbeddingProvider;
use crate::config::Provider;
use crate::config::SettingsView;
use crate::corpora::Corpora;
use crate::corpus;
use crate::corpus::CorpusEntry;
use crate::corpus::EntryView;
use crate::memory::Rewriter;
use crate::number;
use crate::parsers;
use crate::parsers::PdfParserBackend;
use crate::query::ContextSizeMode;
use crate::session;
use crate::session::Session;
use crate::text;

verus! {

/// What the start of a session depends on.
#[derive(Debug)]
pub struct StartConfig {
    pub provider: Provider,
    pub model: String,
    pub deepseek_model: String,
    pub deepseek_api_key: Option<String>,
    pub mode: ContextSizeMode,
    pub params: ChatParams,
    pub embedding_provider: EmbeddingProvider,
    pub embed_model: String,
    pub memory_model: String,
    pub pdf_parser: PdfParserBackend,
    pub chunk_size: usize,
    pub chunk_overlap: usize,
    pub corpus_dirs: Vec<String>,
    pub corpus_urls: Vec<String>,
}

/// How far the start has come: what is being done.
#[derive(Debug, Clone, Copy, PartialEq, Eq, Structural)]
pub enum Stage {
    Chat,
    Embedder,
    Store,
    Memory,
    Agent,
    /// The corpus at that position is being indexed.
    Index(usize),
    Rows,
    /// The session can begin.
    Ready,
    /// The session was refused.
    Over,
}

/// What became of the last action.
#[derive(Debug, Clone, Copy, PartialEq, Eq, Structural)]
pub enum StartEvent {
    Done,
    Failed,
    Cancelled,
    /// The number of entries of the store.
    Rows(usize),
}

/// Why a session does not begin.
#[derive(Debug)]
pub enum Refusal {
    /// The last action failed; its own error is passed on.
    Outside,
    /// The user cancelled the indexing; the message is shown.
    Cancelled(String),
    /// The configuration is wrong.
    Config(String),
    /// There is nothing to answer from.
    NoDocuments,
}

/// What is done next.
#[derive(Debug)]
pub enum StartAction {
    /// The chat engine is built, with these parameters.
    BuildChat { spec: ChatSpec, params: ChatParams },
    BuildEmbedder(EmbedSpec),
    /// The store is opened; these parsers make up the registry.
    OpenStore { parsers: Vec<ParserInfo> },
    BuildMemory(ChatSpec),
    BuildAgent,
    /// The corpus at that position is indexed.
    Index(usize),
    CountRows,
    /// The session begins; the notice is logged.
    Ready { notice: String },
    Refuse(Refusal),
}

/// The start of a session.
#[derive(Debug)]
pub struct Startup {
    config: StartConfig,
    stage: Stage,
    entries: Vec<CorpusEntry>,
}

/// The mathematical value of a [`Startup`].
pub struct StartView {
    pub config: StartConfig,
    pub stage: Stage,
    pub entries: Seq<EntryView>,
}

impl View for Startup {
    type V = StartView;

    closed spec fn view(&self) -> StartView {
        StartView {
            config: self.config,
            stage: self.stage,
            entries: corpus::entries(self.entries@),
        }
    }
}

impl StartView {
    /// While corpora are indexed there is one at the position at work; from the
    /// moment they are known they are the ones that the configuration asks for,
    /// and their names are unique.
    pub open spec fn wf(self) -> bool {
        &&& corpus::names_are_unique(self.entries)
        &&& corpus::names_agree(self.entries)
        &&& self.entries.len() <= usize::MAX
        &&& self.stage matches Stage::Index(i) ==> i < self.entries.len()
        &&& self.stage is Index || self.stage is Rows || self.stage is Ready ==> wanted_corpora(
            self.config,
        ) == Ok::<Seq<EntryView>, Seq<char>>(self.entries)
    }

    /// The start after a refusal.
    pub open spec fn over(self) -> StartView {
        StartView { stage: Stage::Over, ..self }
    }
}

/// The chat engine that a session begins with.
pub open spec fn first_chat(c: StartConfig) -> ChatSpecView {
    match c.provider {
        Provider::Ollama => ChatSpecView::Ollama { model: c.model@ },
        Provider::Deepseek => ChatSpecView::DeepSeek {
            model: c.deepseek_model@,
            api_key: text::opt_text(c.deepseek_api_key),
        },
    }
}

/// The embedder that a session begins with.
pub open spec fn first_embedder(c: StartConfig) -> EmbedSpecView {
    match c.embedding_provider {
        EmbeddingProvider::Ollama => EmbedSpecView::Ollama { model: c.embed_model@ },
    }
}

/// The corpora that the configuration asks for.
pub open spec fn wanted_corpora(c: StartConfig) -> Result<Seq<EntryView>, Seq<char>> {
    corpus::corpora_of(text::texts(c.corpus_dirs@), text::texts(c.corpus_urls@))
}

/// Whether `r` refuses the configuration with that message.
pub open spec fn refuses_config(r: StartAction, message: Seq<char>) -> bool {
    r matches StartAction::Refuse(Refusal::Config(m)) && m@ == message
}

/// What follows an action that succeeded.
pub open spec fn after_success(before: StartView, after: StartView, r: StartAction) -> bool {
    let c = before.config;
    match before.stage {
        Stage::Chat => after == (StartView { stage: Stage::Embedder, ..before }) && (
        r matches StartAction::BuildEmbedder(s) && s@ == first_embedder(c)),
        Stage::Embedder => after == (StartView { stage: Stage::Store, ..before }) && (
        r matches StartAction::OpenStore { parsers } && backends::parser_views(parsers@)
            == parsers::kept(backends::parser_list(), c.pdf_parser)),
        Stage::Store => match backends::chunk_complaint(
            c.chunk_size as nat,
            c.chunk_overlap as nat,
        ) {
            Some(m) => after == before.over() && refuses_config(r, m),
            None => after == (StartView { stage: Stage::Memory, ..before }) && (
            r matches StartAction::BuildMemory(s) && s@ == (ChatSpecView::Ollama {
                model: c.memory_model@,
            })),
        },
        Stage::Memory => after == (StartView { stage: Stage::Agent, ..before }) && r
            == StartAction::BuildAgent,
        Stage::Agent => match wanted_corpora(c) {
            Err(m) => after == before.over() && refuses_config(r, m),
            Ok(es) => if es.len() == 0 {
                after == (StartView { stage: Stage::Rows, entries: es, ..before }) && r
                    == StartAction::CountRows
            } else {
                after == (StartView { stage: Stage::Index(0), entries: es, ..before }) && r
                    == StartAction::Index(0)
            },
        },
        Stage::Index(i) => if i + 1 < before.entries.len() {
            let next = (i + 1) as usize;
            after == (StartView { stage: Stage::Index(next), ..before }) && r
                == StartAction::Index(next)
        } else {
            after == (StartView { stage: Stage::Rows, ..before }) && r == StartAction::CountRows
        },
        _ => after == before.over() && r == StartAction::Refuse(Refusal::Outside),
    }
}

/// What follows what became of the last action.
pub open spec fn start_step(
    before: StartView,
    after: StartView,
    event: StartEvent,
    r: StartAction,
) -> bool {
    match event {
        StartEvent::Done => after_success(before, after, r),
        StartEvent::Cancelled if before.stage is Index => after == before.over() && (
        r matches StartAction::Refuse(Refusal::Cancelled(m)) && m@
            == "Indexing cancelled — exiting."@),
        StartEvent::Rows(n) if before.stage is Rows => if n == 0 {
            after == before.over() && r == StartAction::Refuse(Refusal::NoDocuments)
        } else {
            after == (StartView { stage: Stage::Ready, ..before }) && (
            r matches StartAction::Ready { notice } && notice@ == "Vector store initialized with "@
                + number::decimal(n as nat) + " total entries."@)
        },
        _ => after == before.over() && r == StartAction::Refuse(Refusal::Outside),
    }
}

/// A session begins only with documents: a store without entries is refused.
pub proof fn law_sessions_need_documents(
    before: StartView,
    after: StartView,
    event: StartEvent,
    r: StartAction,
)
    requires
        start_step(before, after, event, r),
    ensures
        r is Ready <==> before.stage is Rows && event is Rows && event != StartEvent::Rows(0),
        r is Ready <==> after.stage is Ready,
{
}

/// Whether a start has these settings.
pub open spec fn has_settings(c: StartConfig, s: SettingsView) -> bool {
    &&& c.provider == s.chat.provider
    &&& c.model@ == s.chat.model
    &&& c.deepseek_model@ == s.chat.deepseek_model
    &&& c.params == s.params
    &&& c.embed_model@ == s.embed_model
    &&& c.memory_model@ == s.memory_model
    &&& c.pdf_parser == s.pdf_parser
}

/// A start from a profile that was saved from the running state builds the chat
/// engine that was running, with those of its parameters that are whole numbers,
/// an embedder with the model that was running, the model that rewrote questions
/// where one did, and the PDF engine that was running.
pub proof fn law_saved_state_builds_the_running_engines(
    c: StartConfig,
    s: SettingsView,
    agent: AgentState,
)
    requires
        has_settings(c, config::synced(s, agent)),
    ensures
        first_chat(c) == (if config::is_deepseek(agent.chat_backend@) {
            ChatSpecView::DeepSeek {
                model: agent.chat_model@,
                api_key: text::opt_text(c.deepseek_api_key),
            }
        } else {
            ChatSpecView::Ollama { model: agent.chat_model@ }
        }),
        c.params == agent.params,
        first_embedder(c) == (EmbedSpecView::Ollama { model: agent.embed_model@ }),
        agent.rewriter_model matches Some(m) ==> c.memory_model@ == m@,
        c.pdf_parser == agent.pdf_parser,
{
}

/// A start that has just begun.
pub open spec fn at_start(c: StartConfig) -> StartView {
    StartView { config: c, stage: Stage::Chat, entries: Seq::empty() }
}

/// Whether `r` is what a start begins with.
pub open spec fn comes_first(c: StartConfig, r: StartAction) -> bool {
    r matches StartAction::BuildChat { spec, params } && spec@ == first_chat(c) && params
        == c.params
}

/// A start begins with the chat engine that is configured and its parameters, and
/// goes on with the embedder where it could be built.
pub proof fn law_a_start_begins_with_the_chat_engine(
    c: StartConfig,
    r: StartAction,
    after: StartView,
    next: StartAction,
)
    requires
        comes_first(c, r),
        start_step(at_start(c), after, StartEvent::Done, next),
    ensures
        c.provider == Provider::Ollama ==> (r matches StartAction::BuildChat { spec, params }
            && spec@ == (ChatSpecView::Ollama { model: c.model@ }) && params == c.params),
        c.provider == Provider::Deepseek ==> (r matches StartAction::BuildChat { spec, params }
            && spec@ == (ChatSpecView::DeepSeek {
            model: c.deepseek_model@,
            api_key: text::opt_text(c.deepseek_api_key),
        }) && params == c.params),
        next is BuildEmbedder,
        at_start(c).config == c,
        at_start(c).entries.len() == 0,
{
}

/// A start goes from the chat engine to the embedder, the store, the memory agent
/// and the agent, each with what the configuration says, as long as all succeeds.
pub proof fn law_the_start_goes_in_order(views: Seq<StartView>, actions: Seq<StartAction>)
    requires
        succeeds(views, actions),
        actions.len() == 4,
        views[0].stage is Chat,
        views[0].config.chunk_size > views[0].config.chunk_overlap,
    ensures
        actions[0] matches StartAction::BuildEmbedder(s) && s@ == (EmbedSpecView::Ollama {
            model: views[0].config.embed_model@,
        }),
        actions[1] matches StartAction::OpenStore { parsers } && backends::parser_views(parsers@)
            == parsers::kept(backends::parser_list(), views[0].config.pdf_parser),
        actions[2] matches StartAction::BuildMemory(s) && s@ == (ChatSpecView::Ollama {
            model: views[0].config.memory_model@,
        }),
        actions[3] is BuildAgent,
        views[4].stage is Agent,
        views[4].config == views[0].config,
{
    assert(after_success(views[0], views[1], actions[0]));
    assert(after_success(views[1], views[2], actions[1]));
    assert(after_success(views[2], views[3], actions[2]));
    assert(after_success(views[3], views[4], actions[3]));
}

/// The chat engine of a start is that of the configured service, with the model
/// that is configured for that service; only DeepSeek has a key.
pub proof fn law_the_configured_service_is_built(c: StartConfig)
    ensures
        c.provider == Provider::Ollama ==> first_chat(c) == (ChatSpecView::Ollama {
            model: c.model@,
        }),
        c.provider == Provider::Deepseek ==> first_chat(c) == (ChatSpecView::DeepSeek {
            model: c.deepseek_model@,
            api_key: match c.deepseek_api_key {
                Some(k) => Some(k@),
                None => None,
            },
        }),
{
}

/// A start that fails, or is cancelled, at any point is refused, and nothing
/// follows; so is one with chunk sizes that do not fit together.
pub proof fn law_failures_refuse_the_session(
    before: StartView,
    after: StartView,
    event: StartEvent,
    r: StartAction,
)
    requires
        start_step(before, after, event, r),
    ensures
        event is Failed || event is Cancelled || before.stage is Over || before.stage is Ready
            ==> r is Refuse && after.stage is Over,
        before.stage is Store && event is Done ==> (r is Refuse <==> before.config.chunk_size == 0
            || before.config.chunk_overlap >= before.config.chunk_size),
        event is Cancelled && before.stage is Index ==> (r matches StartAction::Refuse(
            Refusal::Cancelled(_),
        )),
        event is Cancelled && !(before.stage is Index) ==> r == StartAction::Refuse(
            Refusal::Outside,
        ),
        event is Failed ==> r == StartAction::Refuse(Refusal::Outside),
        before.stage is Agent && event is Done ==> match wanted_corpora(before.config) {
            Ok(_) => !(r is Refuse),
            Err(m) => r matches StartAction::Refuse(Refusal::Config(e)) && e@ == m,
        },
        before.stage is Store && event is Done ==> (backends::chunk_complaint(
            before.config.chunk_size as nat,
            before.config.chunk_overlap as nat,
        ) matches Some(m) ==> (r matches StartAction::Refuse(Refusal::Config(e)) && e@ == m)),
        after.config == before.config,
{
}

/// A session begins exactly where the store holds anything, and the notice says how
/// many entries there are.
pub proof fn law_the_entries_are_counted(
    before: StartView,
    after: StartView,
    n: usize,
    r: StartAction,
)
    requires
        before.stage is Rows,
        start_step(before, after, StartEvent::Rows(n), r),
    ensures
        n == 0 ==> r == StartAction::Refuse(Refusal::NoDocuments),
        n > 0 ==> after.stage is Ready && (r matches StartAction::Ready { notice } && notice@
            == "Vector store initialized with "@ + number::decimal(n as nat) + " total entries."@),
{
}

/// The steps in which everything succeeds, from the building of the agent on:
/// the states and actions of a start.
pub open spec fn succeeds(views: Seq<StartView>, actions: Seq<StartAction>) -> bool {
    &&& views.len() == actions.len() + 1
    &&& forall|k: int|
        0 <= k < actions.len() ==> after_success(
            #[trigger] views[k],
            views[k + 1],
            actions[k],
        )
}

/// When the agent is built, all corpora of the command line are indexed one
/// after the other, each once, before the entries of the store are counted.
pub proof fn law_every_corpus_is_indexed_once(views: Seq<StartView>, actions: Seq<StartAction>)
    requires
        succeeds(views, actions),
        views[0].stage is Agent,
        wanted_corpora(views[0].config) is Ok,
        wanted_corpora(views[0].config)->Ok_0.len() <= usize::MAX,
        actions.len() == wanted_corpora(views[0].config)->Ok_0.len() + 1,
    ensures
        forall|k: int|
            0 <= k < actions.len() - 1 ==> #[trigger] actions[k] == StartAction::Index(k as usize),
        actions.last() == StartAction::CountRows,
        views.last().entries == wanted_corpora(views[0].config)->Ok_0,
{
    let n = wanted_corpora(views[0].config)->Ok_0.len() as int;
    lemma_indexing(views, actions, n);
    assert(after_success(views[n], views[n + 1], actions[n]));
    if n > 0 {
        assert(views[n].stage == Stage::Index((n - 1) as usize));
    }
}

/// After `k` steps the corpora before the one at work are indexed.
proof fn lemma_indexing(views: Seq<StartView>, actions: Seq<StartAction>, k: int)
    requires
        succeeds(views, actions),
        views[0].stage is Agent,
        wanted_corpora(views[0].config) is Ok,
        wanted_corpora(views[0].config)->Ok_0.len() <= usize::MAX,
        actions.len() == wanted_corpora(views[0].config)->Ok_0.len() + 1,
        0 <= k <= wanted_corpora(views[0].config)->Ok_0.len(),
    ensures
        forall|j: int| 0 <= j < k ==> #[trigger] actions[j] == StartAction::Index(j as usize),
        views[k].config == views[0].config,
        k == 0 ==> views[k].stage is Agent,
        k > 0 ==> views[k].stage == Stage::Index((k - 1) as usize) && views[k].entries
            == wanted_corpora(views[0].config)->Ok_0,
    decreases k,
{
    if k > 0 {
        lemma_indexing(views, actions, k - 1);
        assert(after_success(views[k - 1], views[(k - 1) + 1], actions[k - 1]));
    }
}

impl Startup {
    /// Begins the start of a session with the chat engine.
    pub fn begin(config: StartConfig) -> (r: (Startup, StartAction))
        ensures
            r.0@.wf(),
            r.0@ == at_start(config),
            comes_first(config, r.1),
    {
        let spec = match config.provider {
            Provider::Ollama => ChatSpec::Ollama { model: config.model.clone() },
            Provider::Deepseek => {
                let api_key = match &config.deepseek_api_key {
                    Some(k) => Some(k.clone()),
                    None => None,
                };
                ChatSpec::DeepSeek { model: config.deepseek_model.clone(), api_key }
            },
        };
        let params = config.params;
        let s = Startup { config, stage: Stage::Chat, entries: Vec::new() };
        assert(s@.entries =~= Seq::<EntryView>::empty());
        (s, StartAction::BuildChat { spec, params })
    }

    /// What follows an action that succeeded.
    fn succeed(&mut self) -> (r: StartAction)
        requires
            old(self)@.wf(),
        ensures
            final(self)@.wf(),
            after_success(old(self)@, final(self)@, r),
    {
        match self.stage {
            Stage::Chat => {
                self.stage = Stage::Embedder;
                let spec = match self.config.embedding_provider {
                    EmbeddingProvider::Ollama => EmbedSpec::Ollama {
                        model: self.config.embed_model.clone(),
                    },
                };
                StartAction::BuildEmbedder(spec)
            },
            Stage::Embedder => {
                self.stage = Stage::Store;
                StartAction::OpenStore { parsers: parsers::filtered_parsers(self.config.pdf_parser) }
            },
            Stage::Store => match backends::check_chunk_sizes(
                self.config.chunk_size,
                self.config.chunk_overlap,
            ) {
                Err(m) => {
                    self.stage = Stage::Over;
                    StartAction::Refuse(Refusal::Config(m))
                },
                Ok(()) => {
                    self.stage = Stage::Memory;
                    StartAction::BuildMemory(
                        ChatSpec::Ollama { model: self.config.memory_model.clone() },
                    )
                },
            },
            Stage::Memory => {
                self.stage = Stage::Agent;
                StartAction::BuildAgent
            },
            Stage::Agent => match corpus::parse_corpora(
                self.config.corpus_dirs.as_slice(),
                self.config.corpus_urls.as_slice(),
            ) {
                Err(m) => {
                    self.stage = Stage::Over;
                    StartAction::Refuse(Refusal::Config(m))
                },
                Ok(entries) => {
                    assert(entries.len() <= usize::MAX);
                    let none = entries.len() == 0;
                    self.entries = entries;
                    if none {
                        self.stage = Stage::Rows;
                        StartAction::CountRows
                    } else {
                        self.stage = Stage::Index(0);
                        StartAction::Index(0)
                    }
                },
            },
            Stage::Index(i) => {
                if i + 1 < self.entries.len() {
                    self.stage = Stage::Index(i + 1);
                    StartAction::Index(i + 1)
                } else {
                    self.stage = Stage::Rows;
                    StartAction::CountRows
                }
            },
            Stage::Rows | Stage::Ready | Stage::Over => {
                self.stage = Stage::Over;
                StartAction::Refuse(Refusal::Outside)
            },
        }
    }

    /// What is done next, given what became of the last action.
    pub fn next_action(&mut self, event: StartEvent) -> (r: StartAction)
        requires
            old(self)@.wf(),
        ensures
            final(self)@.wf(),
            start_step(old(self)@, final(self)@, event, r),
    {
        let stage = self.stage;
        match event {
            StartEvent::Done => self.succeed(),
            StartEvent::Cancelled => {
                self.stage = Stage::Over;
                match stage {
                    Stage::Index(_) => StartAction::Refuse(
                        Refusal::Cancelled("Indexing cancelled — exiting.".to_string()),
                    ),
                    _ => StartAction::Refuse(Refusal::Outside),
                }
            },
            StartEvent::Rows(n) => {
                self.stage = Stage::Over;
                match stage {
                    Stage::Rows => {
                        if n == 0 {
                            StartAction::Refuse(Refusal::NoDocuments)
                        } else {
                            let mut notice = "Vector store initialized with ".to_string();
                            let rows = number::show_usize(n);
                            notice.append(rows.as_str());
                            notice.append(" total entries.");
                            self.stage = Stage::Ready;
                            StartAction::Ready { notice }
                        }
                    },
                    _ => StartAction::Refuse(Refusal::Outside),
                }
            },
            StartEvent::Failed => {
                self.stage = Stage::Over;
                StartAction::Refuse(Refusal::Outside)
            },
        }
    }

    /// The corpora, from the moment they are known.
    pub fn entries(&self) -> (r: &Vec<CorpusEntry>)
        ensures
            corpus::entries(r@) == self@.entries,
    {
        &self.entries
    }

    /// Whether the session can begin.
    pub fn is_ready(&self) -> (r: bool)
        ensures
            r == (self@.stage is Ready),
    {
        self.stage == Stage::Ready
    }

    /// The session that begins: with the corpora, the PDF engine, the parameters
    /// and the way with overflows that the configuration asks for, with dynamic routing, and
    /// without anything attached or found.
    pub fn into_session(
        self,
        filter: String,
        rewriter: Option<Rewriter>,
        use_transcript: bool,
    ) -> (r: Session)
        requires
            self@.wf(),
            self@.stage is Ready,
        ensures
            r.corpora@.wf(),
            wanted_corpora(self@.config) == Ok::<Seq<EntryView>, Seq<char>>(r.corpora@.entries),
            r.corpora@.dynamic,
            session::begins(
                r,
                self@.config.pdf_parser,
                self@.config.mode,
                self@.config.params,
                filter,
                rewriter,
                use_transcript,
            ),
    {
        Session::begin(
            Corpora::new(self.entries),
            self.config.pdf_parser,
            self.config.mode,
            self.config.params,
            filter,
            rewriter,
            use_transcript,
        )
    }
}

} // verus!
