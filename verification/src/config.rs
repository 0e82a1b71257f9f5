//! Configuration: what the command line means, what a demonstration changes,
//! and how the running state and saved profiles flow into it.

use vstd::prelude::*;

use crate::chat::ChatParams;
use crate::parsers::PdfParserBackend;
use crate::query::ContextSizeMode;
use crate::text;

verus! {

/// The service behind the chat engine.
#[derive(Debug, Clone, Copy, PartialEq, Eq, Structural)]
pub enum Provider {
    Ollama,
    Deepseek,
}

/// The service behind the embedder.
#[derive(Debug, Clone, Copy, PartialEq, Eq, Structural)]
pub enum EmbeddingProvider {
    Ollama,
}

/// The service that a name stands for; an unknown name means Ollama.
pub open spec fn provider_of(name: Seq<char>) -> Provider {
    if name == "deepseek"@ {
        Provider::Deepseek
    } else {
        Provider::Ollama
    }
}

/// What happens on a context overflow; an unknown name means that the budget
/// shrinks.
pub open spec fn mode_of(name: Seq<char>) -> ContextSizeMode {
    if name == "forced"@ {
        ContextSizeMode::Forced
    } else {
        ContextSizeMode::Auto
    }
}

/// One name stands for DeepSeek, and one makes an overflow an error; with all
/// others things are as they are by default.
pub proof fn law_one_name_each(name: Seq<char>)
    ensures
        provider_of(name) == Provider::Deepseek <==> name == "deepseek"@,
        mode_of(name) == ContextSizeMode::Forced <==> name == "forced"@,
{
}

/// The service that a name stands for.
pub fn chat_provider(name: &str) -> (r: Provider)
    ensures
        r == provider_of(name@),
{
    if text::same(name, "deepseek") {
        Provider::Deepseek
    } else {
        Provider::Ollama
    }
}

/// The service that a name stands for. This build has one only.
pub fn embedding_provider(_name: &str) -> (r: EmbeddingProvider)
    ensures
        r == EmbeddingProvider::Ollama,
{
    EmbeddingProvider::Ollama
}

/// What happens on a context overflow; an unknown name means that the budget
/// shrinks.
pub fn context_size_mode(name: &str) -> (r: ContextSizeMode)
    ensures
        r == mode_of(name@),
{
    if text::same(name, "forced") {
        ContextSizeMode::Forced
    } else {
        ContextSizeMode::Auto
    }
}

/// The workspace of a command line and the directory corpora that it asks for:
///
/// - a folder is the workspace and a corpus called `folder`;
/// - a workspace alone brings no corpus;
/// - with neither, the current directory is the workspace, and a corpus called
///   `folder` unless corpora were named.
pub open spec fn resolved(
    folder: Option<Seq<char>>,
    workspace: Option<Seq<char>>,
    dirs: Seq<Seq<char>>,
    urls: Seq<Seq<char>>,
) -> (Seq<char>, Seq<Seq<char>>) {
    match folder {
        Some(f) => (f, dirs.push("folder="@ + f)),
        None => match workspace {
            Some(w) => (w, dirs),
            None => if dirs.len() == 0 && urls.len() == 0 {
                ("."@, dirs.push("folder=."@))
            } else {
                ("."@, dirs)
            },
        },
    }
}

/// A folder is short for a workspace and a directory corpus called `folder`
/// behind the others.
pub proof fn law_folder_is_a_shortcut(
    folder: Seq<char>,
    workspace: Option<Seq<char>>,
    dirs: Seq<Seq<char>>,
    urls: Seq<Seq<char>>,
)
    ensures
        resolved(Some(folder), workspace, dirs, urls) == resolved(
            None,
            Some(folder),
            dirs.push("folder="@ + folder),
            urls,
        ),
{
}

/// Nothing at all means the current directory as a folder.
pub proof fn law_bare_invocation_is_the_current_folder()
    ensures
        resolved(None, None, Seq::empty(), Seq::empty()) == resolved(
            Some("."@),
            None,
            Seq::empty(),
            Seq::empty(),
        ),
{
    reveal_strlit("folder=");
    reveal_strlit(".");
    reveal_strlit("folder=.");
    assert("folder="@ + "."@ =~= "folder=."@);
}

/// The folder, else the workspace, else the current directory is the workspace;
/// the directories that were named all stay, in their order, and at most one more
/// stands behind them.
pub proof fn law_named_directories_stay(
    folder: Option<Seq<char>>,
    workspace: Option<Seq<char>>,
    dirs: Seq<Seq<char>>,
    urls: Seq<Seq<char>>,
)
    ensures
        ({
            let (ws, out) = resolved(folder, workspace, dirs, urls);
            &&& ws == (match folder {
                Some(f) => f,
                None => match workspace {
                    Some(w) => w,
                    None => seq!['.'],
                },
            })
            &&& out.len() >= dirs.len()
            &&& out.take(dirs.len() as int) == dirs
            &&& folder matches Some(f) ==> out.len() == dirs.len() + 1 && out[dirs.len() as int]
                == "folder="@ + f
            &&& folder is None && workspace is Some ==> out == dirs
            &&& folder is None && workspace is None && (dirs.len() > 0 || urls.len() > 0) ==> out
                == dirs
            &&& folder is None && workspace is None && dirs.len() == 0 && urls.len() == 0
                ==> out.len() == 1 && out[0] == "folder="@ + seq!['.']
        }),
{
    let (ws, out) = resolved(folder, workspace, dirs, urls);
    assert(out.take(dirs.len() as int) =~= dirs);
    reveal_strlit(".");
    reveal_strlit("folder=");
    reveal_strlit("folder=.");
    assert("."@ =~= seq!['.']);
    assert("folder=."@ =~= "folder="@ + seq!['.']);
}

/// The workspace and the directory corpora of a command line.
pub fn resolve_workspace_and_corpora(
    folder: Option<&str>,
    workspace: Option<&str>,
    corpus_dirs: Vec<String>,
    corpus_urls: &[String],
) -> (r: (String, Vec<String>))
    ensures
        (r.0@, text::texts(r.1@)) == resolved(
            text::opt_str(folder),
            text::opt_str(workspace),
            text::texts(corpus_dirs@),
            text::texts(corpus_urls@),
        ),
{
    let ghost dirs = text::texts(corpus_dirs@);
    let mut out = corpus_dirs;
    match folder {
        Some(f) => {
            let mut m = "folder=".to_string();
            m.append(f);
            out.push(m);
            assert(text::texts(out@) =~= dirs.push("folder="@ + f@));
            (f.to_owned(), out)
        },
        None => match workspace {
            Some(w) => (w.to_owned(), out),
            None => {
                if out.len() == 0 && corpus_urls.len() == 0 {
                    out.push("folder=.".to_string());
                    assert(text::texts(out@) =~= dirs.push("folder=."@));
                }
                (".".to_string(), out)
            },
        },
    }
}

/// Whether a command line with so many directories and addresses names corpora.
pub open spec fn names_corpora(dirs: nat, urls: nat) -> bool {
    dirs > 0 || urls > 0
}

/// One directory or one address is enough, and without either there are none.
pub proof fn law_one_argument_names_a_corpus(dirs: nat, urls: nat)
    ensures
        !names_corpora(0, 0),
        names_corpora(dirs + 1, urls),
        names_corpora(dirs, urls + 1),
{
}

/// Whether the command line names corpora.
pub fn has_explicit_corpora(corpus_dirs: &[String], corpus_urls: &[String]) -> (r: bool)
    ensures
        r == names_corpora(corpus_dirs@.len(), corpus_urls@.len()),
{
    corpus_dirs.len() > 0 || corpus_urls.len() > 0
}

/// The directory corpora of a demonstration: the book, and behind it the
/// corpora that were named.
pub open spec fn demo_corpora_of(
    explicit: bool,
    book: Seq<char>,
    dirs: Seq<Seq<char>>,
) -> Seq<Seq<char>> {
    let first = seq!["book="@ + book];
    if explicit {
        first + dirs
    } else {
        first
    }
}

/// A demonstration keeps every directory that was named and drops the one that
/// a bare command line implies.
pub proof fn law_demonstration_keeps_named_corpora(
    book: Seq<char>,
    dirs: Seq<Seq<char>>,
    urls: Seq<Seq<char>>,
)
    ensures
        demo_corpora_of(
            dirs.len() > 0 || urls.len() > 0,
            book,
            resolved(None, None, dirs, urls).1,
        ) == seq!["book="@ + book] + dirs,
{
    let first = seq!["book="@ + book];
    if dirs.len() == 0 {
        assert(first + dirs =~= first);
    }
}

/// The directory corpora of a demonstration.
pub fn demo_corpora(explicit: bool, book: &str, corpus_dirs: Vec<String>) -> (r: Vec<String>)
    ensures
        text::texts(r@) == demo_corpora_of(explicit, book@, text::texts(corpus_dirs@)),
{
    let mut m = "book=".to_string();
    m.append(book);
    let mut out: Vec<String> = Vec::new();
    out.push(m);
    let ghost dirs = text::texts(corpus_dirs@);
    assert(text::texts(out@) =~= seq!["book="@ + book@]);
    if explicit {
        let mut rest = corpus_dirs;
        out.append(&mut rest);
        assert(text::texts(out@) =~= seq!["book="@ + book@] + dirs);
    }
    out
}

/// The chat engine in the configuration. Each service has a model of its own;
/// the one of the other service is kept.
#[derive(Debug)]
pub struct ChatChoice {
    pub provider: Provider,
    /// The model where the service is Ollama.
    pub model: String,
    /// The model where the service is DeepSeek.
    pub deepseek_model: String,
}

/// The mathematical value of a [`ChatChoice`].
pub struct ChatChoiceView {
    pub provider: Provider,
    pub model: Seq<char>,
    pub deepseek_model: Seq<char>,
}

impl View for ChatChoice {
    type V = ChatChoiceView;

    open spec fn view(&self) -> ChatChoiceView {
        ChatChoiceView {
            provider: self.provider,
            model: self.model@,
            deepseek_model: self.deepseek_model@,
        }
    }
}

/// Whether a running engine, by its name, is that of DeepSeek.
pub open spec fn is_deepseek(backend: Seq<char>) -> bool {
    text::same_ignoring_case(backend, "deepseek"@)
}

/// The choice that describes an engine with that name and that model.
pub open spec fn describing(
    c: ChatChoiceView,
    backend: Seq<char>,
    model: Seq<char>,
) -> ChatChoiceView {
    if is_deepseek(backend) {
        ChatChoiceView { provider: Provider::Deepseek, deepseek_model: model, ..c }
    } else {
        ChatChoiceView { provider: Provider::Ollama, model, ..c }
    }
}

impl ChatChoice {
    /// Makes the choice describe a running engine.
    pub fn describe(&mut self, backend: &str, model: &str)
        ensures
            final(self)@ == describing(old(self)@, backend@, model@),
    {
        if text::eq_ignore_ascii_case(backend, "deepseek") {
            self.provider = Provider::Deepseek;
            self.deepseek_model = model.to_owned();
        } else {
            self.provider = Provider::Ollama;
            self.model = model.to_owned();
        }
    }
}

/// The part of the configuration that changes while a session runs.
#[derive(Debug)]
pub struct Settings {
    pub workspace: String,
    pub chat: ChatChoice,
    pub params: ChatParams,
    pub context_tokens: usize,
    pub embed_model: String,
    pub top_k: usize,
    pub memory_model: String,
    pub pdf_parser: PdfParserBackend,
}

/// The mathematical value of [`Settings`].
pub struct SettingsView {
    pub workspace: Seq<char>,
    pub chat: ChatChoiceView,
    pub params: ChatParams,
    pub context_tokens: nat,
    pub embed_model: Seq<char>,
    pub top_k: nat,
    pub memory_model: Seq<char>,
    pub pdf_parser: PdfParserBackend,
}

impl View for Settings {
    type V = SettingsView;

    open spec fn view(&self) -> SettingsView {
        SettingsView {
            workspace: self.workspace@,
            chat: self.chat@,
            params: self.params,
            context_tokens: self.context_tokens as nat,
            embed_model: self.embed_model@,
            top_k: self.top_k as nat,
            memory_model: self.memory_model@,
            pdf_parser: self.pdf_parser,
        }
    }
}

/// What the running agents use.
#[derive(Debug)]
pub struct AgentState {
    /// The name of the chat engine.
    pub chat_backend: String,
    pub chat_model: String,
    /// The parameters of the chat engine.
    pub params: ChatParams,
    pub context_tokens: usize,
    pub embed_model: String,
    pub top_k: usize,
    /// The model that rewrites questions, if one does.
    pub rewriter_model: Option<String>,
    pub pdf_parser: PdfParserBackend,
}

/// The settings after the running state was taken over.
pub open spec fn synced(s: SettingsView, agent: AgentState) -> SettingsView {
    SettingsView {
        workspace: s.workspace,
        chat: describing(s.chat, agent.chat_backend@, agent.chat_model@),
        params: agent.params,
        context_tokens: agent.context_tokens as nat,
        embed_model: agent.embed_model@,
        top_k: agent.top_k as nat,
        memory_model: match agent.rewriter_model {
            Some(m) => m@,
            None => s.memory_model,
        },
        pdf_parser: agent.pdf_parser,
    }
}

/// The settings after a profile was loaded.
pub open spec fn loaded(s: SettingsView, profile: SettingsView) -> SettingsView {
    SettingsView { workspace: s.workspace, ..profile }
}

/// Loading a profile never moves the session to another workspace; everything
/// else comes from the profile.
pub proof fn law_profiles_keep_the_workspace(s: SettingsView, profile: SettingsView)
    ensures
        loaded(s, profile).workspace == s.workspace,
        loaded(loaded(s, profile), profile) == loaded(s, profile),
        profile.workspace == s.workspace ==> loaded(s, profile) == profile,
{
}

/// A profile that was saved from the running state and loaded again gives the
/// running state back.
pub proof fn law_saved_state_is_restored(s: SettingsView, agent: AgentState, later: SettingsView)
    requires
        later.workspace == s.workspace,
    ensures
        loaded(later, synced(s, agent)) == synced(s, agent),
{
}

/// A choice that describes a running engine names its service and its model, and
/// keeps the model of the other service.
pub proof fn law_a_description_names_the_engine(
    c: ChatChoiceView,
    backend: Seq<char>,
    model: Seq<char>,
)
    ensures
        is_deepseek("DeepSeek"@),
        !is_deepseek("Ollama"@),
        is_deepseek(backend) ==> describing(c, backend, model).provider == Provider::Deepseek
            && describing(c, backend, model).deepseek_model == model && describing(
            c,
            backend,
            model,
        ).model == c.model,
        !is_deepseek(backend) ==> describing(c, backend, model).provider == Provider::Ollama
            && describing(c, backend, model).model == model && describing(
            c,
            backend,
            model,
        ).deepseek_model == c.deepseek_model,
{
    reveal_strlit("DeepSeek");
    reveal_strlit("deepseek");
    reveal_strlit("Ollama");
    assert(text::ascii_lowered("DeepSeek"@) =~= text::ascii_lowered("deepseek"@));
    assert(text::ascii_lowered("Ollama"@).len() != text::ascii_lowered("deepseek"@).len());
}

/// What is taken over from the running state is what runs; without a rewriter the
/// model of the memory agent stays, and the workspace always does.
pub proof fn law_the_running_state_is_taken_over(s: SettingsView, agent: AgentState)
    ensures
        synced(s, agent).workspace == s.workspace,
        synced(s, agent).context_tokens == agent.context_tokens,
        synced(s, agent).embed_model == agent.embed_model@,
        synced(s, agent).top_k == agent.top_k,
        synced(s, agent).params == agent.params,
        synced(s, agent).pdf_parser == agent.pdf_parser,
        agent.rewriter_model matches Some(m) ==> synced(s, agent).memory_model == m@,
        agent.rewriter_model is None ==> synced(s, agent).memory_model == s.memory_model,
        is_deepseek(agent.chat_backend@) ==> synced(s, agent).chat.deepseek_model
            == agent.chat_model@ && synced(s, agent).chat.provider == Provider::Deepseek,
        !is_deepseek(agent.chat_backend@) ==> synced(s, agent).chat.model == agent.chat_model@
            && synced(s, agent).chat.provider == Provider::Ollama,
{
}

/// Everything but the workspace comes from the profile that is loaded.
pub proof fn law_a_profile_brings_all_but_the_workspace(s: SettingsView, profile: SettingsView)
    ensures
        loaded(s, profile).workspace == s.workspace,
        loaded(s, profile).chat == profile.chat,
        loaded(s, profile).params == profile.params,
        loaded(s, profile).context_tokens == profile.context_tokens,
        loaded(s, profile).embed_model == profile.embed_model,
        loaded(s, profile).top_k == profile.top_k,
        loaded(s, profile).memory_model == profile.memory_model,
        loaded(s, profile).pdf_parser == profile.pdf_parser,
{
}

/// The settings of a demonstration.
pub open spec fn demonstrating(s: SettingsView) -> SettingsView {
    SettingsView {
        chat: ChatChoiceView { model: "llama3.2:3b"@, ..s.chat },
        context_tokens: 4096,
        ..s
    }
}

/// A demonstration has the small model and a window of 4096 tokens, whatever was
/// configured, and changes nothing else.
pub proof fn law_a_demonstration_is_small(s: SettingsView)
    ensures
        demonstrating(s).chat.model == "llama3.2:3b"@,
        demonstrating(s).context_tokens == 4096,
        demonstrating(demonstrating(s)) == demonstrating(s),
        demonstrating(s).workspace == s.workspace,
        demonstrating(s).chat.provider == s.chat.provider,
        demonstrating(s).chat.deepseek_model == s.chat.deepseek_model,
        demonstrating(s).embed_model == s.embed_model,
        demonstrating(s).top_k == s.top_k,
        demonstrating(s).memory_model == s.memory_model,
        demonstrating(s).params == s.params,
        demonstrating(s).pdf_parser == s.pdf_parser,
{
}

impl Settings {
    /// Takes over what the running agents use, so that a saved profile shows
    /// it.
    pub fn sync_config_from_agent(&mut self, agent: &AgentState)
        ensures
            final(self)@ == synced(old(self)@, *agent),
    {
        self.chat.describe(agent.chat_backend.as_str(), agent.chat_model.as_str());
        self.params = agent.params;
        self.embed_model = agent.embed_model.clone();
        self.top_k = agent.top_k;
        self.context_tokens = agent.context_tokens;
        if let Some(m) = &agent.rewriter_model {
            self.memory_model = m.clone();
        }
        self.pdf_parser = agent.pdf_parser;
    }

    /// Loads a profile; the workspace stays.
    pub fn load_profile(&mut self, profile: Settings)
        ensures
            final(self)@ == loaded(old(self)@, profile@),
    {
        self.chat = profile.chat;
        self.params = profile.params;
        self.context_tokens = profile.context_tokens;
        self.embed_model = profile.embed_model;
        self.top_k = profile.top_k;
        self.memory_model = profile.memory_model;
        self.pdf_parser = profile.pdf_parser;
    }

    /// Pins the small chat model and the small context window of a
    /// demonstration.
    pub fn apply_demo_setup(&mut self)
        ensures
            final(self)@ == demonstrating(old(self)@),
    {
        self.chat.model = "llama3.2:3b".to_string();
        self.context_tokens = 4096;
    }
}

} // verus!
