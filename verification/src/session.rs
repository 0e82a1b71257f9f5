//! The state of a session, and what each command does with it.

use vstd::prelude::*;

use crate::ansi;
use crate::attach;
use crate::attach::AttachStep;
use crate::attach::Attachment;
use crate::attach::AttachmentView;
use crate::attach::Attachments;
use crate::backends;
use crate::chat;
use crate::chat::ChatParams;
use crate::chat::ChatStatus;
use crate::chat::ChatStep;
use crate::command;
use crate::command::Command;
use crate::command::CommandView;
use crate::config;
use crate::config::AgentState;
use crate::config::SettingsView;
use crate::console;
use crate::corpora;
use crate::corpora::Corpora;
use crate::corpora::CorpusStep;
use crate::corpora::IngestStep;
use crate::embed;
use crate::embed::ChunkerStep;
use crate::embed::EmbedStatus;
use crate::embed::EmbedStep;
use crate::history;
use crate::history::HistStep;
use crate::log;
use crate::log::LogFilter;
use crate::log::LogStep;
use crate::memory;
use crate::memory::MemoryState;
use crate::memory::MemoryStep;
use crate::memory::Rewriter;
use crate::number;
use crate::papers;
use crate::papers::DownloadStep;
use crate::papers::GetAction;
use crate::papers::GetStep;
use crate::papers::Paper;
use crate::papers::PaperSearchStep;
use crate::papers::RunView;
use crate::parsers;
use crate::parsers::EpubParserBackend;
use crate::parsers::ParserState;
use crate::parsers::ParserStep;
use crate::parsers::PdfParserBackend;
use crate::parsers::Pipeline;
use crate::profile;
use crate::profile::ProfileStep;
use crate::prompt;
use crate::prompt::PromptStep;
use crate::prompt::Prompts;
use crate::query;
use crate::query::ContextSizeMode;
use crate::query::FoundChunk;
use crate::query::QueryAction;
use crate::query::QueryEvent;
use crate::query::QueryRun;
use crate::query::RefsStep;
use crate::ranges;
use crate::search;
use crate::search::SearchStatus;
use crate::search::SearchStep;
use crate::text;

verus! {

/// What a session keeps from one command to the next.
#[derive(Debug)]
pub struct Session {
    /// The documents that accompany the next question.
    pub attachments: Attachments,
    pub corpora: Corpora,
    pub parsers: ParserState,
    pub memory: MemoryState,
    pub log: LogFilter,
    /// What happens when a prompt does not fit into the context window.
    pub mode: ContextSizeMode,
    /// The parameters of the running chat engine.
    pub params: ChatParams,
    /// What the last search found that found anything: a search for papers or
    /// one by document. `/get` fetches from here.
    pub papers: Vec<Paper>,
    /// The chunks that the last question or search by document found.
    pub found: Vec<FoundChunk>,
}

/// What the agents report when a command begins.
#[derive(Debug)]
pub struct Status {
    pub chat: ChatStatus,
    pub search: SearchStatus,
    pub embed: EmbedStatus,
    pub chunker: String,
    pub prompts: Prompts,
}

/// What a command leads to.
#[derive(Debug)]
pub enum Step {
    /// These lines are shown.
    Say(Vec<String>),
    Attach(AttachStep),
    Download { url: String, step: DownloadStep },
    Get(GetStep),
    Scholar(PaperSearchStep),
    Arxiv(PaperSearchStep),
    Refs(RefsStep),
    Chat(ChatStep),
    Search(SearchStep),
    Embed(EmbedStep),
    Chunker(ChunkerStep),
    Memory(MemoryStep),
    Hist(HistStep),
    Prompt(PromptStep),
    Log(LogStep),
    Parser(ParserStep),
    Profile(ProfileStep),
    Corpus(CorpusStep),
    /// A question is asked, with the documents that accompany it; the run says
    /// what follows what becomes of it.
    Ask { question: String, attached: Vec<Attachment>, run: QueryRun },
    /// Nothing happens.
    Nothing,
}

/// What a command leads to, and the session after it: every command has its own
/// rule, and changes no part of the session but its own.
pub open spec fn executes(
    before: Session,
    after: Session,
    cmd: CommandView,
    status: Status,
    r: Step,
) -> bool {
    match cmd {
        CommandView::Attach(a) => after == (Session { attachments: after.attachments, ..before })
            && (r matches Step::Attach(s) && attach::attach_step(
            before.attachments@,
            after.attachments@,
            a,
            s,
        )),
        CommandView::Download(u) => after == before && (r matches Step::Download { url, step }
            && url@ == u && papers::download_step(u, step)),
        CommandView::GetPapers(n) => after == before && (r matches Step::Get(s)
            && papers::get_step(n, before.papers@.len(), s)),
        CommandView::Help => after == before && (r matches Step::Say(v) && text::texts(v@)
            =~= console::help_lines()),
        CommandView::Scholar(q) => after == before && (r matches Step::Scholar(s)
            && papers::scholar_step(q, s)),
        CommandView::SearchArxiv(q) => after == before && (r matches Step::Arxiv(s)
            && papers::arxiv_step(q, s)),
        CommandView::ExtractRefs(t) => after == before && (r matches Step::Refs(s)
            && query::refs_step(t, before.found@, s)),
        CommandView::Chat(a) => after == before && (r matches Step::Chat(s) && chat::chat_step(
            a,
            status.chat,
            s,
        )),
        CommandView::Search(a) => after == before && (r matches Step::Search(s)
            && search::search_step(a, status.search, s)),
        CommandView::Embed(a) => after == before && (r matches Step::Embed(s) && embed::embed_step(
            a,
            status.embed,
            s,
        )),
        CommandView::Chunker(a) => after == before && (r matches Step::Chunker(s)
            && embed::chunker_step(a, status.chunker@, s)),
        CommandView::Memory(a) => after == (Session { memory: after.memory, ..before })
            && after.memory@ == memory::memory_after(before.memory@, a) && (
        r matches Step::Memory(s) && memory::memory_step(before.memory@, a, s)),
        CommandView::Hist(a) => after == before && (r matches Step::Hist(s) && history::hist_step(
            a,
            s,
        )),
        CommandView::Parser(a) => after == (Session { parsers: after.parsers, ..before }) && (
        r matches Step::Parser(s) && parsers::parser_step(before.parsers, after.parsers, a, s)),
        CommandView::Profile(a) => after == before && (r matches Step::Profile(s)
            && profile::profile_step(a, s)),
        CommandView::Prompt(a) => after == before && (r matches Step::Prompt(s)
            && prompt::prompt_step(a, status.prompts, s)),
        CommandView::Corpus(a) => after == (Session { corpora: after.corpora, ..before }) && (
        r matches Step::Corpus(s) && corpora::corpus_step(before.corpora@, after.corpora@, a, s)),
        CommandView::Log(a) => after == (Session { log: after.log, ..before }) && (
        r matches Step::Log(s) && log::log_step(before.log.filter@, after.log.filter@, a, s)),
        CommandView::RagQuery(q) => after == (Session { attachments: after.attachments, ..before })
            && (r matches Step::Ask { question, attached, run } && question@ == q && (
            attach::attachment_views(attached@),
            after.attachments@,
        ) == attach::taken(before.attachments@) && run == (QueryRun {
            mode: before.mode,
            retried: false,
        })),
        CommandView::Unknown(c) => after == before && (r matches Step::Say(v) && text::texts(v@)
            =~= seq!["Unknown command: '"@ + c + "'"@]),
        CommandView::Exit => after == before && r == Step::Nothing,
    }
}

/// A session that begins: with the settings that were chosen, without anything
/// attached, found or said.
pub open spec fn begins(
    s: Session,
    pdf: PdfParserBackend,
    mode: ContextSizeMode,
    params: ChatParams,
    filter: String,
    rewriter: Option<Rewriter>,
    use_transcript: bool,
) -> bool {
    &&& s.attachments@ == Seq::<AttachmentView>::empty()
    &&& s.parsers == (ParserState { pdf, epub: EpubParserBackend::Epub })
    &&& s.memory == (MemoryState { rewriter, use_transcript, diffusion: None, turns: 0 })
    &&& s.log == (LogFilter { filter })
    &&& s.mode == mode
    &&& s.params == params
    &&& s.papers@ == Seq::<Paper>::empty()
    &&& s.found@ == Seq::<FoundChunk>::empty()
}

/// At the beginning of a session there is nothing to fetch and nothing to take
/// references from, a question goes alone, and what was chosen holds.
pub proof fn law_a_new_session_has_nothing_yet(
    before: Session,
    after: Session,
    pdf: PdfParserBackend,
    mode: ContextSizeMode,
    params: ChatParams,
    filter: String,
    rewriter: Option<Rewriter>,
    use_transcript: bool,
    q: Seq<char>,
    status: Status,
    r: Step,
)
    requires
        begins(before, pdf, mode, params, filter, rewriter, use_transcript),
    ensures
        executes(before, after, CommandView::GetPapers(q), status, r) ==> (r matches Step::Get(
            GetStep::Say(_),
        )),
        executes(before, after, CommandView::ExtractRefs(q), status, r) ==> (r matches Step::Refs(
            RefsStep::Say(_),
        )),
        executes(before, after, CommandView::RagQuery(q), status, r) ==> (r matches Step::Ask {
            attached,
            run,
            ..
        } && attached@.len() == 0 && run.mode == mode && !run.retried),
        before.parsers.pdf == pdf,
        before.params == params,
        before.log.filter == filter,
        before.memory.rewriter == rewriter,
        before.memory.use_transcript == use_transcript,
        before.memory.turns == 0,
        before.memory.diffusion is None,
{
    if let Step::Ask { attached, run, question } = r {
        if executes(before, after, CommandView::RagQuery(q), status, r) {
            assert(attach::attachment_views(attached@).len() == attached@.len());
        }
    }
}

/// A question takes all attachments with it, and no command other than
/// `/attach` and a question touches them.
pub proof fn law_attachments_go_with_the_question(
    before: Session,
    after: Session,
    cmd: CommandView,
    status: Status,
    r: Step,
)
    requires
        executes(before, after, cmd, status, r),
    ensures
        cmd is RagQuery ==> after.attachments@.len() == 0,
        !(cmd is RagQuery) && !(cmd is Attach) ==> after.attachments == before.attachments,
{
}

/// Swapping engines keeps the session: a chat engine, an embedder or a chunking
/// strategy can change without any loss, and a change of the memory agent, of
/// a parser or of a corpus touches nothing but that part.
pub proof fn law_swaps_keep_the_rest(
    before: Session,
    after: Session,
    cmd: CommandView,
    status: Status,
    r: Step,
)
    requires
        executes(before, after, cmd, status, r),
    ensures
        cmd is Chat || cmd is Embed || cmd is Chunker || cmd is Search || cmd is Prompt ==> after
            == before,
        cmd is Memory ==> after == (Session { memory: after.memory, ..before }),
        cmd is Parser ==> after == (Session { parsers: after.parsers, ..before }),
        cmd is Corpus ==> after == (Session { corpora: after.corpora, ..before }),
{
}

/// The corpora of a session stay valid whatever the command.
pub proof fn law_commands_keep_corpora_valid(
    before: Session,
    after: Session,
    cmd: CommandView,
    status: Status,
    r: Step,
)
    requires
        executes(before, after, cmd, status, r),
        before.corpora@.wf(),
    ensures
        after.corpora@.wf(),
{
    if let CommandView::Corpus(a) = cmd {
        if let Step::Corpus(s) = r {
            corpora::law_commands_keep_the_corpora(before.corpora@, after.corpora@, a, s);
        }
    }
}

/// The results of searches stay until the next search: no command deletes
/// them.
pub proof fn law_commands_keep_search_results(
    before: Session,
    after: Session,
    cmd: CommandView,
    status: Status,
    r: Step,
)
    requires
        executes(before, after, cmd, status, r),
    ensures
        after.papers == before.papers,
        after.found == before.found,
{
}

/// What remains after a search by document: its chunks, and, where there are
/// any, a result for each of them.
pub open spec fn remembers_similar(
    before: Session,
    after: Session,
    found: Seq<FoundChunk>,
) -> bool {
    &&& after.found@ == found
    &&& after == (Session { found: after.found, papers: after.papers, ..before })
    &&& if found.len() == 0 {
        after.papers == before.papers
    } else {
        papers::stand_for(after.papers@, found)
    }
}

/// `/get` works after a search by document as it does after a search for
/// papers: the numbers select from what was found, and only where nothing was
/// ever found are there no results.
pub proof fn law_get_follows_a_search_by_document(
    before: Session,
    searched: Session,
    found: Seq<FoundChunk>,
    after: Session,
    numbers: Seq<char>,
    status: Status,
    r: Step,
)
    requires
        remembers_similar(before, searched, found),
        found.len() > 0 || before.papers@.len() > 0,
        executes(searched, after, CommandView::GetPapers(numbers), status, r),
        numbers.len() > 0,
        ranges::selection(numbers) is Ok,
    ensures
        r matches Step::Get(GetStep::Fetch(v)) && v@ == ranges::selection(numbers)->Ok_0,
        after == searched,
{
}

/// A document that was found and is not known by an address has no download
/// address, and `/get` says so.
pub proof fn law_documents_without_an_address_are_named(
    papers: Seq<Paper>,
    found: Seq<FoundChunk>,
    before: RunView,
    after: RunView,
    r: GetAction,
)
    requires
        papers::stand_for(papers, found),
        before.is_open(),
        before.indices[before.position as int] < found.len(),
        !papers::is_web_address(found[before.indices[before.position as int] as int].document@),
        papers::get_action(before, after, papers, r),
    ensures
        after == before.after_failure(),
        r matches GetAction::Say(m) && m@ == papers::bracketed(
            (before.indices[before.position as int] + 1) as nat,
        ) + found[before.indices[before.position as int] as int].document@
            + " — no download URL available"@,
{
    let i = before.indices[before.position as int] as int;
    assert(papers::stands_for(papers[i], found[i]));
    ansi::law_plain_text_is_kept(papers::best_url(papers[i]));
}

/// The session after a `/chat` step: where an engine was built, its parameters
/// are the ones of the step.
pub open spec fn after_chat(before: Session, step: ChatStep, built: bool) -> Session {
    match chat::built_params(step) {
        Some(params) if built => Session { params, ..before },
        _ => before,
    }
}

/// A parameter that `/chat` sets reaches a profile that is saved afterwards, as
/// the only one, whatever was set before.
pub proof fn law_saved_profiles_hold_the_parameters(
    before: Session,
    asked: Session,
    args: Seq<char>,
    status: Status,
    step: ChatStep,
    s: SettingsView,
    agent: AgentState,
)
    requires
        executes(before, asked, CommandView::Chat(args), status, Step::Chat(step)),
        agent.params == after_chat(asked, step, true).params,
    ensures
        step matches ChatStep::MaxTokens(n) ==> config::synced(s, agent).params == (ChatParams {
            max_tokens: Some(n),
            seed: None,
        }),
        step matches ChatStep::Seed(n) ==> config::synced(s, agent).params == (ChatParams {
            max_tokens: None,
            seed: Some(n),
        }),
        step is Temperature || step is TopP || step is Swap ==> config::synced(s, agent).params
            == chat::no_params(),
        step is Say || step is SetContext || step is Refused ==> config::synced(s, agent).params
            == before.params,
{
}

/// An engine that could not be built changes nothing; one that was built has the
/// one parameter that it was built with.
pub proof fn law_only_built_engines_count(before: Session, step: ChatStep, built: bool)
    ensures
        !built ==> after_chat(before, step, built) == before,
        step is Say || step is SetContext || step is Refused ==> after_chat(before, step, built)
            == before,
        built ==> (step matches ChatStep::MaxTokens(n) ==> after_chat(before, step, built)
            == (Session { params: ChatParams { max_tokens: Some(n), seed: None }, ..before })),
        built ==> (step matches ChatStep::Seed(n) ==> after_chat(before, step, built)
            == (Session { params: ChatParams { max_tokens: None, seed: Some(n) }, ..before })),
        built && (step is Temperature || step is TopP || step is Swap) ==> after_chat(
            before,
            step,
            built,
        ) == (Session { params: ChatParams { max_tokens: None, seed: None }, ..before }),
{
}

/// A command that is not known is named in what is said of it, the farewell does
/// nothing, help shows the list of the commands, and none of them changes anything.
pub proof fn law_unknown_commands_change_nothing(
    before: Session,
    after: Session,
    c: Seq<char>,
    status: Status,
    r: Step,
)
    ensures
        executes(before, after, CommandView::Unknown(c), status, r) ==> after == before && (
        r matches Step::Say(v) && v@.len() == 1 && v@[0]@ == "Unknown command: '"@ + c + "'"@),
        executes(before, after, CommandView::Exit, status, r) ==> after == before && r
            == Step::Nothing,
        executes(before, after, CommandView::Help, status, r) ==> after == before && (
        r matches Step::Say(v) && text::texts(v@) == console::help_lines()),
{
    if let Step::Say(v) = r {
        if executes(before, after, CommandView::Unknown(c), status, r) {
            assert(text::texts(v@).len() == 1);
            assert(text::texts(v@)[0] == v@[0]@);
        }
    }
}

/// What the wish to add a document leads to.
#[derive(Debug)]
pub enum AddStep {
    /// The document is not added, for that reason.
    Refuse(String),
    Ingest(IngestStep),
}

/// What the wish to add a document leads to: it goes to its place where the
/// pipeline has stored chunks already, and is refused otherwise.
pub open spec fn add_step(
    before: Session,
    after: Session,
    url: Seq<char>,
    pipeline: Pipeline,
    r: AddStep,
) -> bool {
    match parsers::verdict(url, pipeline) {
        Ok(()) => after == (Session { corpora: after.corpora, ..before }) && (
        r matches AddStep::Ingest(s) && corpora::ingest_step(
            before.corpora@,
            after.corpora@,
            url,
            s,
        )),
        Err(e) => after == before && (r matches AddStep::Refuse(m) && m@ == e),
    }
}

/// Nothing is added under a pipeline that has stored nothing: neither does a
/// list of addresses grow, nor is a document ingested.
pub proof fn law_nothing_is_added_without_an_index(
    before: Session,
    after: Session,
    url: Seq<char>,
    pipeline: Pipeline,
    r: AddStep,
)
    requires
        add_step(before, after, url, pipeline, r),
        pipeline.stored == 0,
    ensures
        after == before,
        !(r is Ingest),
        r matches AddStep::Refuse(m) && m@ == "Cannot add "@ + url
            + ": no index exists for the current pipeline (parser="@ + pipeline.parser@
            + ", chunker="@ + pipeline.chunker@ + ", embedder="@ + pipeline.embedder@
            + "). Run '/embed index' first."@,
{
}

/// The session after what became of a question: an answer leaves its chunks,
/// everything else leaves the session as it was.
pub open spec fn after_question(before: Session, event: QueryEvent) -> Session {
    match event {
        QueryEvent::Answered { found, .. } => Session { found, ..before },
        _ => before,
    }
}

/// A line that begins with a command word reaches that command, with the rest of
/// the line as its argument, and no other part of the session than the one that
/// the command is for changes.
pub proof fn law_lines_reach_their_command(
    before: Session,
    after: Session,
    q: Seq<char>,
    status: Status,
    r: Step,
)
    requires
        text::is_tight(q),
    ensures
        executes(before, after, command::command_of("/attach"@ + " "@ + q), status, r) ==> (
        r matches Step::Attach(s) && attach::attach_step(
            before.attachments@,
            after.attachments@,
            q,
            s,
        )) && after == (Session { attachments: after.attachments, ..before }),
        executes(before, after, command::command_of("/chat"@ + " "@ + q), status, r) ==> (
        r matches Step::Chat(s) && chat::chat_step(q, status.chat, s)) && after == before,
        executes(before, after, command::command_of("/search"@ + " "@ + q), status, r) ==> (
        r matches Step::Search(s) && search::search_step(q, status.search, s)) && after == before,
        executes(before, after, command::command_of("/embed"@ + " "@ + q), status, r) ==> (
        r matches Step::Embed(s) && embed::embed_step(q, status.embed, s)) && after == before,
        executes(before, after, command::command_of("/chunker"@ + " "@ + q), status, r) ==> (
        r matches Step::Chunker(s) && embed::chunker_step(q, status.chunker@, s)) && after
            == before,
        executes(before, after, command::command_of("/memory"@ + " "@ + q), status, r) ==> (
        r matches Step::Memory(s) && memory::memory_step(before.memory@, q, s)) && after.memory@
            == memory::memory_after(before.memory@, q) && after == (Session {
            memory: after.memory,
            ..before
        }),
        executes(before, after, command::command_of("/hist"@ + " "@ + q), status, r) ==> (
        r matches Step::Hist(s) && history::hist_step(q, s)) && after == before,
        executes(before, after, command::command_of("/prompt"@ + " "@ + q), status, r) ==> (
        r matches Step::Prompt(s) && prompt::prompt_step(q, status.prompts, s)) && after
            == before,
        executes(before, after, command::command_of("/log"@ + " "@ + q), status, r) ==> (
        r matches Step::Log(s) && log::log_step(before.log.filter@, after.log.filter@, q, s))
            && after == (Session { log: after.log, ..before }),
        executes(before, after, command::command_of("/parser"@ + " "@ + q), status, r) ==> (
        r matches Step::Parser(s) && parsers::parser_step(before.parsers, after.parsers, q, s))
            && after == (Session { parsers: after.parsers, ..before }),
        executes(before, after, command::command_of("/corpus"@ + " "@ + q), status, r) ==> (
        r matches Step::Corpus(s) && corpora::corpus_step(before.corpora@, after.corpora@, q, s))
            && after == (Session { corpora: after.corpora, ..before }),
        executes(before, after, command::command_of("/profile"@ + " "@ + q), status, r) ==> (
        r matches Step::Profile(s) && profile::profile_step(q, s)) && after == before,
        executes(before, after, command::command_of("/refs"@ + " "@ + q), status, r) ==> (
        r matches Step::Refs(s) && query::refs_step(q, before.found@, s)) && after == before,
{
    command::law_the_rest_of_the_line_is_the_argument(q);
}

/// What is typed behind `/scholar` and `/arxiv` is searched for there, all of it;
/// what is typed behind `/download` is fetched; numbers behind `/get` select from
/// what was found; and what is no command is asked, as it was typed, with all
/// documents that were attached.
pub proof fn law_lines_do_what_they_say(
    before: Session,
    after: Session,
    q: Seq<char>,
    a: nat,
    b: nat,
    status: Status,
    r: Step,
)
    requires
        text::is_tight(q),
        1 <= a <= b <= usize::MAX,
    ensures
        executes(before, after, command::command_of("/scholar"@ + " "@ + q), status, r) ==> (
        r matches Step::Scholar(PaperSearchStep::Search(s)) && s@ == q) && after == before,
        executes(before, after, command::command_of("/arxiv"@ + " "@ + q), status, r) ==> (
        r matches Step::Arxiv(PaperSearchStep::Search(s)) && s@ == q) && after == before,
        !q.contains('\u{1b}') && executes(
            before,
            after,
            command::command_of("/download"@ + " "@ + q),
            status,
            r,
        ) ==> (r matches Step::Download { url, step: DownloadStep::Fetch { extension } } && url@
            == q && extension@ == papers::extension_of(q)) && after == before,
        before.papers@.len() > 0 && executes(
            before,
            after,
            command::command_of(
                "/get"@ + " "@ + (number::decimal(a) + seq!['-'] + number::decimal(b)),
            ),
            status,
            r,
        ) ==> (r matches Step::Get(GetStep::Fetch(v)) && v@.len() == b - a + 1 && (forall|i: int|
            0 <= i < v@.len() ==> #[trigger] v@[i] + 1 == a + i)) && after == before,
        q[0] != '/' && q != "exit"@ && q != "quit"@ && executes(
            before,
            after,
            command::command_of(q),
            status,
            r,
        ) ==> (r matches Step::Ask { question, attached, run } && question@ == q
            && attach::attachment_views(attached@) == before.attachments@ && run.mode
            == before.mode && !run.retried) && after.attachments@.len() == 0 && after == (Session {
            attachments: after.attachments,
            ..before
        }),
{
    command::law_the_rest_of_the_line_is_the_argument(q);
    let range = number::decimal(a) + seq!['-'] + number::decimal(b);
    number::lemma_decimal_is_plain(a);
    number::lemma_decimal_is_plain(b);
    text::lemma_word_is_tight(number::decimal(a));
    text::lemma_word_is_tight(number::decimal(b));
    assert(range[0] == number::decimal(a)[0]);
    assert(range[range.len() - 1] == number::decimal(b)[number::decimal(b).len() - 1]);
    command::law_the_rest_of_the_line_is_the_argument(range);
    ranges::law_hyphen_selects_all_between(a, b);
    if q[0] != '/' && q != "exit"@ && q != "quit"@ {
        command::law_plain_text_is_asked_as_it_stands(Seq::empty(), q, Seq::empty());
        assert(Seq::<char>::empty() + q + Seq::<char>::empty() =~= q);
    }
}

/// The session after a search for papers.
pub open spec fn after_paper_search(before: Session, found: Vec<Paper>) -> Session {
    if found@.len() == 0 {
        before
    } else {
        Session { papers: found, ..before }
    }
}

/// Papers that were found take the place of the earlier results, all of them and
/// in their order; a search that finds nothing leaves those.
pub proof fn law_found_papers_are_remembered(before: Session, found: Vec<Paper>)
    ensures
        found@.len() > 0 ==> after_paper_search(before, found).papers@ == found@,
        found@.len() == 0 ==> after_paper_search(before, found) == before,
        after_paper_search(before, found) == (Session {
            papers: after_paper_search(before, found).papers,
            ..before
        }),
{
}

/// An answer leaves the chunks that it came from, and nothing else that becomes of
/// a question leaves anything.
pub proof fn law_answers_leave_their_chunks(before: Session, event: QueryEvent)
    ensures
        event matches QueryEvent::Answered { found, .. } ==> after_question(before, event)
            == (Session { found, ..before }),
        !(event is Answered) ==> after_question(before, event) == before,
{
}

/// After a search by document that found something, each result carries the name
/// of its document, in their order, and can be fetched where that name is an
/// address.
pub proof fn law_similar_documents_become_results(
    before: Session,
    after: Session,
    found: Seq<FoundChunk>,
    i: int,
)
    requires
        remembers_similar(before, after, found),
        0 <= i < found.len(),
    ensures
        after.found@ == found,
        after.papers@.len() == found.len(),
        after.papers@[i].title@ == found[i].document@,
        "http://"@.is_prefix_of(found[i].document@) || "https://"@.is_prefix_of(found[i].document@)
            ==> (after.papers@[i].pdf_url matches Some(u) && u@ == found[i].document@),
        !"http://"@.is_prefix_of(found[i].document@) && !"https://"@.is_prefix_of(
            found[i].document@,
        ) ==> papers::best_url(after.papers@[i]).len() == 0,
{
    assert(papers::stands_for(after.papers@[i], found[i]));
}

/// A document joins a corpus only where the pipeline has stored chunks, and then
/// exactly as its route says.
pub proof fn law_documents_are_added_along_their_route(
    before: Session,
    after: Session,
    url: Seq<char>,
    pipeline: Pipeline,
    r: AddStep,
)
    requires
        add_step(before, after, url, pipeline, r),
    ensures
        r is Refuse <==> pipeline.stored == 0,
        r is Refuse ==> after == before,
        r matches AddStep::Ingest(s) ==> corpora::ingest_step(
            before.corpora@,
            after.corpora@,
            url,
            s,
        ),
        after == (Session { corpora: after.corpora, ..before }),
{
}

impl Session {
    /// A session at its beginning: nothing is attached, and nothing was found.
    pub fn begin(
        corpora: Corpora,
        pdf: PdfParserBackend,
        mode: ContextSizeMode,
        params: ChatParams,
        filter: String,
        rewriter: Option<Rewriter>,
        use_transcript: bool,
    ) -> (r: Session)
        ensures
            r.corpora == corpora,
            begins(r, pdf, mode, params, filter, rewriter, use_transcript),
    {
        Session {
            attachments: Attachments::new(),
            corpora,
            parsers: ParserState { pdf, epub: EpubParserBackend::Epub },
            memory: MemoryState { rewriter, use_transcript, diffusion: None, turns: 0 },
            log: LogFilter { filter },
            mode,
            params,
            papers: Vec::new(),
            found: Vec::new(),
        }
    }

    /// Executes a command.
    pub fn execute(&mut self, cmd: Command, status: &Status) -> (r: Step)
        ensures
            executes(*old(self), *final(self), cmd@, *status, r),
            r matches Step::Get(GetStep::Fetch(v)) ==> ranges::all_numbered(v@),
    {
        match cmd {
            Command::Attach(a) => Step::Attach(self.attachments.cmd_attach(a.as_str())),
            Command::Download(url) => {
                let step = papers::cmd_download(url.as_str());
                Step::Download { url, step }
            },
            Command::GetPapers(n) => Step::Get(
                papers::cmd_get_papers(n.as_str(), self.papers.len()),
            ),
            Command::Help => Step::Say(console::cmd_help()),
            Command::Scholar(q) => Step::Scholar(papers::cmd_search_scholar(q.as_str())),
            Command::SearchArxiv(q) => Step::Arxiv(papers::cmd_search_arxiv(q.as_str())),
            Command::ExtractRefs(t) => Step::Refs(
                query::cmd_extract_refs(t.as_str(), &self.found),
            ),
            Command::Chat(a) => Step::Chat(chat::cmd_chat(a.as_str(), &status.chat)),
            Command::Search(a) => Step::Search(search::cmd_search(a.as_str(), &status.search)),
            Command::Embed(a) => Step::Embed(embed::cmd_embed(a.as_str(), &status.embed)),
            Command::Chunker(a) => Step::Chunker(
                embed::cmd_chunker(a.as_str(), status.chunker.as_str()),
            ),
            Command::Memory(a) => Step::Memory(self.memory.cmd_memory(a.as_str())),
            Command::Hist(a) => Step::Hist(history::cmd_hist(a.as_str())),
            Command::Parser(a) => Step::Parser(self.parsers.cmd_parser(a.as_str())),
            Command::Profile(a) => Step::Profile(profile::cmd_profile(a.as_str())),
            Command::Prompt(a) => Step::Prompt(prompt::cmd_prompt(a.as_str(), &status.prompts)),
            Command::Corpus(a) => Step::Corpus(self.corpora.cmd_corpus(a.as_str())),
            Command::Log(a) => Step::Log(self.log.cmd_log(a.as_str())),
            Command::RagQuery(question) => {
                let attached = self.attachments.take();
                Step::Ask { question, attached, run: QueryRun::new(self.mode) }
            },
            Command::Unknown(c) => {
                let mut m = "Unknown command: '".to_string();
                m.append(c.as_str());
                m.append("'");
                Step::Say(vec![m])
            },
            Command::Exit => Step::Nothing,
        }
    }

    /// Semantic Scholar found these papers: they are listed, and remembered
    /// where there are any.
    pub fn scholar_found(&mut self, found: Vec<Paper>) -> (r: Vec<String>)
        ensures
            text::texts(r@) == papers::result_lines(found@, "\nResults:"@),
            *final(self) == after_paper_search(*old(self), found),
    {
        let lines = papers::show_scholar_results(&found);
        if found.len() > 0 {
            self.papers = found;
        }
        lines
    }

    /// arXiv found these papers: they are listed, and remembered where there
    /// are any.
    pub fn arxiv_found(&mut self, found: Vec<Paper>) -> (r: Vec<String>)
        ensures
            text::texts(r@) == papers::result_lines(found@, "\nResults (arXiv):"@),
            *final(self) == after_paper_search(*old(self), found),
    {
        let lines = papers::show_arxiv_results(&found);
        if found.len() > 0 {
            self.papers = found;
        }
        lines
    }

    /// A search by document found these chunks: `/refs` can use them, and where
    /// there are any, `/get` selects from their documents.
    pub fn similar_found(&mut self, found: Vec<FoundChunk>)
        ensures
            remembers_similar(*old(self), *final(self), found@),
    {
        if found.len() > 0 {
            self.papers = papers::results_of(&found);
        }
        self.found = found;
    }

    /// A `/chat` step was carried out; `built` says whether it gave a new engine.
    pub fn chat_outcome(&mut self, step: &ChatStep, built: bool)
        ensures
            *final(self) == after_chat(*old(self), *step, built),
    {
        if built {
            if let Some(params) = step.params() {
                self.params = params;
            }
        }
    }

    /// What follows what became of a question. The chunks of an answer are
    /// remembered, so that `/refs` can use them.
    pub fn question_outcome(&mut self, run: &mut QueryRun, event: QueryEvent) -> (r: QueryAction)
        ensures
            *final(self) == after_question(*old(self), event),
            query::query_step(*old(run), *final(run), event, r),
    {
        let action = run.next_action(&event);
        if let QueryEvent::Answered { found, .. } = event {
            self.found = found;
        }
        action
    }

    /// The parser whose pipeline must have stored chunks before documents of a
    /// format are added, or the error where no parser reads the format.
    pub fn pipeline_parser(&self, ext: &str) -> (r: Result<String, String>)
        ensures
            match parsers::guarded(parsers::kept(backends::parser_list(), self.parsers.pdf), ext@) {
                Ok(name) => r matches Ok(p) && p@ == name,
                Err(m) => r matches Err(e) && e@ == m,
            },
    {
        parsers::guard_parser(&parsers::filtered_parsers(self.parsers.pdf), ext)
    }

    /// Starts to add the document at an address, where the pipeline has stored
    /// chunks already.
    pub fn add_document(&mut self, url: &str, pipeline: &Pipeline) -> (r: AddStep)
        ensures
            add_step(*old(self), *final(self), url@, *pipeline, r),
            old(self).corpora@.wf() ==> final(self).corpora@.wf() && !(r matches AddStep::Ingest(
                IngestStep::Fail(_),
            )),
    {
        match pipeline.guard(url) {
            Ok(()) => AddStep::Ingest(self.corpora.ingest_web_url(url)),
            Err(e) => AddStep::Refuse(e),
        }
    }
}

} // verus!
