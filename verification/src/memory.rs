//! `/memory`: query rewriting, the transcript of the conversation and what is
//! carried over from earlier sessions.

use vstd::prelude::*;

use crate::backends;
use crate::backends::ChatSpec;
use crate::number;
use crate::text;

verus! {

/// The agent that rewrites questions.
#[derive(Debug)]
pub struct Rewriter {
    pub backend: String,
    pub model: String,
}

/// How the session remembers.
#[derive(Debug)]
pub struct MemoryState {
    /// The agent that rewrites questions, if there is one.
    pub rewriter: Option<Rewriter>,
    /// Whether the conversation becomes part of the prompt.
    pub use_transcript: bool,
    /// The name of the way in which earlier sessions are carried over, if they
    /// are.
    pub diffusion: Option<String>,
    /// The number of turns of the conversation.
    pub turns: usize,
}

/// The mathematical value of a [`MemoryState`].
pub struct MemoryView {
    pub rewriter: Option<(Seq<char>, Seq<char>)>,
    pub use_transcript: bool,
    pub diffusion: Option<Seq<char>>,
    pub turns: nat,
}

impl View for MemoryState {
    type V = MemoryView;

    open spec fn view(&self) -> MemoryView {
        MemoryView {
            rewriter: match self.rewriter {
                Some(r) => Some((r.backend@, r.model@)),
                None => None,
            },
            use_transcript: self.use_transcript,
            diffusion: text::opt_text(self.diffusion),
            turns: self.turns as nat,
        }
    }
}

/// What a `/memory` command leads to.
#[derive(Debug)]
pub enum MemoryStep {
    /// These lines are shown.
    Say(Vec<String>),
    /// The turns and what the rewriter remembers are deleted.
    Purge { notice: String },
    /// The rewriter is removed, the transcript left out and the turns deleted.
    Off { notice: String },
    /// The last session is carried over as it was.
    Log { notice: String },
    /// A summarising agent is built; with it earlier sessions are carried over
    /// as a summary.
    Summary,
    /// The rewriter is removed, the transcript used.
    Transcript { notice: String },
    /// A rewriter is built.
    Rewrite(ChatSpec),
    /// The rewriter that was asked for does not exist.
    Refused(String),
}

/// The kinds of `/memory` commands.
pub enum MemoryRequest {
    Show,
    Purge,
    Off,
    Log,
    Summary,
    Transcript,
    Engine,
}

/// The kind of a `/memory` command with a trimmed argument.
pub open spec fn request(arg: Seq<char>) -> MemoryRequest {
    if arg.len() == 0 {
        MemoryRequest::Show
    } else if text::same_ignoring_case(arg, "purge"@) {
        MemoryRequest::Purge
    } else if text::same_ignoring_case(arg, "off"@) || text::same_ignoring_case(arg, "none"@) {
        MemoryRequest::Off
    } else if text::same_ignoring_case(arg, "log"@) {
        MemoryRequest::Log
    } else if text::same_ignoring_case(arg, "summary"@) {
        MemoryRequest::Summary
    } else if text::same_ignoring_case(arg, "transcript"@) {
        MemoryRequest::Transcript
    } else {
        MemoryRequest::Engine
    }
}

/// The state after a `/memory` command.
pub open spec fn memory_after(s: MemoryView, args: Seq<char>) -> MemoryView {
    match request(text::trimmed(args)) {
        MemoryRequest::Show => s,
        MemoryRequest::Purge => MemoryView { turns: 0, ..s },
        MemoryRequest::Off => MemoryView { rewriter: None, use_transcript: false, turns: 0, ..s },
        MemoryRequest::Log => MemoryView { use_transcript: true, diffusion: Some("log"@), ..s },
        MemoryRequest::Summary => MemoryView { use_transcript: true, ..s },
        MemoryRequest::Transcript => MemoryView { rewriter: None, use_transcript: true, ..s },
        MemoryRequest::Engine => MemoryView { use_transcript: true, ..s },
    }
}

/// What `/memory` alone shows.
pub open spec fn status_lines(s: MemoryView) -> Seq<Seq<char>> {
    seq![
        "Memory: "@ + (if s.rewriter is Some {
            "rewrite"@
        } else {
            "off"@
        }) + " — "@ + number::decimal(s.turns) + " turns  |  history diffusion: "@
            + backends::or_default(s.diffusion, "off"@),
        "Usage: /memory <backend> [model] [api_key]  |  transcript  |  log  |  summary  |  off  |  purge"@,
        "  backends: ollama, deepseek"@,
        "  modes:    transcript — raw memory, no query rewriting"@,
        "            log       — enable history diffusion (raw last session)"@,
        "            summary   — enable history diffusion (LLM summarisation)"@,
    ]
}

/// What is said when the memory is switched off.
pub open spec fn off_notice(s: MemoryView) -> Seq<char> {
    match s.rewriter {
        Some((backend, model)) => "Memory disabled (was: "@ + backend + " "@ + model + ")"@,
        None => if s.turns > 0 {
            "Memory off — "@ + number::decimal(s.turns) + " turns cleared."@
        } else {
            "Memory already off."@
        },
    }
}

/// What is said when the last session is carried over as it was.
pub open spec fn log_notice(diffusion: Option<Seq<char>>) -> Seq<char> {
    match diffusion {
        Some(o) => if o == "log"@ {
            "History diffusion unchanged: log"@
        } else {
            "History diffusion: "@ + o + " → log"@
        },
        None => "History diffusion: off → log"@,
    }
}

/// What is said when earlier sessions are carried over as a summary.
pub open spec fn summary_notice(diffusion: Option<Seq<char>>) -> Seq<char> {
    match diffusion {
        Some(o) => if o == "summary"@ {
            "History diffusion unchanged: summary"@
        } else {
            "History diffusion: "@ + o + " → summary"@
        },
        None => "History diffusion enabled: summary"@,
    }
}

/// Another rewriter, or the refusal of one that does not exist.
pub open spec fn engine_step(
    parsed: Result<backends::ChatSpecView, Seq<char>>,
    r: MemoryStep,
) -> bool {
    match parsed {
        Ok(s) => r matches MemoryStep::Rewrite(c) && c@ == s,
        Err(e) => r matches MemoryStep::Refused(m) && m@ == "Memory spec parse error: "@ + e,
    }
}

/// What a `/memory` command leads to.
pub open spec fn memory_step(s: MemoryView, args: Seq<char>, r: MemoryStep) -> bool {
    let arg = text::trimmed(args);
    let w = text::words_of(arg);
    match request(arg) {
        MemoryRequest::Show => r matches MemoryStep::Say(v) && text::texts(v@) =~= status_lines(s),
        MemoryRequest::Purge => r matches MemoryStep::Purge { notice } && notice@
            == "Conversation memory purged ("@ + number::decimal(s.turns)
            + " entries removed)."@,
        MemoryRequest::Off => r matches MemoryStep::Off { notice } && notice@ == off_notice(s),
        MemoryRequest::Log => r matches MemoryStep::Log { notice } && notice@ == log_notice(
            s.diffusion,
        ),
        MemoryRequest::Summary => r == MemoryStep::Summary,
        MemoryRequest::Transcript => r matches MemoryStep::Transcript { notice } && notice@ == (
        if s.rewriter is Some {
            "Memory strategy: rewrite → transcript"@
        } else {
            "Memory unchanged: transcript"@
        }),
        MemoryRequest::Engine => engine_step(
            backends::chat_spec_of(
                text::lowercase_of(text::word_at(w, 0)),
                text::word_get(w, 1),
                text::word_get(w, 2),
            ),
            r,
        ),
    }
}

/// Switching the memory off forgets everything: no rewriting, no transcript, no
/// turns. Doing it again changes nothing.
pub proof fn law_off_forgets(s: MemoryView, args: Seq<char>)
    requires
        request(text::trimmed(args)) is Off,
    ensures
        memory_after(s, args).rewriter is None,
        !memory_after(s, args).use_transcript,
        memory_after(s, args).turns == 0,
        memory_after(memory_after(s, args), args) == memory_after(s, args),
{
}

/// Only switching off and purging delete turns of the conversation.
pub proof fn law_other_commands_keep_the_conversation(s: MemoryView, args: Seq<char>)
    requires
        !(request(text::trimmed(args)) is Off),
        !(request(text::trimmed(args)) is Purge),
    ensures
        memory_after(s, args).turns == s.turns,
{
}

/// The raw transcript and rewriting exclude each other: after `transcript`
/// questions are not rewritten, and the conversation is in the prompt.
pub proof fn law_transcript_means_no_rewriting(s: MemoryView, args: Seq<char>)
    requires
        request(text::trimmed(args)) is Transcript,
    ensures
        memory_after(s, args).rewriter is None,
        memory_after(s, args).use_transcript,
        memory_after(s, args).diffusion == s.diffusion,
{
}

/// The words behind `/memory` in any case, each with what it changes: `purge`
/// deletes the turns, `off` and `none` also end rewriting and transcript,
/// `transcript` ends rewriting, and `log` and `summary` leave both turns and
/// rewriter alone. What is not named stays.
pub proof fn law_memory_words_change_what_they_say(
    s: MemoryView,
    a: Seq<char>,
    w: Seq<char>,
    b: Seq<char>,
)
    requires
        text::is_blank(a),
        text::is_blank(b),
        text::is_tight(w),
    ensures
        ({
            let t = memory_after(s, a + w + b);
            &&& text::same_ignoring_case(w, "purge"@) ==> t.turns == 0 && t.rewriter == s.rewriter
                && t.use_transcript == s.use_transcript && t.diffusion == s.diffusion
            &&& text::same_ignoring_case(w, "off"@) || text::same_ignoring_case(w, "none"@)
                ==> t.turns == 0 && t.rewriter is None && !t.use_transcript && t.diffusion
                == s.diffusion
            &&& text::same_ignoring_case(w, "transcript"@) ==> t.turns == s.turns
                && t.rewriter is None && t.use_transcript && t.diffusion == s.diffusion
            &&& text::same_ignoring_case(w, "log"@) ==> t.turns == s.turns && t.rewriter
                == s.rewriter && t.use_transcript && t.diffusion == Some("log"@)
            &&& text::same_ignoring_case(w, "summary"@) ==> t.turns == s.turns && t.rewriter
                == s.rewriter && t.use_transcript && t.diffusion == s.diffusion
            &&& t.turns == s.turns || t.turns == 0
            &&& memory_after(s, Seq::empty()) == s
        }),
{
    lemma_memory_words();
    text::law_trimming_removes_what_surrounds(a, w, b);
    text::lemma_tight_is_trimmed(Seq::empty());
}

/// The kinds of requests differ from each other, also up to case.
proof fn lemma_memory_words()
    ensures
        text::ascii_lowered("purge"@).len() == 5,
        text::ascii_lowered("off"@).len() == 3,
        text::ascii_lowered("none"@).len() == 4,
        text::ascii_lowered("log"@).len() == 3,
        text::ascii_lowered("summary"@).len() == 7,
        text::ascii_lowered("transcript"@).len() == 10,
        text::ascii_lowered("off"@)[0] == 'o',
        text::ascii_lowered("log"@)[0] == 'l',
{
    reveal_strlit("purge");
    reveal_strlit("off");
    reveal_strlit("none");
    reveal_strlit("log");
    reveal_strlit("summary");
    reveal_strlit("transcript");
}

/// The words behind `/memory` and what is done for them.
pub proof fn law_memory_words_lead_to_their_step(s: MemoryView, w: Seq<char>, r: MemoryStep)
    requires
        text::is_tight(w),
        memory_step(s, w, r),
    ensures
        text::same_ignoring_case(w, "purge"@) ==> r is Purge,
        text::same_ignoring_case(w, "off"@) || text::same_ignoring_case(w, "none"@) ==> r is Off,
        text::same_ignoring_case(w, "transcript"@) ==> r is Transcript,
        text::same_ignoring_case(w, "log"@) ==> r is Log,
        text::same_ignoring_case(w, "summary"@) ==> r is Summary,
        r is Rewrite || r is Refused <==> !text::same_ignoring_case(w, "purge"@)
            && !text::same_ignoring_case(w, "off"@) && !text::same_ignoring_case(w, "none"@)
            && !text::same_ignoring_case(w, "transcript"@) && !text::same_ignoring_case(w, "log"@)
            && !text::same_ignoring_case(w, "summary"@),
{
    lemma_memory_words();
    text::lemma_tight_is_trimmed(w);
    assert(w.len() > 0);
}

/// White space around the words behind `/memory` does not matter.
pub proof fn law_space_around_memory_words_is_ignored(
    s: MemoryView,
    a: Seq<char>,
    words: Seq<char>,
    b: Seq<char>,
    r: MemoryStep,
)
    requires
        text::is_blank(a),
        text::is_blank(b),
        text::is_tight(words),
    ensures
        memory_step(s, a + words + b, r) <==> memory_step(s, words, r),
        memory_after(s, a + words + b) == memory_after(s, words),
{
    text::law_trimming_removes_what_surrounds(a, words, b);
    text::lemma_tight_is_trimmed(words);
}

/// `/memory` alone tells whether questions are rewritten, how many turns there are
/// and which earlier session comes in.
pub proof fn law_memory_tells_its_state(s: MemoryView, r: MemoryStep)
    requires
        memory_step(s, Seq::empty(), r),
    ensures
        r is Say,
        s.rewriter is Some && s.diffusion is None ==> (r matches MemoryStep::Say(v) && v@.len() > 0
            && v@[0]@ == "Memory: "@ + "rewrite"@ + " — "@ + number::decimal(s.turns)
            + " turns  |  history diffusion: "@ + "off"@),
        s.rewriter is None && s.diffusion is None ==> (r matches MemoryStep::Say(v) && v@.len() > 0
            && v@[0]@ == "Memory: "@ + "off"@ + " — "@ + number::decimal(s.turns)
            + " turns  |  history diffusion: "@ + "off"@),
        s.diffusion matches Some(d) ==> (r matches MemoryStep::Say(v) && v@.len() > 0 && v@[0]@
            == "Memory: "@ + (if s.rewriter is Some {
            "rewrite"@
        } else {
            "off"@
        }) + " — "@ + number::decimal(s.turns) + " turns  |  history diffusion: "@ + d),
{
    assert(text::trimmed(Seq::<char>::empty()) =~= Seq::<char>::empty());
    if let MemoryStep::Say(v) = r {
        assert(text::texts(v@).len() == 6);
        assert(text::texts(v@)[0] == v@[0]@);
    }
}

/// What is said of a change names what there was before it.
pub proof fn law_memory_notices_name_what_was(s: MemoryView, w: Seq<char>, r: MemoryStep)
    requires
        text::is_tight(w),
        memory_step(s, w, r),
    ensures
        r matches MemoryStep::Purge { notice } ==> notice@ == "Conversation memory purged ("@
            + number::decimal(s.turns) + " entries removed)."@,
        r matches MemoryStep::Off { notice } ==> (s.rewriter matches Some(a) ==> notice@
            == "Memory disabled (was: "@ + a.0 + " "@ + a.1 + ")"@),
        r matches MemoryStep::Off { notice } ==> (s.rewriter is None && s.turns > 0 ==> notice@
            == "Memory off — "@ + number::decimal(s.turns) + " turns cleared."@),
        r matches MemoryStep::Off { notice } ==> (s.rewriter is None && s.turns == 0 ==> notice@
            == "Memory already off."@),
        r matches MemoryStep::Log { notice } ==> (s.diffusion matches Some(d) ==> (d != "log"@
            ==> notice@ == "History diffusion: "@ + d + " → log"@)),
        r matches MemoryStep::Log { notice } ==> (s.diffusion is None ==> notice@
            == "History diffusion: off → log"@),
        r matches MemoryStep::Log { notice } ==> (s.diffusion == Some("log"@) ==> notice@
            == "History diffusion unchanged: log"@),
        r matches MemoryStep::Transcript { notice } ==> notice@ == if s.rewriter is Some {
            "Memory strategy: rewrite → transcript"@
        } else {
            "Memory unchanged: transcript"@
        },
        forall|d: Seq<char>|
            d != "summary"@ ==> #[trigger] summary_notice(Some(d)) == "History diffusion: "@ + d
                + " → summary"@,
        summary_notice(None) == "History diffusion enabled: summary"@,
        summary_notice(Some("summary"@)) == "History diffusion unchanged: summary"@,
{
    lemma_memory_words();
    text::lemma_tight_is_trimmed(w);
}

/// A rewriter is built as it was named, with the model and, for DeepSeek, the key
/// that were given; any other name is refused. The conversation becomes part of
/// the prompt.
pub proof fn law_rewriters_are_built_as_named(
    s: MemoryView,
    b: Seq<char>,
    m: Seq<char>,
    k: Seq<char>,
    r: MemoryStep,
)
    requires
        text::is_word(b),
        text::is_word(m),
        text::is_word(k),
        memory_step(s, b + " "@ + m + " "@ + k, r),
    ensures
        text::lowercase_of(b) == "ollama"@ ==> (r matches MemoryStep::Rewrite(c) && c@
            == backends::ChatSpecView::Ollama { model: m }),
        text::lowercase_of(b) == "deepseek"@ ==> (r matches MemoryStep::Rewrite(c) && c@
            == backends::ChatSpecView::DeepSeek { model: m, api_key: Some(k) }),
        text::lowercase_of(b) != "ollama"@ && text::lowercase_of(b) != "deepseek"@ ==> r is Refused,
        memory_after(s, b + " "@ + m + " "@ + k) == (MemoryView { use_transcript: true, ..s }),
{
    let line = b + " "@ + m + " "@ + k;
    reveal_strlit("ollama");
    reveal_strlit("deepseek");
    reveal_strlit(" ");
    reveal_strlit("purge");
    reveal_strlit("off");
    reveal_strlit("none");
    reveal_strlit("log");
    reveal_strlit("summary");
    reveal_strlit("transcript");
    assert("ollama"@.len() != "deepseek"@.len());
    text::lemma_few_words(b, m, k);
    text::lemma_tight_is_trimmed(line);
    assert(line[b.len() as int] == ' ');
    lemma_blank_is_in_no_word(line, "purge"@, b.len() as int);
    lemma_blank_is_in_no_word(line, "off"@, b.len() as int);
    lemma_blank_is_in_no_word(line, "none"@, b.len() as int);
    lemma_blank_is_in_no_word(line, "log"@, b.len() as int);
    lemma_blank_is_in_no_word(line, "summary"@, b.len() as int);
    lemma_blank_is_in_no_word(line, "transcript"@, b.len() as int);
}

/// A text with a blank differs from every word, also up to case.
proof fn lemma_blank_is_in_no_word(line: Seq<char>, w: Seq<char>, i: int)
    requires
        0 <= i < line.len(),
        line[i] == ' ',
        text::is_word(w),
    ensures
        !text::same_ignoring_case(line, w),
{
    if text::same_ignoring_case(line, w) {
        assert(text::ascii_lowered(line)[i] == text::ascii_lowered(w)[i]);
        assert(text::ascii_lowered(line).len() == text::ascii_lowered(w).len());
        assert(!text::is_space(w[i]));
    }
}

/// What is said when a rewriter was built.
pub open spec fn rewriter_notice(s: MemoryView, backend: Seq<char>, model: Seq<char>) -> Seq<char> {
    (if s.rewriter is Some {
        "Memory agent: "@
    } else {
        "Memory enabled: rewrite — "@
    }) + backend + " ("@ + model + ")"@
}

/// What is said of a rewriter names it, and tells whether there was none before.
pub proof fn law_a_new_rewriter_is_named(s: MemoryView, backend: Seq<char>, model: Seq<char>)
    ensures
        s.rewriter is Some ==> rewriter_notice(s, backend, model) == "Memory agent: "@ + backend
            + " ("@ + model + ")"@,
        s.rewriter is None ==> rewriter_notice(s, backend, model) == "Memory enabled: rewrite — "@
            + backend + " ("@ + model + ")"@,
{
}

/// The state after a rewriter was built.
pub open spec fn with_rewriter(s: MemoryView, backend: Seq<char>, model: Seq<char>) -> MemoryView {
    MemoryView { rewriter: Some((backend, model)), ..s }
}

/// The state after the summarising agent was built.
pub open spec fn with_summary(s: MemoryView) -> MemoryView {
    MemoryView { diffusion: Some("summary"@), ..s }
}

/// A rewriter that was built is the one that rewrites, until the memory is
/// switched off, and it takes nothing of the conversation away; a summary changes
/// how earlier sessions are carried over and nothing else.
pub proof fn law_built_agents_take_over(s: MemoryView, backend: Seq<char>, model: Seq<char>)
    ensures
        with_rewriter(s, backend, model).rewriter == Some((backend, model)),
        with_rewriter(s, backend, model).turns == s.turns,
        with_rewriter(s, backend, model).use_transcript == s.use_transcript,
        with_rewriter(s, backend, model).diffusion == s.diffusion,
        with_summary(s).diffusion == Some("summary"@),
        with_summary(s).turns == s.turns,
        with_summary(s).use_transcript == s.use_transcript,
        with_summary(s).rewriter == s.rewriter,
        memory_after(with_rewriter(s, backend, model), "off"@).rewriter is None,
{
    reveal_strlit("off");
    law_memory_words_change_what_they_say(
        with_rewriter(s, backend, model),
        Seq::empty(),
        "off"@,
        Seq::empty(),
    );
    assert(Seq::<char>::empty() + "off"@ + Seq::<char>::empty() =~= "off"@);
}

/// Another rewriter, or the refusal of one that does not exist.
pub fn engine(parsed: Result<ChatSpec, String>) -> (r: MemoryStep)
    ensures
        match parsed {
            Ok(s) => engine_step(Ok(s@), r),
            Err(e) => engine_step(Err(e@), r),
        },
{
    match parsed {
        Ok(spec) => MemoryStep::Rewrite(spec),
        Err(e) => {
            let mut m = "Memory spec parse error: ".to_string();
            m.append(e.as_str());
            MemoryStep::Refused(m)
        },
    }
}

impl MemoryState {
    /// The lines that `/memory` alone shows.
    fn show_status(&self) -> (r: Vec<String>)
        ensures
            text::texts(r@) =~= status_lines(self@),
    {
        let mut m = "Memory: ".to_string();
        match &self.rewriter {
            Some(_) => {
                m.append("rewrite");
            },
            None => {
                m.append("off");
            },
        }
        m.append(" — ");
        let n = number::show_usize(self.turns);
        m.append(n.as_str());
        m.append(" turns  |  history diffusion: ");
        match &self.diffusion {
            Some(d) => {
                m.append(d.as_str());
            },
            None => {
                m.append("off");
            },
        }
        vec![
            m,
            "Usage: /memory <backend> [model] [api_key]  |  transcript  |  log  |  summary  |  off  |  purge".to_string(),
            "  backends: ollama, deepseek".to_string(),
            "  modes:    transcript — raw memory, no query rewriting".to_string(),
            "            log       — enable history diffusion (raw last session)".to_string(),
            "            summary   — enable history diffusion (LLM summarisation)".to_string(),
        ]
    }

    /// What is said when the memory is switched off.
    fn say_off(&self) -> (r: String)
        ensures
            r@ == off_notice(self@),
    {
        match &self.rewriter {
            Some(w) => {
                let mut m = "Memory disabled (was: ".to_string();
                m.append(w.backend.as_str());
                m.append(" ");
                m.append(w.model.as_str());
                m.append(")");
                m
            },
            None => if self.turns > 0 {
                let mut m = "Memory off — ".to_string();
                let n = number::show_usize(self.turns);
                m.append(n.as_str());
                m.append(" turns cleared.");
                m
            } else {
                "Memory already off.".to_string()
            },
        }
    }

    /// What is said when earlier sessions are carried over in a new way.
    fn say_log(&self) -> (r: String)
        ensures
            r@ == log_notice(self@.diffusion),
    {
        match &self.diffusion {
            Some(o) => if text::same(o.as_str(), "log") {
                "History diffusion unchanged: log".to_string()
            } else {
                let mut m = "History diffusion: ".to_string();
                m.append(o.as_str());
                m.append(" → log");
                m
            },
            None => "History diffusion: off → log".to_string(),
        }
    }

    /// `/memory <backend> [model] [api_key] | transcript | log | summary | off
    /// | purge`.
    pub fn cmd_memory(&mut self, args: &str) -> (r: MemoryStep)
        ensures
            memory_step(old(self)@, args@, r),
            final(self)@ == memory_after(old(self)@, args@),
    {
        let arg = text::trim(args);
        if arg.as_str().is_empty() {
            return MemoryStep::Say(self.show_status());
        }
        if text::eq_ignore_ascii_case(arg.as_str(), "purge") {
            let mut notice = "Conversation memory purged (".to_string();
            let n = number::show_usize(self.turns);
            notice.append(n.as_str());
            notice.append(" entries removed).");
            self.turns = 0;
            return MemoryStep::Purge { notice };
        }
        if text::eq_ignore_ascii_case(arg.as_str(), "off") || text::eq_ignore_ascii_case(
            arg.as_str(),
            "none",
        ) {
            let notice = self.say_off();
            self.rewriter = None;
            self.use_transcript = false;
            self.turns = 0;
            return MemoryStep::Off { notice };
        }
        if text::eq_ignore_ascii_case(arg.as_str(), "log") {
            let notice = self.say_log();
            self.use_transcript = true;
            self.diffusion = Some("log".to_string());
            return MemoryStep::Log { notice };
        }
        if text::eq_ignore_ascii_case(arg.as_str(), "summary") {
            self.use_transcript = true;
            return MemoryStep::Summary;
        }
        if text::eq_ignore_ascii_case(arg.as_str(), "transcript") {
            let notice = match &self.rewriter {
                Some(_) => "Memory strategy: rewrite → transcript".to_string(),
                None => "Memory unchanged: transcript".to_string(),
            };
            self.rewriter = None;
            self.use_transcript = true;
            return MemoryStep::Transcript { notice };
        }
        self.use_transcript = true;
        let w = text::words(arg.as_str());
        let backend = text::word(&w, 0);
        let model = text::word_opt(&w, 1);
        let api_key = text::word_opt(&w, 2);
        let parsed = backends::parse_chat_spec(
            backend.as_str(),
            text::as_opt_str(&model),
            text::as_opt_str(&api_key),
        );
        engine(parsed)
    }

    /// The summarising agent was built: earlier sessions are now carried over
    /// as a summary.
    pub fn summary_ready(&mut self) -> (r: String)
        ensures
            r@ == summary_notice(old(self)@.diffusion),
            final(self)@ == with_summary(old(self)@),
    {
        let notice = match &self.diffusion {
            Some(o) => if text::same(o.as_str(), "summary") {
                "History diffusion unchanged: summary".to_string()
            } else {
                let mut m = "History diffusion: ".to_string();
                m.append(o.as_str());
                m.append(" → summary");
                m
            },
            None => "History diffusion enabled: summary".to_string(),
        };
        self.diffusion = Some("summary".to_string());
        notice
    }

    /// A rewriter was built and takes over.
    pub fn rewriter_ready(&mut self, backend: &str, model: &str) -> (r: String)
        ensures
            r@ == rewriter_notice(old(self)@, backend@, model@),
            final(self)@ == with_rewriter(old(self)@, backend@, model@),
    {
        let mut m = match &self.rewriter {
            Some(_) => "Memory agent: ".to_string(),
            None => "Memory enabled: rewrite — ".to_string(),
        };
        m.append(backend);
        m.append(" (");
        m.append(model);
        m.append(")");
        self.rewriter = Some(Rewriter { backend: backend.to_owned(), model: model.to_owned() });
        m
    }
}

} // verus!
