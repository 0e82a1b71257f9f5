//! The terminal: what a line of input leads to, the help text, and the words
//! with which a demonstration begins.

use vstd::prelude::*;

use crate::command;
use crate::command::Command;
use crate::command::CommandView;
use crate::text;

verus! {

/// What a line of input leads to.
#[derive(Debug)]
pub enum LineStep {
    /// Nothing; the next line is read.
    Skip,
    /// The entry joins the history, and the command is executed.
    Run { entry: String, command: Command },
    /// The entry joins the history, and the session ends.
    Leave { entry: String },
}

/// What a line of input leads to.
pub open spec fn line_step(line: Seq<char>, r: LineStep) -> bool {
    let entry = text::trimmed(line);
    if entry.len() == 0 {
        r == LineStep::Skip
    } else {
        match command::command_of(line) {
            CommandView::Exit => r matches LineStep::Leave { entry: e } && e@ == entry,
            c => r matches LineStep::Run { entry: e, command } && e@ == entry && command@ == c,
        }
    }
}

/// A blank line is never a question, and the session ends only where the user
/// says so.
pub proof fn law_sessions_end_on_request(line: Seq<char>, r: LineStep)
    requires
        line_step(line, r),
    ensures
        r is Leave <==> command::is_farewell(text::trimmed(line)),
        r matches LineStep::Run { command, .. } ==> command@ != CommandView::RagQuery(Seq::empty()),
{
    let s = text::trimmed(line);
    if command::is_farewell(s) {
        reveal_strlit("exit");
        reveal_strlit("quit");
        reveal_strlit("/exit");
        reveal_strlit("/bye");
        assert(s.len() > 0);
    }
}

/// What is typed joins the history without the white space around it, and leads to
/// the command that it stands for; white space alone leads to nothing.
pub proof fn law_lines_are_run_as_typed(a: Seq<char>, q: Seq<char>, b: Seq<char>, r: LineStep)
    requires
        text::is_blank(a),
        text::is_blank(b),
        q.len() == 0 || text::is_tight(q),
        line_step(a + q + b, r),
    ensures
        r is Skip <==> q.len() == 0,
        r matches LineStep::Run { entry, command } ==> entry@ == q && command@ == command::command_of(
            q,
        ),
        r matches LineStep::Leave { entry } ==> entry@ == q && (q == "exit"@ || q == "quit"@ || q
            == "/exit"@ || q == "/bye"@),
        q.len() > 0 && q[0] != '/' && q != "exit"@ && q != "quit"@ ==> (r matches LineStep::Run {
            command,
            ..
        } && command@ == CommandView::RagQuery(q)),
{
    text::law_trimming_removes_what_surrounds(a, q, b);
    if q.len() > 0 {
        text::lemma_tight_is_trimmed(q);
        command::law_four_words_end_a_session(a, q, b);
        if q[0] != '/' && q != "exit"@ && q != "quit"@ {
            command::law_plain_text_is_asked_as_it_stands(a, q, b);
        }
    }
}

/// Reads a line of input.
pub fn read_line(line: &str) -> (r: LineStep)
    ensures
        line_step(line@, r),
{
    let entry = text::trim(line);
    if entry.as_str().is_empty() {
        return LineStep::Skip;
    }
    proof {
        command::law_surrounding_space_is_ignored(line@);
    }
    match Command::from(entry.as_str()) {
        Command::Exit => LineStep::Leave { entry },
        command => LineStep::Run { entry, command },
    }
}

/// Whether the byte of the escape key is among those that were read.
pub open spec fn escape_among(bytes: Seq<u8>) -> bool {
    bytes.contains(0x1bu8)
}

/// The escape key counts wherever its byte stands, and no other byte counts.
pub proof fn law_the_escape_key_counts_anywhere(before: Seq<u8>, byte: u8, after: Seq<u8>)
    ensures
        escape_among(before + seq![byte] + after) <==> byte == 0x1b || escape_among(before)
            || escape_among(after),
        !escape_among(Seq::empty()),
        escape_among(seq![byte]) <==> byte == 0x1b,
{
    let all = before + seq![byte] + after;
    let n = before.len() as int;
    assert(all[n] == byte);
    if escape_among(before) {
        let i = choose|i: int| 0 <= i < n && before[i] == 0x1bu8;
        assert(all[i] == 0x1b);
    }
    if escape_among(after) {
        let i = choose|i: int| 0 <= i < after.len() && after[i] == 0x1bu8;
        assert(all[n + 1 + i] == 0x1b);
    }
    if escape_among(all) && byte != 0x1b {
        let i = choose|i: int| 0 <= i < all.len() && all[i] == 0x1bu8;
        if i < n {
            assert(before[i] == 0x1b);
        } else {
            assert(after[i - n - 1] == 0x1b);
        }
    }
    assert(seq![byte][0] == byte);
}

/// Whether the escape key was pressed: its byte is among those that were read.
pub fn has_escape(bytes: &[u8]) -> (r: bool)
    ensures
        r == escape_among(bytes@),
{
    let mut i: usize = 0;
    while i < bytes.len()
        invariant
            i <= bytes@.len(),
            forall|j: int| 0 <= j < i ==> bytes@[j] != 0x1bu8,
        decreases bytes@.len() - i,
    {
        if bytes[i] == 0x1b {
            return true;
        }
        i += 1;
    }
    false
}

/// The help text.
pub open spec fn help_lines() -> Seq<Seq<char>> {
    seq![
        "/attach <file>  — attach a document for the next query (one-shot, not indexed)"@,
        "/attach         — show currently attached files"@,
        "/attach clear   — clear all attachments"@,
        "/download <url>  — download and ingest a PDF (dyn routing: first active URL corpus, else first active dir corpus)"@,
        "/scholar <q>   — search Semantic Scholar (free API key for higher limits)"@,
        "/arxiv <q>      — search arXiv (no API key needed, no rate limits)"@,
        "/search         — show / adjust search parameters (topk, threshold, rank, by)"@,
        "/get 1,2,3-4    — download papers by number from last search"@,
        "/refs [topic]   — extract references from last query results (optionally filtered by topic)"@,
        "/chat <backend> [model] [api_key] | context <N> — hot-swap chat engine or adjust context window"@,
        "/embed <backend> [model] | purge | index — hot-swap embedding backend; index (re)builds the current pipeline"@,
        "/chunker [name] — show or hot-swap the chunking strategy (warns when the pipeline is not indexed)"@,
        "/memory <backend> [model] [key] | transcript | log | summary | off | purge — hot-swap memory + history diffusion"@,
        "/hist [list | load <id> | delete <id>] — manage saved sessions"@,
        "/prompt chat|rewrite <file> | reset — load custom system prompts"@,
        "/log [off|error|warn|info|debug|trace] — show or change log verbosity"@,
        "/parser pdf unpdf|sink|extract|internal | epub epub — hot-swap parser per format"@,
        "/profile save|show|load|list [name] — manage configuration profiles"@,
        "/corpus <name> on|off — toggle a named document corpus (--corpus-dir / --corpus-urls); /corpus dyn on|off — dynamic web-download routing"@,
        "exit / quit     — end the session"@,
    ]
}

/// `/help`.
pub fn cmd_help() -> (r: Vec<String>)
    ensures
        text::texts(r@) == help_lines(),
{
    vec![
        "/attach <file>  — attach a document for the next query (one-shot, not indexed)".to_string(),
        "/attach         — show currently attached files".to_string(),
        "/attach clear   — clear all attachments".to_string(),
        "/download <url>  — download and ingest a PDF (dyn routing: first active URL corpus, else first active dir corpus)".to_string(),
        "/scholar <q>   — search Semantic Scholar (free API key for higher limits)".to_string(),
        "/arxiv <q>      — search arXiv (no API key needed, no rate limits)".to_string(),
        "/search         — show / adjust search parameters (topk, threshold, rank, by)".to_string(),
        "/get 1,2,3-4    — download papers by number from last search".to_string(),
        "/refs [topic]   — extract references from last query results (optionally filtered by topic)".to_string(),
        "/chat <backend> [model] [api_key] | context <N> — hot-swap chat engine or adjust context window".to_string(),
        "/embed <backend> [model] | purge | index — hot-swap embedding backend; index (re)builds the current pipeline".to_string(),
        "/chunker [name] — show or hot-swap the chunking strategy (warns when the pipeline is not indexed)".to_string(),
        "/memory <backend> [model] [key] | transcript | log | summary | off | purge — hot-swap memory + history diffusion".to_string(),
        "/hist [list | load <id> | delete <id>] — manage saved sessions".to_string(),
        "/prompt chat|rewrite <file> | reset — load custom system prompts".to_string(),
        "/log [off|error|warn|info|debug|trace] — show or change log verbosity".to_string(),
        "/parser pdf unpdf|sink|extract|internal | epub epub — hot-swap parser per format".to_string(),
        "/profile save|show|load|list [name] — manage configuration profiles".to_string(),
        "/corpus <name> on|off — toggle a named document corpus (--corpus-dir / --corpus-urls); /corpus dyn on|off — dynamic web-download routing".to_string(),
        "exit / quit     — end the session".to_string(),
    ]
}

/// The words with which a demonstration begins.
pub open spec fn demo_lines() -> Seq<Seq<char>> {
    seq![
        "Welcome to ragrig demo mode!"@,
        Seq::empty(),
        "This session answers questions about the book:"@,
        "  Martin Schmettow, New Statistics for Design Researchers. A Bayesian workflow in tidy R."@,
        "  https://schmettow.github.io/New_Stats/"@,
        Seq::empty(),
        "Demo mode requires the Ollama models 'nomic-embed-text:latest' and 'llama3.2:3b'."@,
        "Memory is off — every question is independent."@,
        Seq::empty(),
        "Press Enter to run the prefilled question, or edit it first."@,
    ]
}

/// The words with which a demonstration begins.
pub fn demo_banner() -> (r: Vec<String>)
    ensures
        text::texts(r@) == demo_lines(),
{
    vec![
        "Welcome to ragrig demo mode!".to_string(),
        String::new(),
        "This session answers questions about the book:".to_string(),
        "  Martin Schmettow, New Statistics for Design Researchers. A Bayesian workflow in tidy R.".to_string(),
        "  https://schmettow.github.io/New_Stats/".to_string(),
        String::new(),
        "Demo mode requires the Ollama models 'nomic-embed-text:latest' and 'llama3.2:3b'.".to_string(),
        "Memory is off — every question is independent.".to_string(),
        String::new(),
        "Press Enter to run the prefilled question, or edit it first.".to_string(),
    ]
}

/// The question that a demonstration begins with.
pub fn demo_first_question() -> (r: &'static str)
    ensures
        r@ == "What is Bayesian Statistics?"@,
{
    "What is Bayesian Statistics?"
}

} // verus!
