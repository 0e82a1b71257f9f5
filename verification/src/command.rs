//! What the user typed, read as a command.

use vstd::prelude::*;

use crate::ansi;
use crate::text;

verus! {

/// Commands of the read-eval-print loop. Plain text without a leading slash is
/// a question to the documents ([`Command::RagQuery`]).
#[derive(Debug, Clone)]
pub enum Command {
    Attach(String),
    Download(String),
    GetPapers(String),
    Help,
    Scholar(String),
    SearchArxiv(String),
    ExtractRefs(String),
    Chat(String),
    Search(String),
    Embed(String),
    Chunker(String),
    Memory(String),
    Hist(String),
    Parser(String),
    Profile(String),
    Prompt(String),
    Corpus(String),
    Log(String),
    RagQuery(String),
    Unknown(String),
    Exit,
}

/// The mathematical value of a [`Command`].
pub enum CommandView {
    Attach(Seq<char>),
    Download(Seq<char>),
    GetPapers(Seq<char>),
    Help,
    Scholar(Seq<char>),
    SearchArxiv(Seq<char>),
    ExtractRefs(Seq<char>),
    Chat(Seq<char>),
    Search(Seq<char>),
    Embed(Seq<char>),
    Chunker(Seq<char>),
    Memory(Seq<char>),
    Hist(Seq<char>),
    Parser(Seq<char>),
    Profile(Seq<char>),
    Prompt(Seq<char>),
    Corpus(Seq<char>),
    Log(Seq<char>),
    RagQuery(Seq<char>),
    Unknown(Seq<char>),
    Exit,
}

impl View for Command {
    type V = CommandView;

    open spec fn view(&self) -> CommandView {
        match self {
            Command::Attach(s) => CommandView::Attach(s@),
            Command::Download(s) => CommandView::Download(s@),
            Command::GetPapers(s) => CommandView::GetPapers(s@),
            Command::Help => CommandView::Help,
            Command::Scholar(s) => CommandView::Scholar(s@),
            Command::SearchArxiv(s) => CommandView::SearchArxiv(s@),
            Command::ExtractRefs(s) => CommandView::ExtractRefs(s@),
            Command::Chat(s) => CommandView::Chat(s@),
            Command::Search(s) => CommandView::Search(s@),
            Command::Embed(s) => CommandView::Embed(s@),
            Command::Chunker(s) => CommandView::Chunker(s@),
            Command::Memory(s) => CommandView::Memory(s@),
            Command::Hist(s) => CommandView::Hist(s@),
            Command::Parser(s) => CommandView::Parser(s@),
            Command::Profile(s) => CommandView::Profile(s@),
            Command::Prompt(s) => CommandView::Prompt(s@),
            Command::Corpus(s) => CommandView::Corpus(s@),
            Command::Log(s) => CommandView::Log(s@),
            Command::RagQuery(s) => CommandView::RagQuery(s@),
            Command::Unknown(s) => CommandView::Unknown(s@),
            Command::Exit => CommandView::Exit,
        }
    }
}

/// Whether `s` is more than one byte long when it is encoded in UTF-8.
pub open spec fn more_than_a_byte(s: Seq<char>) -> bool {
    s.len() > 1 || (s.len() == 1 && s[0] > '\u{7f}')
}

/// The argument behind a command word that needs no blank after it: nothing
/// where what follows is at most one byte.
pub open spec fn loose_argument(rest: Seq<char>) -> Seq<char> {
    if more_than_a_byte(rest) {
        text::trimmed(rest)
    } else {
        Seq::empty()
    }
}

/// What follows `prefix` in `s`.
pub open spec fn after(s: Seq<char>, prefix: Seq<char>) -> Seq<char> {
    s.skip(prefix.len() as int)
}

/// The command that `s` stands for, which starts with a slash and is trimmed.
pub open spec fn slash_command(s: Seq<char>) -> CommandView {
    if s == "/help"@ {
        CommandView::Help
    } else if "/attach"@.is_prefix_of(s) {
        CommandView::Attach(loose_argument(after(s, "/attach"@)))
    } else if "/download "@.is_prefix_of(s) {
        CommandView::Download(text::trimmed(ansi::stripped(after(s, "/download "@))))
    } else if "/get "@.is_prefix_of(s) {
        CommandView::GetPapers(text::trimmed(after(s, "/get "@)))
    } else if "/scholar "@.is_prefix_of(s) {
        CommandView::Scholar(text::trimmed(after(s, "/scholar "@)))
    } else if text::same_ignoring_case(s, "/scholar"@) {
        CommandView::Scholar(Seq::empty())
    } else if text::same_ignoring_case(s, "/search"@) {
        CommandView::Search(Seq::empty())
    } else if "/search "@.is_prefix_of(s) {
        CommandView::Search(text::trimmed(after(s, "/search "@)))
    } else if "/arxiv "@.is_prefix_of(s) {
        CommandView::SearchArxiv(text::trimmed(after(s, "/arxiv "@)))
    } else if "/refs"@.is_prefix_of(s) {
        CommandView::ExtractRefs(loose_argument(after(s, "/refs"@)))
    } else if "/chat"@.is_prefix_of(s) {
        CommandView::Chat(loose_argument(after(s, "/chat"@)))
    } else if "/embed"@.is_prefix_of(s) {
        CommandView::Embed(loose_argument(after(s, "/embed"@)))
    } else if "/chunker"@.is_prefix_of(s) {
        CommandView::Chunker(loose_argument(after(s, "/chunker"@)))
    } else if "/memory"@.is_prefix_of(s) {
        CommandView::Memory(loose_argument(after(s, "/memory"@)))
    } else if "/hist"@.is_prefix_of(s) {
        CommandView::Hist(loose_argument(after(s, "/hist"@)))
    } else if "/prompt"@.is_prefix_of(s) {
        CommandView::Prompt(loose_argument(after(s, "/prompt"@)))
    } else if "/log"@.is_prefix_of(s) {
        CommandView::Log(loose_argument(after(s, "/log"@)))
    } else if "/parser"@.is_prefix_of(s) {
        CommandView::Parser(loose_argument(after(s, "/parser"@)))
    } else if "/corpus"@.is_prefix_of(s) {
        CommandView::Corpus(loose_argument(after(s, "/corpus"@)))
    } else if "/profile"@.is_prefix_of(s) {
        CommandView::Profile(loose_argument(after(s, "/profile"@)))
    } else {
        CommandView::Unknown(s)
    }
}

/// The words that end the session.
pub open spec fn is_farewell(s: Seq<char>) -> bool {
    s == "exit"@ || s == "quit"@ || s == "/exit"@ || s == "/bye"@
}

/// Whether `s` starts with a slash.
pub open spec fn starts_with_slash(s: Seq<char>) -> bool {
    s.len() > 0 && s[0] == '/'
}

/// The command that a line of input stands for.
pub open spec fn command_of(input: Seq<char>) -> CommandView {
    let s = text::trimmed(input);
    if is_farewell(s) {
        CommandView::Exit
    } else if !starts_with_slash(s) {
        CommandView::RagQuery(s)
    } else {
        slash_command(s)
    }
}

/// Input that starts with a slash is never taken for a question: what is not a
/// known command is an unknown one.
pub proof fn law_slash_input_is_never_a_query(input: Seq<char>)
    requires
        starts_with_slash(text::trimmed(input)),
    ensures
        !(command_of(input) is RagQuery),
{
}

/// Input without a leading slash is a question with exactly that text, unless
/// it says farewell.
pub proof fn law_plain_input_is_a_query(input: Seq<char>)
    requires
        !starts_with_slash(text::trimmed(input)),
        !is_farewell(text::trimmed(input)),
    ensures
        command_of(input) == CommandView::RagQuery(text::trimmed(input)),
{
}

/// White space around a line does not change the command.
pub proof fn law_surrounding_space_is_ignored(input: Seq<char>)
    ensures
        command_of(text::trimmed(input)) == command_of(input),
{
    text::lemma_trimmed_is_stable(input);
}

/// Texts that differ at a position are different, and none begins with the other.
proof fn lemma_differs(p: Seq<char>, s: Seq<char>, i: int)
    requires
        0 <= i < p.len(),
        i < s.len(),
        p[i] != s[i],
    ensures
        !p.is_prefix_of(s),
        p != s,
{
    if p.is_prefix_of(s) {
        assert(p[i] == s.subrange(0, p.len() as int)[i]);
    }
}

/// Texts that differ at a position by more than case are different up to case.
proof fn lemma_differs_in_case(s: Seq<char>, p: Seq<char>, i: int)
    requires
        0 <= i < p.len(),
        i < s.len(),
        text::ascii_lower(p[i]) != text::ascii_lower(s[i]),
    ensures
        !text::same_ignoring_case(s, p),
{
    if text::same_ignoring_case(s, p) {
        assert(text::ascii_lowered(s)[i] == text::ascii_lowered(p)[i]);
    }
}

/// What a line of a command word and an argument is made of, with any white space
/// more between them.
proof fn lemma_line(word: Seq<char>, a: Seq<char>, q: Seq<char>)
    requires
        word.len() >= 4,
        word[0] == '/',
        text::is_blank(a),
        text::is_tight(q),
    ensures
        ({
            let t = word + " "@ + (a + q);
            &&& text::trimmed(t) == t
            &&& !is_farewell(t)
            &&& starts_with_slash(t)
            &&& t.len() == word.len() + 1 + a.len() + q.len()
            &&& forall|i: int| 0 <= i < word.len() ==> #[trigger] t[i] == word[i]
            &&& word.is_prefix_of(t)
            &&& (word + " "@).is_prefix_of(t)
            &&& loose_argument(after(t, word)) == q
            &&& after(t, word + " "@) == a + q
            &&& text::trimmed(a + q) == q
        }),
{
    let t = word + " "@ + (a + q);
    reveal_strlit(" ");
    reveal_strlit("exit");
    reveal_strlit("quit");
    reveal_strlit("/exit");
    reveal_strlit("/bye");
    assert(t[0] == word[0]);
    assert(t[word.len() as int] == ' ');
    assert(t[t.len() - 1] == q[q.len() - 1]);
    text::lemma_tight_is_trimmed(t);
    assert(word =~= t.subrange(0, word.len() as int));
    assert((word + " "@) =~= t.subrange(0, (word + " "@).len() as int));
    assert(after(t, word) =~= (" "@ + a) + q + Seq::empty());
    text::law_trimming_removes_what_surrounds(" "@ + a, q, Seq::empty());
    text::law_trimming_removes_what_surrounds(a, q, Seq::empty());
    assert(a + q + Seq::<char>::empty() =~= a + q);
    assert(after(t, word + " "@) =~= a + q);
}

proof fn lemma_attach_line(a: Seq<char>, q: Seq<char>)
    requires
        text::is_blank(a),
        text::is_tight(q),
    ensures
        command_of("/attach"@ + " "@ + (a + q)) == CommandView::Attach(q),
{
    reveal_strlit(" ");
    reveal_strlit("/attach");
    reveal_strlit("/help");
    let t = "/attach"@ + " "@ + (a + q);
    lemma_line("/attach"@, a, q);
    lemma_differs("/help"@, t, 1);
}

proof fn lemma_get_line(a: Seq<char>, q: Seq<char>)
    requires
        text::is_blank(a),
        text::is_tight(q),
    ensures
        command_of("/get"@ + " "@ + (a + q)) == CommandView::GetPapers(q),
{
    reveal_strlit(" ");
    reveal_strlit("/attach");
    reveal_strlit("/download ");
    reveal_strlit("/get ");
    reveal_strlit("/get");
    reveal_strlit("/help");
    let t = "/get"@ + " "@ + (a + q);
    lemma_line("/get"@, a, q);
    lemma_differs("/help"@, t, 1);
    lemma_differs("/attach"@, t, 1);
    lemma_differs("/download "@, t, 1);
    assert("/get "@ =~= "/get"@ + " "@);
}

proof fn lemma_scholar_line(a: Seq<char>, q: Seq<char>)
    requires
        text::is_blank(a),
        text::is_tight(q),
    ensures
        command_of("/scholar"@ + " "@ + (a + q)) == CommandView::Scholar(q),
{
    reveal_strlit(" ");
    reveal_strlit("/attach");
    reveal_strlit("/download ");
    reveal_strlit("/get ");
    reveal_strlit("/help");
    reveal_strlit("/scholar ");
    reveal_strlit("/scholar");
    let t = "/scholar"@ + " "@ + (a + q);
    lemma_line("/scholar"@, a, q);
    lemma_differs("/help"@, t, 1);
    lemma_differs("/attach"@, t, 1);
    lemma_differs("/download "@, t, 1);
    lemma_differs("/get "@, t, 1);
    assert("/scholar "@ =~= "/scholar"@ + " "@);
}

proof fn lemma_search_line(a: Seq<char>, q: Seq<char>)
    requires
        text::is_blank(a),
        text::is_tight(q),
    ensures
        command_of("/search"@ + " "@ + (a + q)) == CommandView::Search(q),
{
    reveal_strlit(" ");
    reveal_strlit("/attach");
    reveal_strlit("/download ");
    reveal_strlit("/get ");
    reveal_strlit("/help");
    reveal_strlit("/scholar ");
    reveal_strlit("/scholar");
    reveal_strlit("/search ");
    reveal_strlit("/search");
    let t = "/search"@ + " "@ + (a + q);
    lemma_line("/search"@, a, q);
    lemma_differs("/help"@, t, 1);
    lemma_differs("/attach"@, t, 1);
    lemma_differs("/download "@, t, 1);
    lemma_differs("/get "@, t, 1);
    lemma_differs("/scholar "@, t, 2);
    lemma_differs_in_case(t, "/scholar"@, 2);
    assert(text::ascii_lowered(t).len() != text::ascii_lowered("/search"@).len());
    assert("/search "@ =~= "/search"@ + " "@);
}

proof fn lemma_arxiv_line(a: Seq<char>, q: Seq<char>)
    requires
        text::is_blank(a),
        text::is_tight(q),
    ensures
        command_of("/arxiv"@ + " "@ + (a + q)) == CommandView::SearchArxiv(q),
{
    reveal_strlit(" ");
    reveal_strlit("/arxiv ");
    reveal_strlit("/arxiv");
    reveal_strlit("/attach");
    reveal_strlit("/download ");
    reveal_strlit("/get ");
    reveal_strlit("/help");
    reveal_strlit("/scholar ");
    reveal_strlit("/scholar");
    reveal_strlit("/search ");
    reveal_strlit("/search");
    let t = "/arxiv"@ + " "@ + (a + q);
    lemma_line("/arxiv"@, a, q);
    lemma_differs("/help"@, t, 1);
    lemma_differs("/attach"@, t, 2);
    lemma_differs("/download "@, t, 1);
    lemma_differs("/get "@, t, 1);
    lemma_differs("/scholar "@, t, 1);
    lemma_differs_in_case(t, "/scholar"@, 1);
    lemma_differs_in_case(t, "/search"@, 1);
    lemma_differs("/search "@, t, 1);
    assert("/arxiv "@ =~= "/arxiv"@ + " "@);
}

proof fn lemma_download_line(a: Seq<char>, q: Seq<char>)
    requires
        text::is_blank(a),
        text::is_tight(q),
        !q.contains('\u{1b}'),
    ensures
        command_of("/download"@ + " "@ + (a + q)) == CommandView::Download(q),
{
    reveal_strlit(" ");
    reveal_strlit("/attach");
    reveal_strlit("/download ");
    reveal_strlit("/download");
    reveal_strlit("/help");
    let t = "/download"@ + " "@ + (a + q);
    lemma_line("/download"@, a, q);
    lemma_differs("/help"@, t, 1);
    lemma_differs("/attach"@, t, 1);
    assert("/download "@ =~= "/download"@ + " "@);
    let rest = a + q;
    assert forall|i: int| !ansi::opens_at(rest, i) by {
        if ansi::opens_at(rest, i) {
            if i < a.len() {
                assert(text::is_space(a[i]));
            } else {
                assert(q.contains(q[i - a.len()]));
            }
        }
    }
    ansi::law_plain_text_is_kept(rest);
}

proof fn lemma_refs_line(a: Seq<char>, q: Seq<char>)
    requires
        text::is_blank(a),
        text::is_tight(q),
    ensures
        command_of("/refs"@ + " "@ + (a + q)) == CommandView::ExtractRefs(q),
{
    reveal_strlit(" ");
    reveal_strlit("/arxiv ");
    reveal_strlit("/attach");
    reveal_strlit("/download ");
    reveal_strlit("/get ");
    reveal_strlit("/help");
    reveal_strlit("/refs");
    reveal_strlit("/scholar ");
    reveal_strlit("/scholar");
    reveal_strlit("/search ");
    reveal_strlit("/search");
    let t = "/refs"@ + " "@ + (a + q);
    lemma_line("/refs"@, a, q);
    lemma_differs("/help"@, t, 1);
    lemma_differs("/attach"@, t, 1);
    lemma_differs("/download "@, t, 1);
    lemma_differs("/get "@, t, 1);
    lemma_differs("/scholar "@, t, 1);
    lemma_differs_in_case(t, "/scholar"@, 1);
    lemma_differs_in_case(t, "/search"@, 1);
    lemma_differs("/search "@, t, 1);
    lemma_differs("/arxiv "@, t, 1);
}

proof fn lemma_chat_line(a: Seq<char>, q: Seq<char>)
    requires
        text::is_blank(a),
        text::is_tight(q),
    ensures
        command_of("/chat"@ + " "@ + (a + q)) == CommandView::Chat(q),
{
    reveal_strlit(" ");
    reveal_strlit("/arxiv ");
    reveal_strlit("/attach");
    reveal_strlit("/chat");
    reveal_strlit("/download ");
    reveal_strlit("/get ");
    reveal_strlit("/help");
    reveal_strlit("/refs");
    reveal_strlit("/scholar ");
    reveal_strlit("/scholar");
    reveal_strlit("/search ");
    reveal_strlit("/search");
    let t = "/chat"@ + " "@ + (a + q);
    lemma_line("/chat"@, a, q);
    lemma_differs("/help"@, t, 1);
    lemma_differs("/attach"@, t, 1);
    lemma_differs("/download "@, t, 1);
    lemma_differs("/get "@, t, 1);
    lemma_differs("/scholar "@, t, 1);
    lemma_differs_in_case(t, "/scholar"@, 1);
    lemma_differs_in_case(t, "/search"@, 1);
    lemma_differs("/search "@, t, 1);
    lemma_differs("/arxiv "@, t, 1);
    lemma_differs("/refs"@, t, 1);
}

proof fn lemma_embed_line(a: Seq<char>, q: Seq<char>)
    requires
        text::is_blank(a),
        text::is_tight(q),
    ensures
        command_of("/embed"@ + " "@ + (a + q)) == CommandView::Embed(q),
{
    reveal_strlit(" ");
    reveal_strlit("/arxiv ");
    reveal_strlit("/attach");
    reveal_strlit("/chat");
    reveal_strlit("/download ");
    reveal_strlit("/embed");
    reveal_strlit("/get ");
    reveal_strlit("/help");
    reveal_strlit("/refs");
    reveal_strlit("/scholar ");
    reveal_strlit("/scholar");
    reveal_strlit("/search ");
    reveal_strlit("/search");
    let t = "/embed"@ + " "@ + (a + q);
    lemma_line("/embed"@, a, q);
    lemma_differs("/help"@, t, 1);
    lemma_differs("/attach"@, t, 1);
    lemma_differs("/download "@, t, 1);
    lemma_differs("/get "@, t, 1);
    lemma_differs("/scholar "@, t, 1);
    lemma_differs_in_case(t, "/scholar"@, 1);
    lemma_differs_in_case(t, "/search"@, 1);
    lemma_differs("/search "@, t, 1);
    lemma_differs("/arxiv "@, t, 1);
    lemma_differs("/refs"@, t, 1);
    lemma_differs("/chat"@, t, 1);
}

proof fn lemma_chunker_line(a: Seq<char>, q: Seq<char>)
    requires
        text::is_blank(a),
        text::is_tight(q),
    ensures
        command_of("/chunker"@ + " "@ + (a + q)) == CommandView::Chunker(q),
{
    reveal_strlit(" ");
    reveal_strlit("/arxiv ");
    reveal_strlit("/attach");
    reveal_strlit("/chat");
    reveal_strlit("/chunker");
    reveal_strlit("/download ");
    reveal_strlit("/embed");
    reveal_strlit("/get ");
    reveal_strlit("/help");
    reveal_strlit("/refs");
    reveal_strlit("/scholar ");
    reveal_strlit("/scholar");
    reveal_strlit("/search ");
    reveal_strlit("/search");
    let t = "/chunker"@ + " "@ + (a + q);
    lemma_line("/chunker"@, a, q);
    lemma_differs("/help"@, t, 1);
    lemma_differs("/attach"@, t, 1);
    lemma_differs("/download "@, t, 1);
    lemma_differs("/get "@, t, 1);
    lemma_differs("/scholar "@, t, 1);
    lemma_differs_in_case(t, "/scholar"@, 1);
    lemma_differs_in_case(t, "/search"@, 1);
    lemma_differs("/search "@, t, 1);
    lemma_differs("/arxiv "@, t, 1);
    lemma_differs("/refs"@, t, 1);
    lemma_differs("/chat"@, t, 3);
    lemma_differs("/embed"@, t, 1);
}

proof fn lemma_memory_line(a: Seq<char>, q: Seq<char>)
    requires
        text::is_blank(a),
        text::is_tight(q),
    ensures
        command_of("/memory"@ + " "@ + (a + q)) == CommandView::Memory(q),
{
    reveal_strlit(" ");
    reveal_strlit("/arxiv ");
    reveal_strlit("/attach");
    reveal_strlit("/chat");
    reveal_strlit("/chunker");
    reveal_strlit("/download ");
    reveal_strlit("/embed");
    reveal_strlit("/get ");
    reveal_strlit("/help");
    reveal_strlit("/memory");
    reveal_strlit("/refs");
    reveal_strlit("/scholar ");
    reveal_strlit("/scholar");
    reveal_strlit("/search ");
    reveal_strlit("/search");
    let t = "/memory"@ + " "@ + (a + q);
    lemma_line("/memory"@, a, q);
    lemma_differs("/help"@, t, 1);
    lemma_differs("/attach"@, t, 1);
    lemma_differs("/download "@, t, 1);
    lemma_differs("/get "@, t, 1);
    lemma_differs("/scholar "@, t, 1);
    lemma_differs_in_case(t, "/scholar"@, 1);
    lemma_differs_in_case(t, "/search"@, 1);
    lemma_differs("/search "@, t, 1);
    lemma_differs("/arxiv "@, t, 1);
    lemma_differs("/refs"@, t, 1);
    lemma_differs("/chat"@, t, 1);
    lemma_differs("/embed"@, t, 1);
    lemma_differs("/chunker"@, t, 1);
}

proof fn lemma_hist_line(a: Seq<char>, q: Seq<char>)
    requires
        text::is_blank(a),
        text::is_tight(q),
    ensures
        command_of("/hist"@ + " "@ + (a + q)) == CommandView::Hist(q),
{
    reveal_strlit(" ");
    reveal_strlit("/arxiv ");
    reveal_strlit("/attach");
    reveal_strlit("/chat");
    reveal_strlit("/chunker");
    reveal_strlit("/download ");
    reveal_strlit("/embed");
    reveal_strlit("/get ");
    reveal_strlit("/help");
    reveal_strlit("/hist");
    reveal_strlit("/memory");
    reveal_strlit("/refs");
    reveal_strlit("/scholar ");
    reveal_strlit("/scholar");
    reveal_strlit("/search ");
    reveal_strlit("/search");
    let t = "/hist"@ + " "@ + (a + q);
    lemma_line("/hist"@, a, q);
    lemma_differs("/help"@, t, 2);
    lemma_differs("/attach"@, t, 1);
    lemma_differs("/download "@, t, 1);
    lemma_differs("/get "@, t, 1);
    lemma_differs("/scholar "@, t, 1);
    lemma_differs_in_case(t, "/scholar"@, 1);
    lemma_differs_in_case(t, "/search"@, 1);
    lemma_differs("/search "@, t, 1);
    lemma_differs("/arxiv "@, t, 1);
    lemma_differs("/refs"@, t, 1);
    lemma_differs("/chat"@, t, 1);
    lemma_differs("/embed"@, t, 1);
    lemma_differs("/chunker"@, t, 1);
    lemma_differs("/memory"@, t, 1);
}

proof fn lemma_prompt_line(a: Seq<char>, q: Seq<char>)
    requires
        text::is_blank(a),
        text::is_tight(q),
    ensures
        command_of("/prompt"@ + " "@ + (a + q)) == CommandView::Prompt(q),
{
    reveal_strlit(" ");
    reveal_strlit("/arxiv ");
    reveal_strlit("/attach");
    reveal_strlit("/chat");
    reveal_strlit("/chunker");
    reveal_strlit("/download ");
    reveal_strlit("/embed");
    reveal_strlit("/get ");
    reveal_strlit("/help");
    reveal_strlit("/hist");
    reveal_strlit("/memory");
    reveal_strlit("/prompt");
    reveal_strlit("/refs");
    reveal_strlit("/scholar ");
    reveal_strlit("/scholar");
    reveal_strlit("/search ");
    reveal_strlit("/search");
    let t = "/prompt"@ + " "@ + (a + q);
    lemma_line("/prompt"@, a, q);
    lemma_differs("/help"@, t, 1);
    lemma_differs("/attach"@, t, 1);
    lemma_differs("/download "@, t, 1);
    lemma_differs("/get "@, t, 1);
    lemma_differs("/scholar "@, t, 1);
    lemma_differs_in_case(t, "/scholar"@, 1);
    lemma_differs_in_case(t, "/search"@, 1);
    lemma_differs("/search "@, t, 1);
    lemma_differs("/arxiv "@, t, 1);
    lemma_differs("/refs"@, t, 1);
    lemma_differs("/chat"@, t, 1);
    lemma_differs("/embed"@, t, 1);
    lemma_differs("/chunker"@, t, 1);
    lemma_differs("/memory"@, t, 1);
    lemma_differs("/hist"@, t, 1);
}

proof fn lemma_log_line(a: Seq<char>, q: Seq<char>)
    requires
        text::is_blank(a),
        text::is_tight(q),
    ensures
        command_of("/log"@ + " "@ + (a + q)) == CommandView::Log(q),
{
    reveal_strlit(" ");
    reveal_strlit("/arxiv ");
    reveal_strlit("/attach");
    reveal_strlit("/chat");
    reveal_strlit("/chunker");
    reveal_strlit("/download ");
    reveal_strlit("/embed");
    reveal_strlit("/get ");
    reveal_strlit("/help");
    reveal_strlit("/hist");
    reveal_strlit("/log");
    reveal_strlit("/memory");
    reveal_strlit("/prompt");
    reveal_strlit("/refs");
    reveal_strlit("/scholar ");
    reveal_strlit("/scholar");
    reveal_strlit("/search ");
    reveal_strlit("/search");
    let t = "/log"@ + " "@ + (a + q);
    lemma_line("/log"@, a, q);
    lemma_differs("/help"@, t, 1);
    lemma_differs("/attach"@, t, 1);
    lemma_differs("/download "@, t, 1);
    lemma_differs("/get "@, t, 1);
    lemma_differs("/scholar "@, t, 1);
    lemma_differs_in_case(t, "/scholar"@, 1);
    lemma_differs_in_case(t, "/search"@, 1);
    lemma_differs("/search "@, t, 1);
    lemma_differs("/arxiv "@, t, 1);
    lemma_differs("/refs"@, t, 1);
    lemma_differs("/chat"@, t, 1);
    lemma_differs("/embed"@, t, 1);
    lemma_differs("/chunker"@, t, 1);
    lemma_differs("/memory"@, t, 1);
    lemma_differs("/hist"@, t, 1);
    lemma_differs("/prompt"@, t, 1);
}

proof fn lemma_parser_line(a: Seq<char>, q: Seq<char>)
    requires
        text::is_blank(a),
        text::is_tight(q),
    ensures
        command_of("/parser"@ + " "@ + (a + q)) == CommandView::Parser(q),
{
    reveal_strlit(" ");
    reveal_strlit("/arxiv ");
    reveal_strlit("/attach");
    reveal_strlit("/chat");
    reveal_strlit("/chunker");
    reveal_strlit("/download ");
    reveal_strlit("/embed");
    reveal_strlit("/get ");
    reveal_strlit("/help");
    reveal_strlit("/hist");
    reveal_strlit("/log");
    reveal_strlit("/memory");
    reveal_strlit("/parser");
    reveal_strlit("/prompt");
    reveal_strlit("/refs");
    reveal_strlit("/scholar ");
    reveal_strlit("/scholar");
    reveal_strlit("/search ");
    reveal_strlit("/search");
    let t = "/parser"@ + " "@ + (a + q);
    lemma_line("/parser"@, a, q);
    lemma_differs("/help"@, t, 1);
    lemma_differs("/attach"@, t, 1);
    lemma_differs("/download "@, t, 1);
    lemma_differs("/get "@, t, 1);
    lemma_differs("/scholar "@, t, 1);
    lemma_differs_in_case(t, "/scholar"@, 1);
    lemma_differs_in_case(t, "/search"@, 1);
    lemma_differs("/search "@, t, 1);
    lemma_differs("/arxiv "@, t, 1);
    lemma_differs("/refs"@, t, 1);
    lemma_differs("/chat"@, t, 1);
    lemma_differs("/embed"@, t, 1);
    lemma_differs("/chunker"@, t, 1);
    lemma_differs("/memory"@, t, 1);
    lemma_differs("/hist"@, t, 1);
    lemma_differs("/prompt"@, t, 2);
    lemma_differs("/log"@, t, 1);
}

proof fn lemma_corpus_line(a: Seq<char>, q: Seq<char>)
    requires
        text::is_blank(a),
        text::is_tight(q),
    ensures
        command_of("/corpus"@ + " "@ + (a + q)) == CommandView::Corpus(q),
{
    reveal_strlit(" ");
    reveal_strlit("/arxiv ");
    reveal_strlit("/attach");
    reveal_strlit("/chat");
    reveal_strlit("/chunker");
    reveal_strlit("/corpus");
    reveal_strlit("/download ");
    reveal_strlit("/embed");
    reveal_strlit("/get ");
    reveal_strlit("/help");
    reveal_strlit("/hist");
    reveal_strlit("/log");
    reveal_strlit("/memory");
    reveal_strlit("/parser");
    reveal_strlit("/prompt");
    reveal_strlit("/refs");
    reveal_strlit("/scholar ");
    reveal_strlit("/scholar");
    reveal_strlit("/search ");
    reveal_strlit("/search");
    let t = "/corpus"@ + " "@ + (a + q);
    lemma_line("/corpus"@, a, q);
    lemma_differs("/help"@, t, 1);
    lemma_differs("/attach"@, t, 1);
    lemma_differs("/download "@, t, 1);
    lemma_differs("/get "@, t, 1);
    lemma_differs("/scholar "@, t, 1);
    lemma_differs_in_case(t, "/scholar"@, 1);
    lemma_differs_in_case(t, "/search"@, 1);
    lemma_differs("/search "@, t, 1);
    lemma_differs("/arxiv "@, t, 1);
    lemma_differs("/refs"@, t, 1);
    lemma_differs("/chat"@, t, 2);
    lemma_differs("/embed"@, t, 1);
    lemma_differs("/chunker"@, t, 2);
    lemma_differs("/memory"@, t, 1);
    lemma_differs("/hist"@, t, 1);
    lemma_differs("/prompt"@, t, 1);
    lemma_differs("/log"@, t, 1);
    lemma_differs("/parser"@, t, 1);
}

proof fn lemma_profile_line(a: Seq<char>, q: Seq<char>)
    requires
        text::is_blank(a),
        text::is_tight(q),
    ensures
        command_of("/profile"@ + " "@ + (a + q)) == CommandView::Profile(q),
{
    reveal_strlit(" ");
    reveal_strlit("/arxiv ");
    reveal_strlit("/attach");
    reveal_strlit("/chat");
    reveal_strlit("/chunker");
    reveal_strlit("/corpus");
    reveal_strlit("/download ");
    reveal_strlit("/embed");
    reveal_strlit("/get ");
    reveal_strlit("/help");
    reveal_strlit("/hist");
    reveal_strlit("/log");
    reveal_strlit("/memory");
    reveal_strlit("/parser");
    reveal_strlit("/profile");
    reveal_strlit("/prompt");
    reveal_strlit("/refs");
    reveal_strlit("/scholar ");
    reveal_strlit("/scholar");
    reveal_strlit("/search ");
    reveal_strlit("/search");
    let t = "/profile"@ + " "@ + (a + q);
    lemma_line("/profile"@, a, q);
    lemma_differs("/help"@, t, 1);
    lemma_differs("/attach"@, t, 1);
    lemma_differs("/download "@, t, 1);
    lemma_differs("/get "@, t, 1);
    lemma_differs("/scholar "@, t, 1);
    lemma_differs_in_case(t, "/scholar"@, 1);
    lemma_differs_in_case(t, "/search"@, 1);
    lemma_differs("/search "@, t, 1);
    lemma_differs("/arxiv "@, t, 1);
    lemma_differs("/refs"@, t, 1);
    lemma_differs("/chat"@, t, 1);
    lemma_differs("/embed"@, t, 1);
    lemma_differs("/chunker"@, t, 1);
    lemma_differs("/memory"@, t, 1);
    lemma_differs("/hist"@, t, 1);
    lemma_differs("/prompt"@, t, 4);
    lemma_differs("/log"@, t, 1);
    lemma_differs("/parser"@, t, 2);
    lemma_differs("/corpus"@, t, 1);
}

/// An address behind `/download` loses the escape sequences that a terminal puts
/// into what is pasted.
pub proof fn law_pasted_addresses_are_cleaned(q: Seq<char>)
    requires
        text::is_tight(q),
    ensures
        command_of("/download"@ + " "@ + q) == CommandView::Download(
            text::trimmed(ansi::stripped(q)),
        ),
{
    reveal_strlit(" ");
    reveal_strlit("/attach");
    reveal_strlit("/download ");
    reveal_strlit("/download");
    reveal_strlit("/help");
    let t = "/download"@ + " "@ + q;
    assert(Seq::<char>::empty() + q =~= q);
    lemma_line("/download"@, Seq::empty(), q);
    lemma_differs("/help"@, t, 1);
    lemma_differs("/attach"@, t, 1);
    assert("/download "@ =~= "/download"@ + " "@);
}

/// Any white space more between a command word and its argument does not count.
pub proof fn law_more_blanks_do_not_matter(a: Seq<char>, q: Seq<char>)
    requires
        text::is_blank(a),
        text::is_tight(q),
    ensures
        command_of("/attach"@ + " "@ + (a + q)) == CommandView::Attach(q),
        command_of("/get"@ + " "@ + (a + q)) == CommandView::GetPapers(q),
        command_of("/scholar"@ + " "@ + (a + q)) == CommandView::Scholar(q),
        command_of("/search"@ + " "@ + (a + q)) == CommandView::Search(q),
        command_of("/arxiv"@ + " "@ + (a + q)) == CommandView::SearchArxiv(q),
        command_of("/refs"@ + " "@ + (a + q)) == CommandView::ExtractRefs(q),
        command_of("/chat"@ + " "@ + (a + q)) == CommandView::Chat(q),
        command_of("/embed"@ + " "@ + (a + q)) == CommandView::Embed(q),
        command_of("/chunker"@ + " "@ + (a + q)) == CommandView::Chunker(q),
        command_of("/memory"@ + " "@ + (a + q)) == CommandView::Memory(q),
        command_of("/hist"@ + " "@ + (a + q)) == CommandView::Hist(q),
        command_of("/prompt"@ + " "@ + (a + q)) == CommandView::Prompt(q),
        command_of("/log"@ + " "@ + (a + q)) == CommandView::Log(q),
        command_of("/parser"@ + " "@ + (a + q)) == CommandView::Parser(q),
        command_of("/corpus"@ + " "@ + (a + q)) == CommandView::Corpus(q),
        command_of("/profile"@ + " "@ + (a + q)) == CommandView::Profile(q),
        !q.contains('\u{1b}') ==> command_of("/download"@ + " "@ + (a + q)) == CommandView::Download(q),
{
    lemma_attach_line(a, q);
    lemma_get_line(a, q);
    lemma_scholar_line(a, q);
    lemma_search_line(a, q);
    lemma_arxiv_line(a, q);
    lemma_refs_line(a, q);
    lemma_chat_line(a, q);
    lemma_embed_line(a, q);
    lemma_chunker_line(a, q);
    lemma_memory_line(a, q);
    lemma_hist_line(a, q);
    lemma_prompt_line(a, q);
    lemma_log_line(a, q);
    lemma_parser_line(a, q);
    lemma_corpus_line(a, q);
    lemma_profile_line(a, q);
    if !q.contains('\u{1b}') {
        lemma_download_line(a, q);
    }
}

/// What stands behind a command word and a blank is the argument of that
/// command: all of it, and as it stands.
pub proof fn law_the_rest_of_the_line_is_the_argument(q: Seq<char>)
    requires
        text::is_tight(q),
    ensures
        command_of("/attach"@ + " "@ + q) == CommandView::Attach(q),
        command_of("/get"@ + " "@ + q) == CommandView::GetPapers(q),
        command_of("/scholar"@ + " "@ + q) == CommandView::Scholar(q),
        command_of("/search"@ + " "@ + q) == CommandView::Search(q),
        command_of("/arxiv"@ + " "@ + q) == CommandView::SearchArxiv(q),
        command_of("/refs"@ + " "@ + q) == CommandView::ExtractRefs(q),
        command_of("/chat"@ + " "@ + q) == CommandView::Chat(q),
        command_of("/embed"@ + " "@ + q) == CommandView::Embed(q),
        command_of("/chunker"@ + " "@ + q) == CommandView::Chunker(q),
        command_of("/memory"@ + " "@ + q) == CommandView::Memory(q),
        command_of("/hist"@ + " "@ + q) == CommandView::Hist(q),
        command_of("/prompt"@ + " "@ + q) == CommandView::Prompt(q),
        command_of("/log"@ + " "@ + q) == CommandView::Log(q),
        command_of("/parser"@ + " "@ + q) == CommandView::Parser(q),
        command_of("/corpus"@ + " "@ + q) == CommandView::Corpus(q),
        command_of("/profile"@ + " "@ + q) == CommandView::Profile(q),
        !q.contains('\u{1b}') ==> command_of("/download"@ + " "@ + q) == CommandView::Download(q),
{
    assert(Seq::<char>::empty() + q =~= q);
    law_more_blanks_do_not_matter(Seq::empty(), q);
}

/// `/search` and `/scholar` alone count in any case and have no argument.
pub proof fn law_bare_searches_have_no_argument(s: Seq<char>)
    ensures
        text::same_ignoring_case(s, "/search"@) ==> command_of(s) == CommandView::Search(
            Seq::empty(),
        ),
        text::same_ignoring_case(s, "/scholar"@) ==> command_of(s) == CommandView::Scholar(
            Seq::empty(),
        ),
{
    if text::same_ignoring_case(s, "/search"@) || text::same_ignoring_case(s, "/scholar"@) {
        reveal_strlit("/search");
        reveal_strlit("/scholar");
        reveal_strlit("/help");
        reveal_strlit("/attach");
        reveal_strlit("/download ");
        reveal_strlit("/get ");
        reveal_strlit("/scholar ");
        reveal_strlit("exit");
        reveal_strlit("quit");
        reveal_strlit("/exit");
        reveal_strlit("/bye");
        let low = text::ascii_lowered(s);
        let n = s.len() as int;
        assert(low.len() == n);
        assert(n == 7 || n == 8);
        assert(low == text::ascii_lowered("/search"@) || low == text::ascii_lowered("/scholar"@));
        assert(low[0] == '/' && low[1] == 's');
        assert(text::ascii_lower(s[0]) == '/');
        assert(text::ascii_lower(s[1]) == 's');
        assert(text::ascii_lower(s[n - 1]) == low[n - 1]);
        assert(!text::is_space(s[n - 1]));
        text::lemma_tight_is_trimmed(s);
        lemma_differs("/attach"@, s, 1);
        lemma_differs("/download "@, s, 1);
        lemma_differs("/get "@, s, 1);
        assert(text::ascii_lowered("/search"@).len() != text::ascii_lowered("/scholar"@).len());
    }
}

/// A command word alone is that command without an argument.
pub proof fn law_bare_words_have_no_argument()
    ensures
        command_of("/help"@) == CommandView::Help,
        command_of("/attach"@) == CommandView::Attach(Seq::empty()),
        command_of("/log"@) == CommandView::Log(Seq::empty()),
        command_of("/memory"@) == CommandView::Memory(Seq::empty()),
        command_of("/refs"@) == CommandView::ExtractRefs(Seq::empty()),
        command_of("/chat"@) == CommandView::Chat(Seq::empty()),
        command_of("/embed"@) == CommandView::Embed(Seq::empty()),
        command_of("/chunker"@) == CommandView::Chunker(Seq::empty()),
        command_of("/hist"@) == CommandView::Hist(Seq::empty()),
        command_of("/prompt"@) == CommandView::Prompt(Seq::empty()),
        command_of("/parser"@) == CommandView::Parser(Seq::empty()),
        command_of("/corpus"@) == CommandView::Corpus(Seq::empty()),
        command_of("/profile"@) == CommandView::Profile(Seq::empty()),
{
    lemma_bare_refs();
    lemma_bare_chat();
    lemma_bare_embed();
    lemma_bare_chunker();
    lemma_bare_hist();
    lemma_bare_prompt();
    lemma_bare_parser();
    lemma_bare_corpus();
    lemma_bare_profile();
    reveal_strlit("/help");
    reveal_strlit("/attach");
    text::lemma_tight_is_trimmed("/help"@);
    text::lemma_tight_is_trimmed("/attach"@);
    reveal_strlit("exit");
    reveal_strlit("quit");
    reveal_strlit("/exit");
    reveal_strlit("/bye");
    lemma_differs("/help"@, "/attach"@, 1);
    lemma_differs("/exit"@, "/help"@, 1);
    assert("/attach"@.skip(7) =~= Seq::<char>::empty());
    assert("/attach"@.is_prefix_of("/attach"@));
    lemma_bare_log();
    lemma_bare_memory();
}

proof fn lemma_bare_refs()
    ensures
        command_of("/refs"@) == CommandView::ExtractRefs(Seq::empty()),
{
    reveal_strlit("/arxiv ");
    reveal_strlit("/attach");
    reveal_strlit("/bye");
    reveal_strlit("/download ");
    reveal_strlit("/exit");
    reveal_strlit("/get ");
    reveal_strlit("/help");
    reveal_strlit("/refs");
    reveal_strlit("/scholar");
    reveal_strlit("/scholar ");
    reveal_strlit("/search");
    reveal_strlit("/search ");
    reveal_strlit("exit");
    reveal_strlit("quit");
    let t = "/refs"@;
    text::lemma_tight_is_trimmed(t);
    lemma_differs("/help"@, t, 1);
    lemma_differs("/attach"@, t, 1);
    lemma_differs("/download "@, t, 1);
    lemma_differs("/get "@, t, 1);
    lemma_differs("/scholar "@, t, 1);
    lemma_differs_in_case(t, "/scholar"@, 1);
    lemma_differs_in_case(t, "/search"@, 1);
    lemma_differs("/search "@, t, 1);
    lemma_differs("/arxiv "@, t, 1);
    lemma_differs("/exit"@, t, 1);
    lemma_differs("/bye"@, t, 1);
    lemma_differs("exit"@, t, 0);
    lemma_differs("quit"@, t, 0);
    assert(t.is_prefix_of(t));
    assert(t.skip(5) =~= Seq::<char>::empty());
}

proof fn lemma_bare_chat()
    ensures
        command_of("/chat"@) == CommandView::Chat(Seq::empty()),
{
    reveal_strlit("/arxiv ");
    reveal_strlit("/attach");
    reveal_strlit("/bye");
    reveal_strlit("/chat");
    reveal_strlit("/download ");
    reveal_strlit("/exit");
    reveal_strlit("/get ");
    reveal_strlit("/help");
    reveal_strlit("/refs");
    reveal_strlit("/scholar");
    reveal_strlit("/scholar ");
    reveal_strlit("/search");
    reveal_strlit("/search ");
    reveal_strlit("exit");
    reveal_strlit("quit");
    let t = "/chat"@;
    text::lemma_tight_is_trimmed(t);
    lemma_differs("/help"@, t, 1);
    lemma_differs("/attach"@, t, 1);
    lemma_differs("/download "@, t, 1);
    lemma_differs("/get "@, t, 1);
    lemma_differs("/scholar "@, t, 1);
    lemma_differs_in_case(t, "/scholar"@, 1);
    lemma_differs_in_case(t, "/search"@, 1);
    lemma_differs("/search "@, t, 1);
    lemma_differs("/arxiv "@, t, 1);
    lemma_differs("/refs"@, t, 1);
    lemma_differs("/exit"@, t, 1);
    lemma_differs("/bye"@, t, 1);
    lemma_differs("exit"@, t, 0);
    lemma_differs("quit"@, t, 0);
    assert(t.is_prefix_of(t));
    assert(t.skip(5) =~= Seq::<char>::empty());
}

proof fn lemma_bare_embed()
    ensures
        command_of("/embed"@) == CommandView::Embed(Seq::empty()),
{
    reveal_strlit("/arxiv ");
    reveal_strlit("/attach");
    reveal_strlit("/bye");
    reveal_strlit("/chat");
    reveal_strlit("/download ");
    reveal_strlit("/embed");
    reveal_strlit("/exit");
    reveal_strlit("/get ");
    reveal_strlit("/help");
    reveal_strlit("/refs");
    reveal_strlit("/scholar");
    reveal_strlit("/scholar ");
    reveal_strlit("/search");
    reveal_strlit("/search ");
    reveal_strlit("exit");
    reveal_strlit("quit");
    let t = "/embed"@;
    text::lemma_tight_is_trimmed(t);
    lemma_differs("/help"@, t, 1);
    lemma_differs("/attach"@, t, 1);
    lemma_differs("/download "@, t, 1);
    lemma_differs("/get "@, t, 1);
    lemma_differs("/scholar "@, t, 1);
    lemma_differs_in_case(t, "/scholar"@, 1);
    lemma_differs_in_case(t, "/search"@, 1);
    lemma_differs("/search "@, t, 1);
    lemma_differs("/arxiv "@, t, 1);
    lemma_differs("/refs"@, t, 1);
    lemma_differs("/chat"@, t, 1);
    lemma_differs("/exit"@, t, 2);
    lemma_differs("/bye"@, t, 1);
    lemma_differs("exit"@, t, 0);
    lemma_differs("quit"@, t, 0);
    assert(t.is_prefix_of(t));
    assert(t.skip(6) =~= Seq::<char>::empty());
}

proof fn lemma_bare_chunker()
    ensures
        command_of("/chunker"@) == CommandView::Chunker(Seq::empty()),
{
    reveal_strlit("/arxiv ");
    reveal_strlit("/attach");
    reveal_strlit("/bye");
    reveal_strlit("/chat");
    reveal_strlit("/chunker");
    reveal_strlit("/download ");
    reveal_strlit("/embed");
    reveal_strlit("/exit");
    reveal_strlit("/get ");
    reveal_strlit("/help");
    reveal_strlit("/refs");
    reveal_strlit("/scholar");
    reveal_strlit("/scholar ");
    reveal_strlit("/search");
    reveal_strlit("/search ");
    reveal_strlit("exit");
    reveal_strlit("quit");
    let t = "/chunker"@;
    text::lemma_tight_is_trimmed(t);
    lemma_differs("/help"@, t, 1);
    lemma_differs("/attach"@, t, 1);
    lemma_differs("/download "@, t, 1);
    lemma_differs("/get "@, t, 1);
    lemma_differs("/scholar "@, t, 1);
    lemma_differs_in_case(t, "/scholar"@, 1);
    lemma_differs_in_case(t, "/search"@, 1);
    lemma_differs("/search "@, t, 1);
    lemma_differs("/arxiv "@, t, 1);
    lemma_differs("/refs"@, t, 1);
    lemma_differs("/chat"@, t, 3);
    lemma_differs("/embed"@, t, 1);
    lemma_differs("/exit"@, t, 1);
    lemma_differs("/bye"@, t, 1);
    lemma_differs("exit"@, t, 0);
    lemma_differs("quit"@, t, 0);
    assert(t.is_prefix_of(t));
    assert(t.skip(8) =~= Seq::<char>::empty());
}

proof fn lemma_bare_hist()
    ensures
        command_of("/hist"@) == CommandView::Hist(Seq::empty()),
{
    reveal_strlit("/arxiv ");
    reveal_strlit("/attach");
    reveal_strlit("/bye");
    reveal_strlit("/chat");
    reveal_strlit("/chunker");
    reveal_strlit("/download ");
    reveal_strlit("/embed");
    reveal_strlit("/exit");
    reveal_strlit("/get ");
    reveal_strlit("/help");
    reveal_strlit("/hist");
    reveal_strlit("/memory");
    reveal_strlit("/refs");
    reveal_strlit("/scholar");
    reveal_strlit("/scholar ");
    reveal_strlit("/search");
    reveal_strlit("/search ");
    reveal_strlit("exit");
    reveal_strlit("quit");
    let t = "/hist"@;
    text::lemma_tight_is_trimmed(t);
    lemma_differs("/help"@, t, 2);
    lemma_differs("/attach"@, t, 1);
    lemma_differs("/download "@, t, 1);
    lemma_differs("/get "@, t, 1);
    lemma_differs("/scholar "@, t, 1);
    lemma_differs_in_case(t, "/scholar"@, 1);
    lemma_differs_in_case(t, "/search"@, 1);
    lemma_differs("/search "@, t, 1);
    lemma_differs("/arxiv "@, t, 1);
    lemma_differs("/refs"@, t, 1);
    lemma_differs("/chat"@, t, 1);
    lemma_differs("/embed"@, t, 1);
    lemma_differs("/chunker"@, t, 1);
    lemma_differs("/memory"@, t, 1);
    lemma_differs("/exit"@, t, 1);
    lemma_differs("/bye"@, t, 1);
    lemma_differs("exit"@, t, 0);
    lemma_differs("quit"@, t, 0);
    assert(t.is_prefix_of(t));
    assert(t.skip(5) =~= Seq::<char>::empty());
}

proof fn lemma_bare_prompt()
    ensures
        command_of("/prompt"@) == CommandView::Prompt(Seq::empty()),
{
    reveal_strlit("/arxiv ");
    reveal_strlit("/attach");
    reveal_strlit("/bye");
    reveal_strlit("/chat");
    reveal_strlit("/chunker");
    reveal_strlit("/download ");
    reveal_strlit("/embed");
    reveal_strlit("/exit");
    reveal_strlit("/get ");
    reveal_strlit("/help");
    reveal_strlit("/hist");
    reveal_strlit("/memory");
    reveal_strlit("/prompt");
    reveal_strlit("/refs");
    reveal_strlit("/scholar");
    reveal_strlit("/scholar ");
    reveal_strlit("/search");
    reveal_strlit("/search ");
    reveal_strlit("exit");
    reveal_strlit("quit");
    let t = "/prompt"@;
    text::lemma_tight_is_trimmed(t);
    lemma_differs("/help"@, t, 1);
    lemma_differs("/attach"@, t, 1);
    lemma_differs("/download "@, t, 1);
    lemma_differs("/get "@, t, 1);
    lemma_differs("/scholar "@, t, 1);
    lemma_differs_in_case(t, "/scholar"@, 1);
    lemma_differs_in_case(t, "/search"@, 1);
    lemma_differs("/search "@, t, 1);
    lemma_differs("/arxiv "@, t, 1);
    lemma_differs("/refs"@, t, 1);
    lemma_differs("/chat"@, t, 1);
    lemma_differs("/embed"@, t, 1);
    lemma_differs("/chunker"@, t, 1);
    lemma_differs("/memory"@, t, 1);
    lemma_differs("/hist"@, t, 1);
    lemma_differs("/exit"@, t, 1);
    lemma_differs("/bye"@, t, 1);
    lemma_differs("exit"@, t, 0);
    lemma_differs("quit"@, t, 0);
    assert(t.is_prefix_of(t));
    assert(t.skip(7) =~= Seq::<char>::empty());
}

proof fn lemma_bare_parser()
    ensures
        command_of("/parser"@) == CommandView::Parser(Seq::empty()),
{
    reveal_strlit("/arxiv ");
    reveal_strlit("/attach");
    reveal_strlit("/bye");
    reveal_strlit("/chat");
    reveal_strlit("/chunker");
    reveal_strlit("/download ");
    reveal_strlit("/embed");
    reveal_strlit("/exit");
    reveal_strlit("/get ");
    reveal_strlit("/help");
    reveal_strlit("/hist");
    reveal_strlit("/log");
    reveal_strlit("/memory");
    reveal_strlit("/parser");
    reveal_strlit("/prompt");
    reveal_strlit("/refs");
    reveal_strlit("/scholar");
    reveal_strlit("/scholar ");
    reveal_strlit("/search");
    reveal_strlit("/search ");
    reveal_strlit("exit");
    reveal_strlit("quit");
    let t = "/parser"@;
    text::lemma_tight_is_trimmed(t);
    lemma_differs("/help"@, t, 1);
    lemma_differs("/attach"@, t, 1);
    lemma_differs("/download "@, t, 1);
    lemma_differs("/get "@, t, 1);
    lemma_differs("/scholar "@, t, 1);
    lemma_differs_in_case(t, "/scholar"@, 1);
    lemma_differs_in_case(t, "/search"@, 1);
    lemma_differs("/search "@, t, 1);
    lemma_differs("/arxiv "@, t, 1);
    lemma_differs("/refs"@, t, 1);
    lemma_differs("/chat"@, t, 1);
    lemma_differs("/embed"@, t, 1);
    lemma_differs("/chunker"@, t, 1);
    lemma_differs("/memory"@, t, 1);
    lemma_differs("/hist"@, t, 1);
    lemma_differs("/prompt"@, t, 2);
    lemma_differs("/log"@, t, 1);
    lemma_differs("/exit"@, t, 1);
    lemma_differs("/bye"@, t, 1);
    lemma_differs("exit"@, t, 0);
    lemma_differs("quit"@, t, 0);
    assert(t.is_prefix_of(t));
    assert(t.skip(7) =~= Seq::<char>::empty());
}

proof fn lemma_bare_corpus()
    ensures
        command_of("/corpus"@) == CommandView::Corpus(Seq::empty()),
{
    reveal_strlit("/arxiv ");
    reveal_strlit("/attach");
    reveal_strlit("/bye");
    reveal_strlit("/chat");
    reveal_strlit("/chunker");
    reveal_strlit("/corpus");
    reveal_strlit("/download ");
    reveal_strlit("/embed");
    reveal_strlit("/exit");
    reveal_strlit("/get ");
    reveal_strlit("/help");
    reveal_strlit("/hist");
    reveal_strlit("/log");
    reveal_strlit("/memory");
    reveal_strlit("/parser");
    reveal_strlit("/prompt");
    reveal_strlit("/refs");
    reveal_strlit("/scholar");
    reveal_strlit("/scholar ");
    reveal_strlit("/search");
    reveal_strlit("/search ");
    reveal_strlit("exit");
    reveal_strlit("quit");
    let t = "/corpus"@;
    text::lemma_tight_is_trimmed(t);
    lemma_differs("/help"@, t, 1);
    lemma_differs("/attach"@, t, 1);
    lemma_differs("/download "@, t, 1);
    lemma_differs("/get "@, t, 1);
    lemma_differs("/scholar "@, t, 1);
    lemma_differs_in_case(t, "/scholar"@, 1);
    lemma_differs_in_case(t, "/search"@, 1);
    lemma_differs("/search "@, t, 1);
    lemma_differs("/arxiv "@, t, 1);
    lemma_differs("/refs"@, t, 1);
    lemma_differs("/chat"@, t, 2);
    lemma_differs("/embed"@, t, 1);
    lemma_differs("/chunker"@, t, 2);
    lemma_differs("/memory"@, t, 1);
    lemma_differs("/hist"@, t, 1);
    lemma_differs("/prompt"@, t, 1);
    lemma_differs("/log"@, t, 1);
    lemma_differs("/parser"@, t, 1);
    lemma_differs("/exit"@, t, 1);
    lemma_differs("/bye"@, t, 1);
    lemma_differs("exit"@, t, 0);
    lemma_differs("quit"@, t, 0);
    assert(t.is_prefix_of(t));
    assert(t.skip(7) =~= Seq::<char>::empty());
}

proof fn lemma_bare_profile()
    ensures
        command_of("/profile"@) == CommandView::Profile(Seq::empty()),
{
    reveal_strlit("/arxiv ");
    reveal_strlit("/attach");
    reveal_strlit("/bye");
    reveal_strlit("/chat");
    reveal_strlit("/chunker");
    reveal_strlit("/corpus");
    reveal_strlit("/download ");
    reveal_strlit("/embed");
    reveal_strlit("/exit");
    reveal_strlit("/get ");
    reveal_strlit("/help");
    reveal_strlit("/hist");
    reveal_strlit("/log");
    reveal_strlit("/memory");
    reveal_strlit("/parser");
    reveal_strlit("/profile");
    reveal_strlit("/prompt");
    reveal_strlit("/refs");
    reveal_strlit("/scholar");
    reveal_strlit("/scholar ");
    reveal_strlit("/search");
    reveal_strlit("/search ");
    reveal_strlit("exit");
    reveal_strlit("quit");
    let t = "/profile"@;
    text::lemma_tight_is_trimmed(t);
    lemma_differs("/help"@, t, 1);
    lemma_differs("/attach"@, t, 1);
    lemma_differs("/download "@, t, 1);
    lemma_differs("/get "@, t, 1);
    lemma_differs("/scholar "@, t, 1);
    lemma_differs_in_case(t, "/scholar"@, 1);
    lemma_differs_in_case(t, "/search"@, 1);
    lemma_differs("/search "@, t, 1);
    lemma_differs("/arxiv "@, t, 1);
    lemma_differs("/refs"@, t, 1);
    lemma_differs("/chat"@, t, 1);
    lemma_differs("/embed"@, t, 1);
    lemma_differs("/chunker"@, t, 1);
    lemma_differs("/memory"@, t, 1);
    lemma_differs("/hist"@, t, 1);
    lemma_differs("/prompt"@, t, 4);
    lemma_differs("/log"@, t, 1);
    lemma_differs("/parser"@, t, 2);
    lemma_differs("/corpus"@, t, 1);
    lemma_differs("/exit"@, t, 1);
    lemma_differs("/bye"@, t, 1);
    lemma_differs("exit"@, t, 0);
    lemma_differs("quit"@, t, 0);
    assert(t.is_prefix_of(t));
    assert(t.skip(8) =~= Seq::<char>::empty());
}

proof fn lemma_bare_log()
    ensures
        command_of("/log"@) == CommandView::Log(Seq::empty()),
{
    reveal_strlit("/arxiv ");
    reveal_strlit("/attach");
    reveal_strlit("/bye");
    reveal_strlit("/chat");
    reveal_strlit("/chunker");
    reveal_strlit("/download ");
    reveal_strlit("/embed");
    reveal_strlit("/exit");
    reveal_strlit("/get ");
    reveal_strlit("/help");
    reveal_strlit("/hist");
    reveal_strlit("/log");
    reveal_strlit("/memory");
    reveal_strlit("/prompt");
    reveal_strlit("/refs");
    reveal_strlit("/scholar");
    reveal_strlit("/scholar ");
    reveal_strlit("/search");
    reveal_strlit("/search ");
    reveal_strlit("exit");
    reveal_strlit("quit");
    let t = "/log"@;
    text::lemma_tight_is_trimmed(t);
    lemma_differs("/help"@, t, 1);
    lemma_differs("/attach"@, t, 1);
    lemma_differs("/download "@, t, 1);
    lemma_differs("/get "@, t, 1);
    lemma_differs("/scholar "@, t, 1);
    lemma_differs_in_case(t, "/scholar"@, 1);
    lemma_differs_in_case(t, "/search"@, 1);
    lemma_differs("/search "@, t, 1);
    lemma_differs("/arxiv "@, t, 1);
    lemma_differs("/refs"@, t, 1);
    lemma_differs("/chat"@, t, 1);
    lemma_differs("/embed"@, t, 1);
    lemma_differs("/chunker"@, t, 1);
    lemma_differs("/memory"@, t, 1);
    lemma_differs("/hist"@, t, 1);
    lemma_differs("/prompt"@, t, 1);
    lemma_differs("/exit"@, t, 1);
    lemma_differs("/bye"@, t, 1);
    lemma_differs("exit"@, t, 0);
    lemma_differs("quit"@, t, 0);
    assert(t.is_prefix_of(t));
    assert(t.skip(4) =~= Seq::<char>::empty());
}

proof fn lemma_bare_memory()
    ensures
        command_of("/memory"@) == CommandView::Memory(Seq::empty()),
{
    reveal_strlit("/arxiv ");
    reveal_strlit("/attach");
    reveal_strlit("/bye");
    reveal_strlit("/chat");
    reveal_strlit("/chunker");
    reveal_strlit("/download ");
    reveal_strlit("/embed");
    reveal_strlit("/exit");
    reveal_strlit("/get ");
    reveal_strlit("/help");
    reveal_strlit("/memory");
    reveal_strlit("/refs");
    reveal_strlit("/scholar");
    reveal_strlit("/scholar ");
    reveal_strlit("/search");
    reveal_strlit("/search ");
    reveal_strlit("exit");
    reveal_strlit("quit");
    let t = "/memory"@;
    text::lemma_tight_is_trimmed(t);
    lemma_differs("/help"@, t, 1);
    lemma_differs("/attach"@, t, 1);
    lemma_differs("/download "@, t, 1);
    lemma_differs("/get "@, t, 1);
    lemma_differs("/scholar "@, t, 1);
    lemma_differs_in_case(t, "/scholar"@, 1);
    lemma_differs_in_case(t, "/search"@, 1);
    lemma_differs("/search "@, t, 1);
    lemma_differs("/arxiv "@, t, 1);
    lemma_differs("/refs"@, t, 1);
    lemma_differs("/chat"@, t, 1);
    lemma_differs("/embed"@, t, 1);
    lemma_differs("/chunker"@, t, 1);
    lemma_differs("/exit"@, t, 1);
    lemma_differs("/bye"@, t, 1);
    lemma_differs("exit"@, t, 0);
    lemma_differs("quit"@, t, 0);
    assert(t.is_prefix_of(t));
    assert(t.skip(7) =~= Seq::<char>::empty());
}

/// A text that begins with neither a slash nor white space is a question, with
/// exactly that text, however much white space surrounds it; the two words that
/// end a session are the exception.
pub proof fn law_plain_text_is_asked_as_it_stands(a: Seq<char>, q: Seq<char>, b: Seq<char>)
    requires
        text::is_blank(a),
        text::is_tight(q),
        text::is_blank(b),
        q[0] != '/',
        q != "exit"@,
        q != "quit"@,
    ensures
        command_of(a + q + b) == CommandView::RagQuery(q),
{
    text::law_trimming_removes_what_surrounds(a, q, b);
    reveal_strlit("/exit");
    reveal_strlit("/bye");
}

/// A line ends the session exactly where it says one of the four words for it.
pub proof fn law_four_words_end_a_session(a: Seq<char>, q: Seq<char>, b: Seq<char>)
    requires
        text::is_blank(a),
        text::is_tight(q),
        text::is_blank(b),
    ensures
        command_of(a + q + b) is Exit <==> q == "exit"@ || q == "quit"@ || q == "/exit"@ || q
            == "/bye"@,
{
    text::law_trimming_removes_what_surrounds(a, q, b);
}

/// A line with a slash is an unknown command, and nothing of it is lost, where it
/// neither begins with a command word nor is one of the words that stand alone.
pub proof fn law_lines_without_a_command_word_are_unknown(s: Seq<char>)
    requires
        text::is_tight(s),
        s[0] == '/',
        s != "/exit"@ && s != "/bye"@ && s != "/help"@,
        !text::same_ignoring_case(s, "/scholar"@) && !text::same_ignoring_case(s, "/search"@),
        !"/attach"@.is_prefix_of(s),
        !"/download "@.is_prefix_of(s),
        !"/get "@.is_prefix_of(s),
        !"/scholar "@.is_prefix_of(s),
        !"/search "@.is_prefix_of(s),
        !"/arxiv "@.is_prefix_of(s),
        !"/refs"@.is_prefix_of(s),
        !"/chat"@.is_prefix_of(s),
        !"/embed"@.is_prefix_of(s),
        !"/chunker"@.is_prefix_of(s),
        !"/memory"@.is_prefix_of(s),
        !"/hist"@.is_prefix_of(s),
        !"/prompt"@.is_prefix_of(s),
        !"/log"@.is_prefix_of(s),
        !"/parser"@.is_prefix_of(s),
        !"/corpus"@.is_prefix_of(s),
        !"/profile"@.is_prefix_of(s),
    ensures
        command_of(s) == CommandView::Unknown(s),
{
    text::lemma_tight_is_trimmed(s);
    reveal_strlit("exit");
    reveal_strlit("quit");
    lemma_differs("exit"@, s, 0);
    lemma_differs("quit"@, s, 0);
}

/// A slash before a letter with which no command begins is an unknown command,
/// and nothing of the line is lost.
pub proof fn law_other_slash_lines_are_unknown(s: Seq<char>)
    requires
        text::is_tight(s),
        s.len() > 1,
        s[0] == '/',
        text::ascii_lower(s[1]) == s[1],
        !"abcdeghlmprs"@.contains(s[1]),
    ensures
        command_of(s) == CommandView::Unknown(s),
{
    let c = s[1];
    reveal_strlit("abcdeghlmprs");
    let known = "abcdeghlmprs"@;
    assert(known.contains(known[0]) && known.contains(known[1]) && known.contains(known[2])
        && known.contains(known[3]) && known.contains(known[4]) && known.contains(known[5])
        && known.contains(known[6]) && known.contains(known[7]) && known.contains(known[8])
        && known.contains(known[9]) && known.contains(known[10]) && known.contains(known[11]));
    text::lemma_tight_is_trimmed(s);
    reveal_strlit("/arxiv ");
    reveal_strlit("/attach");
    reveal_strlit("/bye");
    reveal_strlit("/chat");
    reveal_strlit("/chunker");
    reveal_strlit("/corpus");
    reveal_strlit("/download ");
    reveal_strlit("/embed");
    reveal_strlit("/exit");
    reveal_strlit("/get ");
    reveal_strlit("/help");
    reveal_strlit("/hist");
    reveal_strlit("/log");
    reveal_strlit("/memory");
    reveal_strlit("/parser");
    reveal_strlit("/profile");
    reveal_strlit("/prompt");
    reveal_strlit("/refs");
    reveal_strlit("/scholar");
    reveal_strlit("/scholar ");
    reveal_strlit("/search");
    reveal_strlit("/search ");
    reveal_strlit("exit");
    reveal_strlit("quit");
    lemma_differs("/help"@, s, 1);
    lemma_differs("/attach"@, s, 1);
    lemma_differs("/download "@, s, 1);
    lemma_differs("/get "@, s, 1);
    lemma_differs("/scholar "@, s, 1);
    lemma_differs_in_case(s, "/scholar"@, 1);
    lemma_differs_in_case(s, "/search"@, 1);
    lemma_differs("/search "@, s, 1);
    lemma_differs("/arxiv "@, s, 1);
    lemma_differs("/refs"@, s, 1);
    lemma_differs("/chat"@, s, 1);
    lemma_differs("/embed"@, s, 1);
    lemma_differs("/chunker"@, s, 1);
    lemma_differs("/memory"@, s, 1);
    lemma_differs("/hist"@, s, 1);
    lemma_differs("/prompt"@, s, 1);
    lemma_differs("/log"@, s, 1);
    lemma_differs("/parser"@, s, 1);
    lemma_differs("/corpus"@, s, 1);
    lemma_differs("/profile"@, s, 1);
    lemma_differs("/exit"@, s, 1);
    lemma_differs("/bye"@, s, 1);
}

/// The argument behind a command word, where `s` starts with that word.
fn loose(s: &str, word: &str) -> (r: Option<String>)
    ensures
        match r {
            Some(t) => word@.is_prefix_of(s@) && t@ == loose_argument(after(s@, word@)),
            None => !word@.is_prefix_of(s@),
        },
{
    match text::strip_prefix(s, word) {
        Some(rest) => {
            let v = text::chars_of(rest.as_str());
            if v.len() > 1 || (v.len() == 1 && v[0] > '\u{7f}') {
                Some(text::trim(rest.as_str()))
            } else {
                Some(String::new())
            }
        },
        None => None,
    }
}

/// The argument behind a command word with a blank, where `s` starts with that
/// word.
fn strict(s: &str, word: &str) -> (r: Option<String>)
    ensures
        match r {
            Some(t) => word@.is_prefix_of(s@) && t@ == text::trimmed(after(s@, word@)),
            None => !word@.is_prefix_of(s@),
        },
{
    match text::strip_prefix(s, word) {
        Some(rest) => Some(text::trim(rest.as_str())),
        None => None,
    }
}

/// The command that `s` stands for, which starts with a slash and is trimmed.
fn read_slash(s: &str) -> (r: Command)
    ensures
        r@ == slash_command(s@),
{
    if text::same(s, "/help") {
        return Command::Help;
    }
    if let Some(a) = loose(s, "/attach") {
        return Command::Attach(a);
    }
    if let Some(rest) = text::strip_prefix(s, "/download ") {
        let plain = ansi::strip_ansi(rest.as_str());
        return Command::Download(text::trim(plain.as_str()));
    }
    if let Some(a) = strict(s, "/get ") {
        return Command::GetPapers(a);
    }
    if let Some(a) = strict(s, "/scholar ") {
        return Command::Scholar(a);
    }
    if text::eq_ignore_ascii_case(s, "/scholar") {
        return Command::Scholar(String::new());
    }
    if text::eq_ignore_ascii_case(s, "/search") {
        return Command::Search(String::new());
    }
    if let Some(a) = strict(s, "/search ") {
        return Command::Search(a);
    }
    if let Some(a) = strict(s, "/arxiv ") {
        return Command::SearchArxiv(a);
    }
    if let Some(a) = loose(s, "/refs") {
        return Command::ExtractRefs(a);
    }
    if let Some(a) = loose(s, "/chat") {
        return Command::Chat(a);
    }
    if let Some(a) = loose(s, "/embed") {
        return Command::Embed(a);
    }
    if let Some(a) = loose(s, "/chunker") {
        return Command::Chunker(a);
    }
    if let Some(a) = loose(s, "/memory") {
        return Command::Memory(a);
    }
    if let Some(a) = loose(s, "/hist") {
        return Command::Hist(a);
    }
    if let Some(a) = loose(s, "/prompt") {
        return Command::Prompt(a);
    }
    if let Some(a) = loose(s, "/log") {
        return Command::Log(a);
    }
    if let Some(a) = loose(s, "/parser") {
        return Command::Parser(a);
    }
    if let Some(a) = loose(s, "/corpus") {
        return Command::Corpus(a);
    }
    if let Some(a) = loose(s, "/profile") {
        return Command::Profile(a);
    }
    Command::Unknown(s.to_owned())
}

impl From<&str> for Command {
    /// Reads a line of input.
    fn from(input: &str) -> (r: Command)
        ensures
            r@ == command_of(input@),
    {
        let s = text::trim(input);
        if text::same(s.as_str(), "exit") || text::same(s.as_str(), "quit") || text::same(
            s.as_str(),
            "/exit",
        ) || text::same(s.as_str(), "/bye") {
            return Command::Exit;
        }
        let v = text::chars_of(s.as_str());
        if v.len() == 0 || v[0] != '/' {
            return Command::RagQuery(s);
        }
        read_slash(s.as_str())
    }
}

impl vstd::std_specs::convert::FromSpecImpl<&str> for Command {
    open spec fn obeys_from_spec() -> bool {
        false
    }

    open spec fn from_spec(input: &str) -> Command {
        choose|c: Command| c@ == command_of(input@)
    }
}

} // verus!
