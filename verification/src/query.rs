//! Questions: what is shown around an answer, what happens when the context
//! overflows, and the extraction of references.

use vstd::prelude::*;

use crate::chat;
use crate::number;
use crate::text;

verus! {

/// What happens when a prompt does not fit into the context window.
#[derive(Debug, Clone, Copy, PartialEq, Eq, Structural)]
pub enum ContextSizeMode {
    /// The budget shrinks, and the question is asked once more.
    Auto,
    /// The overflow is an error.
    Forced,
}

/// An answer that is complete.
#[derive(Debug)]
pub struct AnswerInfo {
    /// The number of chunks that went into the prompt.
    pub chunks: Option<usize>,
    /// The number of tokens received.
    pub tokens: usize,
    /// The documents that the chunks come from.
    pub documents: Option<Vec<String>>,
    /// The number of attachments of the question.
    pub attached: usize,
    /// The time in seconds, written with one decimal.
    pub seconds: String,
}

/// The line below an answer.
pub open spec fn footer(a: AnswerInfo) -> Seq<char> {
    let chunks = match a.chunks {
        Some(n) => n as nat,
        None => 0,
    };
    let sources = match a.documents {
        Some(d) => " from ["@ + text::joined(text::texts(d@), ", "@) + "]"@,
        None => Seq::empty(),
    };
    let attachments = if a.attached > 0 {
        " + "@ + number::decimal(a.attached as nat) + " attached doc(s)"@
    } else {
        Seq::empty()
    };
    "--- "@ + number::decimal(chunks) + " chunks | "@ + number::decimal(a.tokens as nat)
        + " tokens"@ + sources + attachments + " in "@ + a.seconds@ + "s ---"@
}

/// The line below an answer.
pub fn answer_footer(a: &AnswerInfo) -> (r: String)
    ensures
        r@ == footer(*a),
{
    let mut m = "--- ".to_string();
    let chunks: usize = match a.chunks {
        Some(n) => n,
        None => 0,
    };
    let n = number::show_usize(chunks);
    m.append(n.as_str());
    m.append(" chunks | ");
    let t = number::show_usize(a.tokens);
    m.append(t.as_str());
    m.append(" tokens");
    let mut sources = String::new();
    if let Some(d) = &a.documents {
        sources = " from [".to_string();
        let names = text::join(d, ", ");
        sources.append(names.as_str());
        sources.append("]");
    }
    m.append(sources.as_str());
    let mut attachments = String::new();
    if a.attached > 0 {
        attachments = " + ".to_string();
        let k = number::show_usize(a.attached);
        attachments.append(k.as_str());
        attachments.append(" attached doc(s)");
    }
    m.append(attachments.as_str());
    m.append(" in ");
    m.append(a.seconds.as_str());
    m.append("s ---");
    m
}

/// The line below an answer that was cancelled.
pub open spec fn cancelled_text(tokens: nat) -> Seq<char> {
    "[cancelled after "@ + number::decimal(tokens) + " tokens]"@
}

/// The line below an answer that was cancelled.
pub fn cancelled_line(tokens: usize) -> (r: String)
    ensures
        r@ == cancelled_text(tokens as nat),
{
    let mut m = "[cancelled after ".to_string();
    let n = number::show_usize(tokens);
    m.append(n.as_str());
    m.append(" tokens]");
    m
}

/// A chunk that the last question or search found.
#[derive(Debug)]
pub struct FoundChunk {
    pub document: String,
    pub text: String,
}

/// One question on its way to an answer.
#[derive(Debug, Clone, Copy, PartialEq, Eq, Structural)]
pub struct QueryRun {
    pub mode: ContextSizeMode,
    /// Whether the question was asked a second time.
    pub retried: bool,
}

/// What became of a question that was asked.
#[derive(Debug)]
pub enum QueryEvent {
    /// The answer is complete; these chunks went into the prompt.
    Answered { info: AnswerInfo, found: Vec<FoundChunk> },
    /// The user cancelled the answer after so many tokens.
    Cancelled { tokens: usize },
    /// The prompt needed `needed` tokens where `max` are allowed.
    Overflow { max: usize, needed: usize },
    /// There is no answer for another reason.
    Failed,
}

/// What follows a question that was asked.
#[derive(Debug)]
pub enum QueryAction {
    /// This line is shown below the answer, which ends the question.
    Close(String),
    /// The window is set to that many tokens, the notice is logged, and the
    /// question is asked once more.
    Retry { window: usize, notice: String },
    /// The window is set to that many tokens, the report is logged as an error,
    /// the lines are shown, and the question is given up.
    GiveUp { window: usize, report: String, lines: Vec<String> },
    /// The error is logged, and the question is given up.
    Fail,
}

/// The window that is set where so many tokens are allowed: 512 tokens below
/// that, which is what `ragrig` suggests.
pub open spec fn suggested_window(max: nat) -> nat {
    if max > 512 {
        (max - 512) as nat
    } else {
        0
    }
}

/// What follows an overflow that may be repaired: `max` tokens are allowed, and
/// `needed` were asked for.
pub open spec fn overflow_step(
    before: QueryRun,
    after: QueryRun,
    max: usize,
    needed: usize,
    r: QueryAction,
) -> bool {
    let window = suggested_window(max as nat);
    let allowed = number::decimal(max as nat);
    let wanted = number::decimal(needed as nat);
    let set = number::decimal(window);
    after == (QueryRun { retried: true, ..before }) && (if before.retried {
        r matches QueryAction::GiveUp { window: w, report, lines } && w == window && report@
            == "Context overflow: model allows "@ + allowed + " tokens, prompt needed "@ + wanted
            + ". Budget auto-adjusted to "@ + set + "."@ && text::texts(lines@) =~= seq![
            "\n*** Context overflow: model allows "@ + allowed + " tokens, prompt needed "@ + wanted
                + ". ***"@,
            "*** Budget auto-adjusted to "@ + set + " tokens. Use `/chat context "@
                + set + "` to override. ***"@,
        ]
    } else {
        r matches QueryAction::Retry { window: w, notice } && w == window && notice@
            == "Context overflow — shrinking budget to "@ + number::decimal(
            chat::budget(window),
        ) + " chars, retrying."@
    })
}

/// What follows a question that was asked: an answer gets its footer, a
/// cancelled one says how far it came, an overflow is repaired once where the
/// budget may shrink, and everything else is an error.
pub open spec fn query_step(
    before: QueryRun,
    after: QueryRun,
    event: QueryEvent,
    r: QueryAction,
) -> bool {
    match event {
        QueryEvent::Answered { info, .. } => after == before && (r matches QueryAction::Close(m)
            && m@ == footer(info)),
        QueryEvent::Cancelled { tokens } => after == before && (r matches QueryAction::Close(m)
            && m@ == cancelled_text(tokens as nat)),
        QueryEvent::Overflow { max, needed } => match before.mode {
            ContextSizeMode::Auto => overflow_step(before, after, max, needed, r),
            ContextSizeMode::Forced => after == before && r == QueryAction::Fail,
        },
        QueryEvent::Failed => after == before && r == QueryAction::Fail,
    }
}

/// A question is asked at most twice: after a retry nothing leads to another
/// one.
pub proof fn law_at_most_one_retry(
    a: QueryRun,
    b: QueryRun,
    c: QueryRun,
    event1: QueryEvent,
    first: QueryAction,
    event2: QueryEvent,
    second: QueryAction,
)
    requires
        query_step(a, b, event1, first),
        query_step(b, c, event2, second),
        first is Retry,
    ensures
        !(second is Retry),
{
}

/// Where the context size is forced, an overflow is an error: the question is
/// never asked again, and the window stays as it is.
pub proof fn law_forced_overflow_is_an_error(
    before: QueryRun,
    after: QueryRun,
    event: QueryEvent,
    r: QueryAction,
)
    requires
        query_step(before, after, event, r),
        before.mode == ContextSizeMode::Forced,
    ensures
        after == before,
        !(r is Retry),
        !(r is GiveUp),
        event is Overflow ==> r == QueryAction::Fail,
{
}

/// Where the budget may shrink, the first overflow leads to another attempt.
pub proof fn law_first_overflow_is_retried(
    mode: ContextSizeMode,
    after: QueryRun,
    event: QueryEvent,
    r: QueryAction,
)
    requires
        query_step(QueryRun { mode, retried: false }, after, event, r),
        mode == ContextSizeMode::Auto,
    ensures
        r is Retry <==> event is Overflow,
{
}

/// A question that is asked again, or given up, leaves a window that the model
/// allows: less than its maximum unless that is nothing, and with no more
/// retrieved text than a window of the maximum would hold.
pub proof fn law_the_new_window_is_allowed(
    before: QueryRun,
    after: QueryRun,
    max: usize,
    needed: usize,
    r: QueryAction,
)
    requires
        query_step(before, after, QueryEvent::Overflow { max, needed }, r),
    ensures
        match r {
            QueryAction::Retry { window, .. } | QueryAction::GiveUp { window, .. } => window <= max
                && (max > 0 ==> window < max) && chat::budget(window as nat) <= chat::budget(
                max as nat,
            ),
            _ => true,
        },
        before.mode == ContextSizeMode::Auto ==> r is Retry || r is GiveUp,
{
    chat::law_budget_grows_with_the_window(suggested_window(max as nat), max as nat);
}

/// An overflow costs the model 512 tokens of its maximum and no more: the window
/// that is set, together with these, is the maximum. Below that the window is
/// empty.
pub proof fn law_the_new_window_uses_the_maximum(
    before: QueryRun,
    after: QueryRun,
    max: usize,
    needed: usize,
    r: QueryAction,
)
    requires
        query_step(before, after, QueryEvent::Overflow { max, needed }, r),
        before.mode == ContextSizeMode::Auto,
    ensures
        ({
            let w = match r {
                QueryAction::Retry { window, .. } => window as int,
                QueryAction::GiveUp { window, .. } => window as int,
                _ => -1,
            };
            &&& w == suggested_window(max as nat)
            &&& max >= 512 ==> w + 512 == max
            &&& max < 512 ==> w == 0
        }),
        r is Retry <==> !before.retried,
        after.retried,
        after.mode == before.mode,
{
}

/// What is said of an overflow holds the numbers: what the model allows, what was
/// needed and the window that is set; before another attempt, the characters that
/// the retrieved text may then have, three for each token beyond those kept free.
pub proof fn law_an_overflow_is_told_in_numbers(
    before: QueryRun,
    after: QueryRun,
    max: usize,
    needed: usize,
    r: QueryAction,
)
    requires
        query_step(before, after, QueryEvent::Overflow { max, needed }, r),
    ensures
        r matches QueryAction::GiveUp { window, report, lines } ==> report@
            == "Context overflow: model allows "@ + number::decimal(max as nat)
            + " tokens, prompt needed "@ + number::decimal(needed as nat)
            + ". Budget auto-adjusted to "@ + number::decimal(window as nat) + "."@ && lines@.len()
            == 2 && lines@[0]@ == "\n*** Context overflow: model allows "@ + number::decimal(
            max as nat,
        ) + " tokens, prompt needed "@ + number::decimal(needed as nat) + ". ***"@ && lines@[1]@
            == "*** Budget auto-adjusted to "@ + number::decimal(window as nat)
            + " tokens. Use `/chat context "@ + number::decimal(window as nat)
            + "` to override. ***"@,
        r matches QueryAction::Retry { notice, .. } ==> (max < 1536 ==> notice@
            == "Context overflow — shrinking budget to "@ + number::decimal(0)
            + " chars, retrying."@) && (max >= 1536 && (max - 1536) * 3 <= usize::MAX ==> notice@
            == "Context overflow — shrinking budget to "@ + number::decimal(
            ((max - 1536) * 3) as nat,
        ) + " chars, retrying."@),
{
    if let QueryAction::GiveUp { window, report, lines } = r {
        assert(text::texts(lines@).len() == 2);
        assert(text::texts(lines@)[0] == lines@[0]@);
        assert(text::texts(lines@)[1] == lines@[1]@);
    }
}

/// A larger maximum gives a window that is larger by as much.
pub proof fn law_windows_grow_with_the_maximum(max: nat, more: nat)
    requires
        max >= 512,
    ensures
        suggested_window(max + more) == suggested_window(max) + more,
{
}

/// Only an overflow changes a question on its way; an answer, a cancellation and
/// any other failure leave it, and each ends it.
pub proof fn law_other_outcomes_end_the_question(
    before: QueryRun,
    after: QueryRun,
    event: QueryEvent,
    r: QueryAction,
)
    requires
        query_step(before, after, event, r),
        !(event is Overflow),
    ensures
        after == before,
        r is Close <==> event is Answered || event is Cancelled,
        event matches QueryEvent::Cancelled { tokens } ==> (r matches QueryAction::Close(m) && m@
            == "[cancelled after "@ + number::decimal(tokens as nat) + " tokens]"@),
        r is Fail <==> event is Failed,
{
}

/// The line below an answer begins with the numbers of chunks and tokens and ends
/// with the time; the documents and the attachments stand between.
pub proof fn law_footer_tells_the_numbers(a: AnswerInfo)
    ensures
        a.chunks matches Some(n) ==> ("--- "@ + number::decimal(n as nat) + " chunks | "@
            + number::decimal(a.tokens as nat) + " tokens"@).is_prefix_of(footer(a)),
        a.chunks is None ==> ("--- "@ + number::decimal(0) + " chunks | "@ + number::decimal(
            a.tokens as nat,
        ) + " tokens"@).is_prefix_of(footer(a)),
        ({
            let end = " in "@ + a.seconds@ + "s ---"@;
            let start = "--- "@ + number::decimal(
                if a.chunks is Some {
                    a.chunks->Some_0 as nat
                } else {
                    0
                },
            ) + " chunks | "@ + number::decimal(a.tokens as nat) + " tokens"@;
            let f = footer(a);
            &&& f.len() >= start.len() + end.len()
            &&& f.skip(f.len() - end.len()) == end
            &&& a.documents is None && a.attached == 0 ==> f == start + end
            &&& a.documents is None && a.attached > 0 ==> f == start + (" + "@ + number::decimal(
                a.attached as nat,
            ) + " attached doc(s)"@) + end
            &&& a.documents is Some && a.attached == 0 ==> f == start + (" from ["@
                + text::joined(text::texts(a.documents->Some_0@), ", "@) + "]"@) + end
        }),
{
    let n = if a.chunks is Some {
        a.chunks->Some_0 as nat
    } else {
        0
    };
    let start = "--- "@ + number::decimal(n) + " chunks | "@ + number::decimal(a.tokens as nat)
        + " tokens"@;
    let end = " in "@ + a.seconds@ + "s ---"@;
    let sources = match a.documents {
        Some(d) => " from ["@ + text::joined(text::texts(d@), ", "@) + "]"@,
        None => Seq::empty(),
    };
    let attached = if a.attached > 0 {
        " + "@ + number::decimal(a.attached as nat) + " attached doc(s)"@
    } else {
        Seq::empty()
    };
    let f = footer(a);
    assert(f =~= start + sources + attached + end);
    assert(start =~= f.subrange(0, start.len() as int));
    assert(f.skip(f.len() - end.len()) =~= end);
    assert(start + Seq::<char>::empty() + Seq::<char>::empty() + end =~= start + end);
    assert(start + Seq::<char>::empty() + attached + end =~= start + attached + end);
    assert(start + sources + Seq::<char>::empty() + end =~= start + sources + end);
}

/// The request for references holds the first five chunks, each with its number,
/// its document and its whole text, one behind the other; later ones change
/// nothing.
pub proof fn law_references_come_from_the_first_five(
    topic: Seq<char>,
    chunks: Seq<FoundChunk>,
    c: FoundChunk,
)
    ensures
        chunks.len() < 5 ==> refs_prompt(topic, chunks.push(c)) == refs_prompt(topic, chunks) + (
        "[Document "@ + number::decimal(chunks.len() + 1) + " | Corpus: "@ + c.document@ + "]\n"@
            + c.text@ + "\n\n"@),
        chunks.len() >= 5 ==> refs_prompt(topic, chunks.push(c)) == refs_prompt(topic, chunks),
{
    let more = chunks.push(c);
    if chunks.len() < 5 {
        assert(more.drop_last() =~= chunks);
        let x = refs_prompt(topic, more);
        let y = refs_prompt(topic, chunks) + ("[Document "@ + number::decimal(chunks.len() + 1)
            + " | Corpus: "@ + c.document@ + "]\n"@ + c.text@ + "\n\n"@);
        assert(x =~= y);
    } else {
        assert(first_five(more) =~= first_five(chunks));
    }
}

/// A topic stands in the request as it was given; without one nothing is said of
/// a topic.
pub proof fn law_references_are_about_the_topic(topic: Seq<char>, chunks: Seq<FoundChunk>)
    requires
        topic.len() > 0,
    ensures
        ({
            let head = "Extract all academic paper references (cited works with title, authors, year) from the documents below."@;
            let without = refs_prompt(Seq::empty(), chunks);
            &&& head.is_prefix_of(without)
            &&& refs_prompt(topic, chunks) == head
                + " Focus specifically on references related to: \""@ + topic + "\"."@
                + without.skip(head.len() as int)
        }),
{
    let head = "Extract all academic paper references (cited works with title, authors, year) from the documents below."@;
    let without = refs_prompt(Seq::empty(), chunks);
    assert(head =~= without.subrange(0, head.len() as int));
    assert(refs_prompt(topic, chunks) =~= head
        + " Focus specifically on references related to: \""@ + topic + "\"."@ + without.skip(
        head.len() as int,
    ));
}

/// References can be asked for exactly where something was found.
pub proof fn law_references_need_results(topic: Seq<char>, found: Seq<FoundChunk>, r: RefsStep)
    requires
        refs_step(topic, found, r),
    ensures
        r is Ask <==> found.len() > 0,
{
}

/// The window that is set where `max` tokens are allowed.
pub fn fitting_window(max: usize) -> (r: usize)
    ensures
        r == suggested_window(max as nat),
{
    if max > 512 {
        max - 512
    } else {
        0
    }
}

/// A question that was not asked yet.
pub open spec fn not_asked(mode: ContextSizeMode) -> QueryRun {
    QueryRun { mode, retried: false }
}

/// A question that was not asked yet may be asked again after an overflow, exactly
/// where the budget may shrink.
pub proof fn law_a_new_question_may_be_repeated(
    mode: ContextSizeMode,
    after: QueryRun,
    event: QueryEvent,
    r: QueryAction,
)
    requires
        query_step(not_asked(mode), after, event, r),
    ensures
        r is Retry <==> event is Overflow && mode == ContextSizeMode::Auto,
{
}

impl QueryRun {
    /// A question that was not asked yet.
    pub fn new(mode: ContextSizeMode) -> (r: QueryRun)
        ensures
            r == not_asked(mode),
    {
        QueryRun { mode, retried: false }
    }

    /// What follows what became of the question.
    pub fn next_action(&mut self, event: &QueryEvent) -> (r: QueryAction)
        ensures
            query_step(*old(self), *final(self), *event, r),
    {
        match event {
            QueryEvent::Answered { info, .. } => QueryAction::Close(answer_footer(info)),
            QueryEvent::Cancelled { tokens } => QueryAction::Close(cancelled_line(*tokens)),
            QueryEvent::Overflow { max, needed } => match self.mode {
                ContextSizeMode::Auto => self.overflow(*max, *needed),
                ContextSizeMode::Forced => QueryAction::Fail,
            },
            QueryEvent::Failed => QueryAction::Fail,
        }
    }

    /// The context overflowed, and the budget may shrink.
    fn overflow(&mut self, max: usize, needed: usize) -> (r: QueryAction)
        ensures
            overflow_step(*old(self), *final(self), max, needed, r),
    {
        let window = fitting_window(max);
        if self.retried {
            let m = number::show_usize(max);
            let n = number::show_usize(needed);
            let w = number::show_usize(window);
            let mut report = "Context overflow: model allows ".to_string();
            report.append(m.as_str());
            report.append(" tokens, prompt needed ");
            report.append(n.as_str());
            report.append(". Budget auto-adjusted to ");
            report.append(w.as_str());
            report.append(".");
            let mut a = "\n*** Context overflow: model allows ".to_string();
            a.append(m.as_str());
            a.append(" tokens, prompt needed ");
            a.append(n.as_str());
            a.append(". ***");
            let mut b = "*** Budget auto-adjusted to ".to_string();
            b.append(w.as_str());
            b.append(" tokens. Use `/chat context ");
            b.append(w.as_str());
            b.append("` to override. ***");
            QueryAction::GiveUp { window, report, lines: vec![a, b] }
        } else {
            self.retried = true;
            let mut notice = "Context overflow — shrinking budget to ".to_string();
            let chars = number::show_usize(chat::prompt_budget(window));
            notice.append(chars.as_str());
            notice.append(" chars, retrying.");
            QueryAction::Retry { window, notice }
        }
    }
}

/// What a `/refs` command leads to.
#[derive(Debug)]
pub enum RefsStep {
    /// These lines are shown.
    Say(Vec<String>),
    /// The chat engine is asked this.
    Ask(String),
}

/// One chunk in the prompt.
pub open spec fn chunk_text(i: int, c: FoundChunk) -> Seq<char> {
    "[Document "@ + number::decimal((i + 1) as nat) + " | Corpus: "@ + c.document@ + "]\n"@
        + c.text@ + "\n\n"@
}

/// The chunks in the prompt, one after the other.
pub open spec fn chunk_texts(chunks: Seq<FoundChunk>) -> Seq<char>
    decreases chunks.len(),
{
    if chunks.len() == 0 {
        Seq::empty()
    } else {
        chunk_texts(chunks.drop_last()) + chunk_text(chunks.len() - 1, chunks.last())
    }
}

/// At most the first five chunks.
pub open spec fn first_five(chunks: Seq<FoundChunk>) -> Seq<FoundChunk> {
    if chunks.len() > 5 {
        chunks.take(5)
    } else {
        chunks
    }
}

/// The request for the references in chunks, with a topic where one is given.
pub open spec fn refs_prompt(topic: Seq<char>, chunks: Seq<FoundChunk>) -> Seq<char> {
    let hint = if topic.len() == 0 {
        Seq::empty()
    } else {
        " Focus specifically on references related to: \""@ + topic + "\"."@
    };
    "Extract all academic paper references (cited works with title, authors, year) from the documents below."@
        + hint
        + "\n\nReturn ONLY a numbered list. For each reference, include:\n- Title of the cited paper\n- Authors (last name of first author + et al. if multiple)\n- Year\n- If an arXiv ID or DOI is visible, include it as a URL.\n\nDocuments:\n"@
        + chunk_texts(first_five(chunks))
}

/// What a `/refs` command leads to.
pub open spec fn refs_step(topic: Seq<char>, found: Seq<FoundChunk>, r: RefsStep) -> bool {
    if found.len() == 0 {
        r matches RefsStep::Say(v) && text::texts(v@) =~= seq![
            "No previous query results. Ask a question first, then use /refs."@,
        ]
    } else {
        r matches RefsStep::Ask(p) && p@ == refs_prompt(topic, found)
    }
}

/// `/refs [topic]`: asks for the references in what the last question or
/// search found.
pub fn cmd_extract_refs(topic: &str, found: &Vec<FoundChunk>) -> (r: RefsStep)
    ensures
        refs_step(topic@, found@, r),
{
    if found.len() == 0 {
        return RefsStep::Say(
            vec!["No previous query results. Ask a question first, then use /refs.".to_string()],
        );
    }
    let mut hint = String::new();
    if !topic.is_empty() {
        hint = " Focus specifically on references related to: \"".to_string();
        hint.append(topic);
        hint.append("\".");
    }
    let n: usize = if found.len() > 5 {
        5
    } else {
        found.len()
    };
    let ghost used = first_five(found@);
    assert(used =~= found@.take(n as int));
    let mut context = String::new();
    let mut i: usize = 0;
    assert(used.take(0) =~= Seq::<FoundChunk>::empty());
    while i < n
        invariant
            i <= n <= found@.len(),
            used == found@.take(n as int),
            context@ == chunk_texts(used.take(i as int)),
        decreases n - i,
    {
        assert(used.take(i + 1).drop_last() =~= used.take(i as int));
        let c = &found[i];
        let mut m = "[Document ".to_string();
        let k = number::show_usize(i + 1);
        m.append(k.as_str());
        m.append(" | Corpus: ");
        m.append(c.document.as_str());
        m.append("]\n");
        m.append(c.text.as_str());
        m.append("\n\n");
        context.append(m.as_str());
        i += 1;
    }
    assert(used.take(i as int) =~= used);
    let mut prompt = "Extract all academic paper references (cited works with title, authors, year) from the documents below.".to_string();
    prompt.append(hint.as_str());
    prompt.append(
        "\n\nReturn ONLY a numbered list. For each reference, include:\n- Title of the cited paper\n- Authors (last name of first author + et al. if multiple)\n- Year\n- If an arXiv ID or DOI is visible, include it as a URL.\n\nDocuments:\n",
    );
    prompt.append(context.as_str());
    RefsStep::Ask(prompt)
}

} // verus!
