//! `/hist`: saved sessions.

use vstd::prelude::*;

use crate::number;
use crate::text;

verus! {

/// What a `/hist` command leads to.
#[derive(Debug)]
pub enum HistStep {
    /// The saved sessions are listed.
    List,
    /// A session is loaded.
    Load(String),
    /// A session is deleted.
    Delete(String),
    /// These lines are shown.
    Say(Vec<String>),
}

/// A saved session.
#[derive(Debug)]
pub struct SavedSession {
    pub id: String,
    pub turns: usize,
    /// When it was created, in words.
    pub created: String,
}

/// What a `/hist` command leads to.
pub open spec fn hist_step(args: Seq<char>, r: HistStep) -> bool {
    let arg = text::trimmed(args);
    let w = text::words_of(arg);
    let sub = text::word_at(w, 0);
    let id = text::word_at(w, 1);
    if arg.len() == 0 || arg == "list"@ {
        r == HistStep::List
    } else if sub == "load"@ && id.len() > 0 {
        r matches HistStep::Load(s) && s@ == id
    } else if sub == "delete"@ && id.len() > 0 {
        r matches HistStep::Delete(s) && s@ == id
    } else {
        r matches HistStep::Say(v) && text::texts(v@) =~= seq![
            "Usage: /hist [list | load <id> | delete <id>]"@,
        ]
    }
}

/// The word behind `load` or `delete` is the session that is loaded or deleted;
/// without one, and for any other word, nothing happens to a session.
pub proof fn law_sessions_are_named_by_their_id(id: Seq<char>, other: Seq<char>, r: HistStep)
    requires
        text::is_word(id),
        text::is_word(other),
        other != "load"@,
        other != "delete"@,
    ensures
        hist_step("load"@ + " "@ + id, r) ==> (r matches HistStep::Load(s) && s@ == id),
        hist_step("delete"@ + " "@ + id, r) ==> (r matches HistStep::Delete(s) && s@ == id),
        hist_step("load"@, r) ==> r is Say,
        hist_step("delete"@, r) ==> r is Say,
        hist_step("list"@, r) ==> r is List,
        hist_step(Seq::empty(), r) ==> r is List,
        hist_step(other + " "@ + id, r) ==> r is Say,
{
    reveal_strlit("load");
    reveal_strlit("delete");
    reveal_strlit("list");
    reveal_strlit(" ");
    assert("load"@.len() == 4 && "delete"@.len() == 6 && "list"@.len() == 4);
    assert("list"@[1] != "load"@[1]);
    text::lemma_few_words("load"@, id, Seq::empty());
    text::lemma_few_words("delete"@, id, Seq::empty());
    text::lemma_few_words("list"@, id, Seq::empty());
    text::lemma_few_words(other, id, Seq::empty());
    let a = "load"@ + " "@ + id;
    let b = "delete"@ + " "@ + id;
    text::lemma_tight_is_trimmed(a);
    text::lemma_tight_is_trimmed(b);
    text::lemma_tight_is_trimmed("load"@);
    text::lemma_tight_is_trimmed("delete"@);
    text::lemma_tight_is_trimmed("list"@);
    text::lemma_tight_is_trimmed(other + " "@ + id);
    text::lemma_tight_is_trimmed(Seq::empty());
    assert(a.len() > 4 && b.len() > 4);
    let c = other + " "@ + id;
    if c == "list"@ {
        assert(c[other.len() as int] == ' ');
        assert("list"@[0] != ' ' && "list"@[1] != ' ' && "list"@[2] != ' ' && "list"@[3] != ' ');
    }
}

/// White space around the words behind `/hist` does not matter.
pub proof fn law_space_around_hist_words_is_ignored(
    a: Seq<char>,
    words: Seq<char>,
    b: Seq<char>,
    r: HistStep,
)
    requires
        text::is_blank(a),
        text::is_blank(b),
        text::is_tight(words),
    ensures
        hist_step(a + words + b, r) <==> hist_step(words, r),
{
    text::law_trimming_removes_what_surrounds(a, words, b);
    text::lemma_tight_is_trimmed(words);
}

/// `/hist [list | load <id> | delete <id>]`.
pub fn cmd_hist(args: &str) -> (r: HistStep)
    ensures
        hist_step(args@, r),
{
    let arg = text::trim(args);
    if arg.as_str().is_empty() || text::same(arg.as_str(), "list") {
        return HistStep::List;
    }
    let w = text::words(arg.as_str());
    let sub = text::word(&w, 0);
    let id = text::word(&w, 1);
    if text::same(sub.as_str(), "load") && !id.as_str().is_empty() {
        return HistStep::Load(id);
    }
    if text::same(sub.as_str(), "delete") && !id.as_str().is_empty() {
        return HistStep::Delete(id);
    }
    HistStep::Say(vec!["Usage: /hist [list | load <id> | delete <id>]".to_string()])
}

/// One line of the list of saved sessions.
pub open spec fn session_line(s: SavedSession) -> Seq<char> {
    "  "@ + s.id@ + " — "@ + number::decimal(s.turns as nat) + " turns — "@ + s.created@
}

/// The list of saved sessions.
pub open spec fn session_lines(sessions: Seq<SavedSession>) -> Seq<Seq<char>> {
    if sessions.len() == 0 {
        seq!["No saved sessions."@]
    } else {
        seq![number::decimal(sessions.len()) + " saved session(s):"@] + Seq::new(
            sessions.len(),
            |i: int| session_line(sessions[i]),
        )
    }
}

/// The list has a line for each session, in their order, behind a heading that
/// counts them; each line begins with the id and the number of turns.
pub proof fn law_every_session_is_listed(sessions: Seq<SavedSession>, i: int)
    requires
        0 <= i < sessions.len(),
    ensures
        session_lines(sessions).len() == sessions.len() + 1,
        number::decimal(sessions.len()).is_prefix_of(session_lines(sessions)[0]),
        session_lines(sessions)[i + 1] == "  "@ + sessions[i].id@ + " — "@ + number::decimal(
            sessions[i].turns as nat,
        ) + " turns — "@ + sessions[i].created@,
{
    let n = number::decimal(sessions.len());
    let head = session_lines(sessions)[0];
    assert(head == n + " saved session(s):"@);
    assert(head.subrange(0, n.len() as int) =~= n);
}

/// The list of saved sessions.
pub fn list_sessions(sessions: &Vec<SavedSession>) -> (r: Vec<String>)
    ensures
        text::texts(r@) == session_lines(sessions@),
{
    let mut out: Vec<String> = Vec::new();
    let ghost want = session_lines(sessions@);
    if sessions.len() == 0 {
        out.push("No saved sessions.".to_string());
        assert(text::texts(out@) =~= want);
        return out;
    }
    let mut head = number::show_usize(sessions.len());
    head.append(" saved session(s):");
    out.push(head);
    let mut i: usize = 0;
    while i < sessions.len()
        invariant
            i <= sessions@.len(),
            sessions@.len() > 0,
            want == session_lines(sessions@),
            out@.len() == i + 1,
            forall|j: int| 0 <= j < out@.len() ==> (#[trigger] out@[j])@ == want[j],
        decreases sessions@.len() - i,
    {
        let mut m = "  ".to_string();
        m.append(sessions[i].id.as_str());
        m.append(" — ");
        let n = number::show_usize(sessions[i].turns);
        m.append(n.as_str());
        m.append(" turns — ");
        m.append(sessions[i].created.as_str());
        assert(want[i + 1] == session_line(sessions@[i as int]));
        out.push(m);
        i += 1;
    }
    assert(text::texts(out@) =~= want);
    out
}

} // verus!
