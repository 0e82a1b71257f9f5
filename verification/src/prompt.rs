//! `/prompt`: the instructions that the models get.

use vstd::prelude::*;

use crate::text;

verus! {

/// The instructions in use.
#[derive(Debug)]
pub struct Prompts {
    /// For answers from documents.
    pub chat: String,
    /// For answers without documents.
    pub chat_without_docs: String,
    /// For the rewriting of questions.
    pub rewrite: String,
}

/// What a `/prompt` command leads to.
#[derive(Debug)]
pub enum PromptStep {
    /// These lines are shown.
    Say(Vec<String>),
    /// Both instructions become the default ones.
    Reset { chat: String, rewrite: String },
    /// The instructions for answers are read from a file.
    LoadChat(String),
    /// The instructions for rewriting are read from a file.
    LoadRewrite(String),
}

/// Whether `r` shows exactly these lines.
pub open spec fn says(r: PromptStep, lines: Seq<Seq<char>>) -> bool {
    r matches PromptStep::Say(v) && text::texts(v@) =~= lines
}

/// The default instructions for answers.
pub open spec fn default_chat() -> Seq<char> {
    "You are a helpful document assistant. Answer the user's question explicitly using the provided Context snippets.\n\nContext:\n{context}\n"@
}

/// The default instructions for rewriting.
pub open spec fn default_rewrite() -> Seq<char> {
    "You are a query rewriter. Given the conversation and the latest question, produce a single self-contained search query that captures all relevant context. Output ONLY the rewritten query, nothing else.\n\nLatest question: {question}"@
}

/// The beginning of instructions, for display.
pub open spec fn excerpt(s: Seq<char>) -> Seq<char> {
    text::truncated(text::trimmed(s), 80)
}

/// Of instructions the first eighty characters are shown, without the white space
/// around the whole.
pub proof fn law_prompts_are_shown_from_the_beginning(
    a: Seq<char>,
    s: Seq<char>,
    b: Seq<char>,
)
    requires
        text::is_blank(a),
        text::is_blank(b),
        text::is_tight(s),
    ensures
        excerpt(a + s + b).is_prefix_of(s),
        excerpt(a + s + b).len() == if s.len() < 80 {
            s.len()
        } else {
            80
        },
{
    text::law_trimming_removes_what_surrounds(a, s, b);
    text::law_cutting_keeps_the_beginning(s, 80);
}

/// What a `/prompt` command leads to.
pub open spec fn prompt_step(args: Seq<char>, prompts: Prompts, r: PromptStep) -> bool {
    let w = text::words_of(args);
    let sub = text::word_at(w, 0);
    let file = text::word_get(w, 1);
    if sub.len() == 0 {
        says(
            r,
            seq![
                "Current prompts:"@,
                "  chat (docs):    "@ + excerpt(prompts.chat@),
                "  chat (no docs): "@ + excerpt(prompts.chat_without_docs@),
                "  rewrite:        "@ + excerpt(prompts.rewrite@),
                "Usage: /prompt chat|rewrite <file>  or  /prompt reset"@,
            ],
        )
    } else if sub == "reset"@ {
        r matches PromptStep::Reset { chat, rewrite } && chat@ == default_chat() && rewrite@
            == default_rewrite()
    } else if sub == "chat"@ {
        match file {
            Some(f) => r matches PromptStep::LoadChat(p) && p@ == f,
            None => says(r, seq!["Usage: /prompt chat <file>"@]),
        }
    } else if sub == "rewrite"@ {
        match file {
            Some(f) => r matches PromptStep::LoadRewrite(p) && p@ == f,
            None => says(r, seq!["Usage: /prompt rewrite <file>"@]),
        }
    } else {
        says(r, seq!["Unknown sub-command: "@ + sub + ". Use chat, rewrite, or reset."@])
    }
}

/// The word behind `chat` or `rewrite` is the file that the instructions of that
/// kind are read from; without one nothing is read. `reset` restores both.
pub proof fn law_prompts_are_read_from_the_named_file(
    file: Seq<char>,
    prompts: Prompts,
    r: PromptStep,
)
    requires
        text::is_word(file),
    ensures
        prompt_step("chat"@ + " "@ + file, prompts, r) ==> (r matches PromptStep::LoadChat(f) && f@
            == file),
        prompt_step("rewrite"@ + " "@ + file, prompts, r) ==> (r matches PromptStep::LoadRewrite(f)
            && f@ == file),
        prompt_step("chat"@, prompts, r) ==> r is Say,
        prompt_step("rewrite"@, prompts, r) ==> r is Say,
        prompt_step("reset"@, prompts, r) ==> r is Reset,
        prompt_step(Seq::empty(), prompts, r) ==> r is Say,
{
    reveal_strlit("chat");
    reveal_strlit("rewrite");
    reveal_strlit("reset");
    assert("chat"@.len() == 4 && "rewrite"@.len() == 7 && "reset"@.len() == 5);
    text::lemma_few_words("chat"@, file, Seq::empty());
    text::lemma_few_words("rewrite"@, file, Seq::empty());
    text::lemma_few_words("reset"@, file, Seq::empty());
    text::law_words_are_read_back(Seq::empty());
    assert(text::joined(Seq::<Seq<char>>::empty(), " "@) =~= Seq::<char>::empty());
}

/// The default instructions have the place where the documents, or the question,
/// are put.
pub proof fn law_default_prompts_have_their_place()
    ensures
        exists|i: int|
            0 <= i && i + 9 <= default_chat().len() && #[trigger] default_chat().subrange(i, i + 9)
                == "{context}"@,
        exists|i: int|
            0 <= i && i + 10 <= default_rewrite().len() && #[trigger] default_rewrite().subrange(
                i,
                i + 10,
            ) == "{question}"@,
{
    reveal_strlit(
        "You are a helpful document assistant. Answer the user's question explicitly using the provided Context snippets.\n\nContext:\n{context}\n",
    );
    reveal_strlit(
        "You are a query rewriter. Given the conversation and the latest question, produce a single self-contained search query that captures all relevant context. Output ONLY the rewritten query, nothing else.\n\nLatest question: {question}",
    );
    reveal_strlit("{context}");
    reveal_strlit("{question}");
    let n = default_chat().len();
    let m = default_rewrite().len();
    assert(default_chat().subrange(n - 10, n - 10 + 9) =~= "{context}"@);
    assert(default_rewrite().subrange(m - 10, m - 10 + 10) =~= "{question}"@);
}

/// `reset` brings back instructions for answers, with the place for the documents,
/// and instructions for rewriting, with the place for the question.
pub proof fn law_reset_restores_both_prompts(prompts: Prompts, r: PromptStep)
    requires
        prompt_step("reset"@, prompts, r),
    ensures
        r matches PromptStep::Reset { chat, rewrite } && (exists|i: int|
            0 <= i && i + 9 <= chat@.len() && #[trigger] chat@.subrange(i, i + 9) == "{context}"@)
            && (exists|i: int|
            0 <= i && i + 10 <= rewrite@.len() && #[trigger] rewrite@.subrange(i, i + 10)
                == "{question}"@),
{
    law_default_prompts_have_their_place();
    reveal_strlit("reset");
    reveal_strlit("chat");
    reveal_strlit("rewrite");
    assert("chat"@.len() == 4 && "rewrite"@.len() == 7 && "reset"@.len() == 5);
    text::lemma_few_words("reset"@, "reset"@, Seq::empty());
}

/// All instructions in use are shown, each behind its label.
pub proof fn law_all_prompts_are_shown(prompts: Prompts, r: PromptStep)
    requires
        prompt_step(Seq::empty(), prompts, r),
    ensures
        r matches PromptStep::Say(v) && v@.len() == 5 && v@[1]@ == "  chat (docs):    "@ + excerpt(
            prompts.chat@,
        ) && v@[2]@ == "  chat (no docs): "@ + excerpt(prompts.chat_without_docs@) && v@[3]@
            == "  rewrite:        "@ + excerpt(prompts.rewrite@),
{
    text::law_words_are_read_back(Seq::empty());
    assert(text::joined(Seq::<Seq<char>>::empty(), " "@) =~= Seq::<char>::empty());
    if let PromptStep::Say(v) = r {
        assert(text::texts(v@).len() == 5);
        assert(text::texts(v@)[1] == v@[1]@);
        assert(text::texts(v@)[2] == v@[2]@);
        assert(text::texts(v@)[3] == v@[3]@);
    }
}

/// One line with the beginning of instructions.
fn show(label: &str, prompt: &str) -> (r: String)
    ensures
        r@ == label@ + excerpt(prompt@),
{
    let mut m = label.to_owned();
    let trimmed = text::trim(prompt);
    let head = text::truncate(trimmed.as_str(), 80);
    m.append(head.as_str());
    m
}

/// `/prompt [chat|rewrite <file> | reset]`.
pub fn cmd_prompt(args: &str, prompts: &Prompts) -> (r: PromptStep)
    ensures
        prompt_step(args@, *prompts, r),
{
    let w = text::words(args);
    let sub = text::word(&w, 0);
    if sub.as_str().is_empty() {
        return PromptStep::Say(
            vec![
                "Current prompts:".to_string(),
                show("  chat (docs):    ", prompts.chat.as_str()),
                show("  chat (no docs): ", prompts.chat_without_docs.as_str()),
                show("  rewrite:        ", prompts.rewrite.as_str()),
                "Usage: /prompt chat|rewrite <file>  or  /prompt reset".to_string(),
            ],
        );
    }
    if text::same(sub.as_str(), "reset") {
        return PromptStep::Reset {
            chat: "You are a helpful document assistant. Answer the user's question explicitly using the provided Context snippets.\n\nContext:\n{context}\n".to_string(),
            rewrite: "You are a query rewriter. Given the conversation and the latest question, produce a single self-contained search query that captures all relevant context. Output ONLY the rewritten query, nothing else.\n\nLatest question: {question}".to_string(),
        };
    }
    if text::same(sub.as_str(), "chat") {
        return match text::word_opt(&w, 1) {
            Some(f) => PromptStep::LoadChat(f),
            None => PromptStep::Say(vec!["Usage: /prompt chat <file>".to_string()]),
        };
    }
    if text::same(sub.as_str(), "rewrite") {
        return match text::word_opt(&w, 1) {
            Some(f) => PromptStep::LoadRewrite(f),
            None => PromptStep::Say(vec!["Usage: /prompt rewrite <file>".to_string()]),
        };
    }
    let mut m = "Unknown sub-command: ".to_string();
    m.append(sub.as_str());
    m.append(". Use chat, rewrite, or reset.");
    PromptStep::Say(vec![m])
}

} // verus!
