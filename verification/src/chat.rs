//! `/chat`: the chat engine, its context window and its parameters.

use vstd::prelude::*;

use crate::backends;
use crate::backends::ChatSpec;
use crate::number;
use crate::search;
use crate::text;

verus! {

/// What `/chat` can report of the running session.
#[derive(Debug)]
pub struct ChatStatus {
    pub backend: String,
    pub model: String,
    /// The size of the context window in tokens.
    pub context_tokens: usize,
}

/// What a `/chat` command leads to.
#[derive(Debug)]
pub enum ChatStep {
    /// These lines are shown.
    Say(Vec<String>),
    /// The context window is set to that many tokens.
    SetContext(usize),
    /// The engine is rebuilt with this temperature where the text is a number
    /// that is not negative; otherwise the usage is shown.
    Temperature { value: Option<String>, usage: String },
    /// The engine is rebuilt with this nucleus size where the text is a number
    /// between zero and one; otherwise the usage is shown.
    TopP { value: Option<String>, usage: String },
    /// The engine is rebuilt with this limit on the length of an answer.
    MaxTokens(usize),
    /// The engine is rebuilt with this random seed.
    Seed(u64),
    /// Another engine takes over.
    Swap(ChatSpec),
    /// The engine that was asked for does not exist.
    Refused(String),
}

/// The parameters of a chat engine that are whole numbers.
#[derive(Debug, Clone, Copy, PartialEq, Eq)]
pub struct ChatParams {
    /// The limit on the length of an answer.
    pub max_tokens: Option<usize>,
    /// The random seed.
    pub seed: Option<u64>,
}

/// The parameters of an engine for which none was set.
pub open spec fn no_params() -> ChatParams {
    ChatParams { max_tokens: None, seed: None }
}

/// The parameters of the engine that a step builds, where it builds one: what
/// the command sets, and nothing else.
pub open spec fn built_params(step: ChatStep) -> Option<ChatParams> {
    match step {
        ChatStep::MaxTokens(n) => Some(ChatParams { max_tokens: Some(n), ..no_params() }),
        ChatStep::Seed(n) => Some(ChatParams { seed: Some(n), ..no_params() }),
        ChatStep::Temperature { .. } | ChatStep::TopP { .. } | ChatStep::Swap(_) => Some(
            no_params(),
        ),
        _ => None,
    }
}

impl ChatStep {
    /// The parameters of the engine that this step builds, where it builds one.
    pub fn params(&self) -> (r: Option<ChatParams>)
        ensures
            r == built_params(*self),
    {
        match self {
            ChatStep::MaxTokens(n) => Some(ChatParams { max_tokens: Some(*n), seed: None }),
            ChatStep::Seed(n) => Some(ChatParams { max_tokens: None, seed: Some(*n) }),
            ChatStep::Temperature { .. } | ChatStep::TopP { .. } | ChatStep::Swap(_) => Some(
                ChatParams { max_tokens: None, seed: None },
            ),
            _ => None,
        }
    }
}

/// Whether `r` shows exactly these lines.
pub open spec fn says(r: ChatStep, lines: Seq<Seq<char>>) -> bool {
    r matches ChatStep::Say(v) && text::texts(v@) =~= lines
}

/// The number of characters of retrieved text that fit beside the question:
/// three for every token of the window beyond the first 1024, and no more than
/// a machine word counts.
pub open spec fn budget(context_tokens: nat) -> nat {
    let spare = if context_tokens > 1024 {
        context_tokens - 1024
    } else {
        0
    };
    if spare * 3 > usize::MAX {
        usize::MAX as nat
    } else {
        (spare * 3) as nat
    }
}

/// What `/chat` alone shows.
pub open spec fn status_lines(status: ChatStatus) -> Seq<Seq<char>> {
    seq![
        "Chat: "@ + status.backend@ + " ("@ + status.model@ + ") — context window: "@
            + number::decimal(status.context_tokens as nat) + " tokens"@,
        "Usage: /chat <backend> [model] [api_key]  |  context <N>  |  temperature <F>  |  top_p <F>  |  max_tokens <N>  |  seed <N>"@,
        "  backends: ollama, deepseek"@,
    ]
}

/// Another chat engine, or the refusal of one that does not exist.
pub open spec fn swap_step(
    parsed: Result<backends::ChatSpecView, Seq<char>>,
    r: ChatStep,
) -> bool {
    match parsed {
        Ok(s) => r matches ChatStep::Swap(c) && c@ == s,
        Err(e) => r matches ChatStep::Refused(m) && m@ == "Chat agent spec parse error: "@ + e,
    }
}

/// The number in a word.
pub open spec fn seed_in(word: Option<Seq<char>>) -> Option<u64> {
    match word {
        Some(s) => number::u64_of(s),
        None => None,
    }
}

/// What a `/chat` command leads to.
pub open spec fn chat_step(args: Seq<char>, status: ChatStatus, r: ChatStep) -> bool {
    let w = text::words_of(args);
    let backend = text::word_at(w, 0);
    let value = text::word_get(w, 1);
    if backend == "context"@ {
        match search::positive(value) {
            Some(n) => r == ChatStep::SetContext(n),
            None => says(
                r,
                seq![
                    "Usage: /chat context <tokens>  (current: "@ + number::decimal(
                        status.context_tokens as nat,
                    ) + ")"@,
                ],
            ),
        }
    } else if backend == "temperature"@ {
        r matches ChatStep::Temperature { value: v, usage } && text::opt_text(v) == value
            && usage@ == "Usage: /chat temperature <F>  (0.0 = deterministic)"@
    } else if backend == "top_p"@ {
        r matches ChatStep::TopP { value: v, usage } && text::opt_text(v) == value && usage@
            == "Usage: /chat top_p <F>  (0.0–1.0)"@
    } else if backend == "max_tokens"@ {
        match search::positive(value) {
            Some(n) => r == ChatStep::MaxTokens(n),
            None => says(r, seq!["Usage: /chat max_tokens <N>"@]),
        }
    } else if backend == "seed"@ {
        match seed_in(value) {
            Some(n) => r == ChatStep::Seed(n),
            None => says(r, seq!["Usage: /chat seed <N>"@]),
        }
    } else if backend.len() == 0 {
        says(r, status_lines(status))
    } else {
        swap_step(
            backends::chat_spec_of(text::lowercase_of(backend), value, text::word_get(w, 2)),
            r,
        )
    }
}

/// The number of characters of retrieved text that fit into a context window.
pub fn prompt_budget(context_tokens: usize) -> (r: usize)
    ensures
        r == budget(context_tokens as nat),
{
    let spare: usize = if context_tokens > 1024 {
        context_tokens - 1024
    } else {
        0
    };
    if spare > usize::MAX / 3 {
        assert(spare >= usize::MAX / 3 + 1);
        usize::MAX
    } else {
        spare * 3
    }
}

/// A larger window never leaves less room for retrieved text.
pub proof fn law_budget_grows_with_the_window(a: nat, b: nat)
    requires
        a <= b,
    ensures
        budget(a) <= budget(b),
{
}

/// Every token of the window beyond the first 1024 makes room for three more
/// characters; up to there is no room, and there is never more than a machine word
/// counts.
pub proof fn law_a_token_is_three_characters(tokens: nat)
    ensures
        tokens <= 1024 ==> budget(tokens) == 0,
        tokens >= 1024 && 3 * (tokens - 1024) <= usize::MAX ==> budget(tokens) == 3 * (tokens
            - 1024),
        tokens >= 1024 && 3 * (tokens - 1024) > usize::MAX ==> budget(tokens) == usize::MAX,
        tokens >= 1024 && budget(tokens) + 3 <= usize::MAX ==> budget(tokens + 1) == budget(tokens)
            + 3,
{
}

/// The words that are no engine.
pub open spec fn is_parameter(word: Seq<char>) -> bool {
    word == "context"@ || word == "temperature"@ || word == "top_p"@ || word == "max_tokens"@
        || word == "seed"@
}

proof fn lemma_parameter_words()
    ensures
        text::is_word("context"@),
        text::is_word("temperature"@),
        text::is_word("top_p"@),
        text::is_word("max_tokens"@),
        text::is_word("seed"@),
        "context"@ != "temperature"@,
        "context"@ != "top_p"@,
        "context"@ != "max_tokens"@,
        "context"@ != "seed"@,
        "temperature"@ != "top_p"@,
        "temperature"@ != "max_tokens"@,
        "temperature"@ != "seed"@,
        "top_p"@ != "max_tokens"@,
        "top_p"@ != "seed"@,
        "max_tokens"@ != "seed"@,
{
    reveal_strlit("context");
    reveal_strlit("temperature");
    reveal_strlit("top_p");
    reveal_strlit("max_tokens");
    reveal_strlit("seed");
}

/// `/chat` alone shows the engine, its model and its window.
pub proof fn law_the_engine_is_shown(status: ChatStatus, r: ChatStep)
    requires
        chat_step(Seq::empty(), status, r),
    ensures
        r matches ChatStep::Say(v) && v@.len() == 3 && v@[0]@ == "Chat: "@ + status.backend@
            + " ("@ + status.model@ + ") — context window: "@ + number::decimal(
            status.context_tokens as nat,
        ) + " tokens"@,
{
    lemma_parameter_words();
    text::law_words_are_read_back(Seq::empty());
    assert(text::joined(Seq::<Seq<char>>::empty(), " "@) =~= Seq::<char>::empty());
    if let ChatStep::Say(v) = r {
        assert(text::texts(v@).len() == v@.len());
        if v@.len() == 3 {
            assert(text::texts(v@)[0] == v@[0]@);
        }
    }
}

/// A number behind the name of a parameter is the value that is set; a window and
/// a limit on answers must be positive, a seed need not.
pub proof fn law_numbers_are_set_as_given(n: nat, status: ChatStatus, r: ChatStep)
    ensures
        0 < n <= usize::MAX && chat_step("context"@ + " "@ + number::decimal(n), status, r) ==> r
            == ChatStep::SetContext(n as usize),
        0 < n <= usize::MAX && chat_step("max_tokens"@ + " "@ + number::decimal(n), status, r) ==> r
            == ChatStep::MaxTokens(n as usize),
        n <= u64::MAX && chat_step("seed"@ + " "@ + number::decimal(n), status, r) ==> r
            == ChatStep::Seed(n as u64),
        chat_step("context"@ + " "@ + number::decimal(0), status, r) ==> r is Say,
        chat_step("max_tokens"@ + " "@ + number::decimal(0), status, r) ==> r is Say,
        n > u64::MAX && chat_step("seed"@ + " "@ + number::decimal(n), status, r) ==> r is Say,
{
    lemma_parameter_words();
    number::lemma_decimal_is_plain(n);
    number::lemma_decimal_is_plain(0);
    number::law_numbers_are_read_back(n);
    number::law_numbers_are_read_back(0);
    text::lemma_few_words("context"@, number::decimal(n), Seq::empty());
    text::lemma_few_words("context"@, number::decimal(0), Seq::empty());
    text::lemma_few_words("max_tokens"@, number::decimal(n), Seq::empty());
    text::lemma_few_words("max_tokens"@, number::decimal(0), Seq::empty());
    text::lemma_few_words("seed"@, number::decimal(n), Seq::empty());
}

/// A word that is no number sets nothing where a whole number is wanted, and is
/// handed on as it stands where a fraction may be.
pub proof fn law_other_words_set_no_number(w: Seq<char>, status: ChatStatus, r: ChatStep)
    requires
        text::is_word(w),
    ensures
        number::usize_of(w) is None && chat_step("context"@ + " "@ + w, status, r) ==> r is Say,
        number::usize_of(w) is None && chat_step("max_tokens"@ + " "@ + w, status, r) ==> r is Say,
        number::u64_of(w) is None && chat_step("seed"@ + " "@ + w, status, r) ==> r is Say,
        chat_step("temperature"@ + " "@ + w, status, r) ==> (
        r matches ChatStep::Temperature { value: Some(v), .. } && v@ == w),
        chat_step("top_p"@ + " "@ + w, status, r) ==> (r matches ChatStep::TopP {
            value: Some(v),
            ..
        } && v@ == w),
{
    lemma_parameter_words();
    text::lemma_few_words("context"@, w, Seq::empty());
    text::lemma_few_words("max_tokens"@, w, Seq::empty());
    text::lemma_few_words("seed"@, w, Seq::empty());
    text::lemma_few_words("temperature"@, w, Seq::empty());
    text::lemma_few_words("top_p"@, w, Seq::empty());
}

/// `/chat` with the name of an engine builds that engine, with the model and, for
/// DeepSeek, the key that were given; any other name is refused.
pub proof fn law_engines_are_built_as_named(
    b: Seq<char>,
    m: Seq<char>,
    k: Seq<char>,
    status: ChatStatus,
    r: ChatStep,
)
    requires
        text::is_word(b),
        text::is_word(m),
        text::is_word(k),
        !is_parameter(b),
        chat_step(b + " "@ + m + " "@ + k, status, r),
    ensures
        text::lowercase_of(b) == "ollama"@ ==> (r matches ChatStep::Swap(s) && s@
            == backends::ChatSpecView::Ollama { model: m }),
        text::lowercase_of(b) == "deepseek"@ ==> (r matches ChatStep::Swap(s) && s@
            == backends::ChatSpecView::DeepSeek { model: m, api_key: Some(k) }),
        text::lowercase_of(b) != "ollama"@ && text::lowercase_of(b) != "deepseek"@ ==> r is Refused,
{
    reveal_strlit("ollama");
    reveal_strlit("deepseek");
    assert("ollama"@.len() != "deepseek"@.len());
    text::lemma_few_words(b, m, k);
}

/// Without a key none is set, and without a model each engine has its own.
pub proof fn law_what_is_not_given_is_not_set(
    b: Seq<char>,
    m: Seq<char>,
    status: ChatStatus,
    r: ChatStep,
)
    requires
        text::is_word(b),
        text::is_word(m),
        !is_parameter(b),
    ensures
        text::lowercase_of(b) == "deepseek"@ && chat_step(b + " "@ + m, status, r) ==> (
        r matches ChatStep::Swap(s) && s@ == backends::ChatSpecView::DeepSeek {
            model: m,
            api_key: None,
        }),
        text::lowercase_of(b) == "ollama"@ && chat_step(b + " "@ + m, status, r) ==> (
        r matches ChatStep::Swap(s) && s@ == backends::ChatSpecView::Ollama { model: m }),
        text::lowercase_of(b) == "ollama"@ && chat_step(b, status, r) ==> (
        r matches ChatStep::Swap(s) && s@ == backends::ChatSpecView::Ollama {
            model: "qwen3.5:9b"@,
        }),
        text::lowercase_of(b) == "deepseek"@ && chat_step(b, status, r) ==> (
        r matches ChatStep::Swap(s) && s@ == backends::ChatSpecView::DeepSeek {
            model: "deepseek-chat"@,
            api_key: None,
        }),
{
    reveal_strlit("ollama");
    reveal_strlit("deepseek");
    assert("ollama"@.len() != "deepseek"@.len());
    text::lemma_few_words(b, m, Seq::empty());
}

/// An engine that is built carries the parameter that the command sets, and only
/// that one.
pub proof fn law_a_rebuild_sets_one_parameter(step: ChatStep)
    ensures
        step matches ChatStep::MaxTokens(n) ==> (built_params(step) matches Some(p) && p.max_tokens
            == Some(n) && p.seed is None),
        step matches ChatStep::Seed(n) ==> (built_params(step) matches Some(p) && p.seed == Some(n)
            && p.max_tokens is None),
        step is Swap || step is Temperature || step is TopP ==> (built_params(step) matches Some(p)
            && p.seed is None && p.max_tokens is None),
        step is Say || step is SetContext || step is Refused ==> built_params(step) is None,
{
}

/// What is reported when the context window was set.
pub open spec fn context_text(tokens: nat) -> Seq<char> {
    "Context window set to "@ + number::decimal(tokens) + " tokens (prompt budget ~"@
        + number::decimal(budget(tokens)) + " chars)."@
}

/// What is reported holds the window, and three characters for each token of it
/// beyond those kept free.
pub proof fn law_the_new_window_is_told(tokens: nat)
    ensures
        tokens >= 1024 && (tokens - 1024) * 3 <= usize::MAX ==> context_text(tokens)
            == "Context window set to "@ + number::decimal(tokens) + " tokens (prompt budget ~"@
            + number::decimal(((tokens - 1024) * 3) as nat) + " chars)."@,
        tokens < 1024 ==> context_text(tokens) == "Context window set to "@ + number::decimal(tokens)
            + " tokens (prompt budget ~"@ + number::decimal(0) + " chars)."@,
{
}

/// What is reported when the context window was set.
pub fn context_notice(context_tokens: usize) -> (r: String)
    ensures
        r@ == context_text(context_tokens as nat),
{
    let mut m = "Context window set to ".to_string();
    let n = number::show_usize(context_tokens);
    m.append(n.as_str());
    m.append(" tokens (prompt budget ~");
    let chars = number::show_usize(prompt_budget(context_tokens));
    m.append(chars.as_str());
    m.append(" chars).");
    m
}

/// Another chat engine, or the refusal of one that does not exist.
pub fn swap(parsed: Result<ChatSpec, String>) -> (r: ChatStep)
    ensures
        match parsed {
            Ok(s) => swap_step(Ok(s@), r),
            Err(e) => swap_step(Err(e@), r),
        },
{
    match parsed {
        Ok(spec) => ChatStep::Swap(spec),
        Err(e) => {
            let mut m = "Chat agent spec parse error: ".to_string();
            m.append(e.as_str());
            ChatStep::Refused(m)
        },
    }
}

/// The engine to build when a parameter of it changes, or why it cannot be built.
pub open spec fn rebuilt_as(backend: Seq<char>, model: Seq<char>) -> Result<
    backends::ChatSpecView,
    Seq<char>,
> {
    match backends::chat_spec_of(text::lowercase_of(backend), Some(model), None) {
        Ok(s) => Ok(s),
        Err(e) => Err("Cannot rebuild unknown backend: "@ + e),
    }
}

/// An engine is built anew as what it is: by the same service, with the same model.
/// Nothing is built by a service that is not known.
pub proof fn law_engines_stay_what_they_are(backend: Seq<char>, model: Seq<char>)
    ensures
        text::lowercase_of(backend) == "ollama"@ ==> rebuilt_as(backend, model) == Ok::<
            backends::ChatSpecView,
            Seq<char>,
        >(backends::ChatSpecView::Ollama { model }),
        text::lowercase_of(backend) == "deepseek"@ ==> rebuilt_as(backend, model) == Ok::<
            backends::ChatSpecView,
            Seq<char>,
        >(backends::ChatSpecView::DeepSeek { model, api_key: None }),
        rebuilt_as(backend, model) is Err <==> text::lowercase_of(backend) != "ollama"@
            && text::lowercase_of(backend) != "deepseek"@,
{
    reveal_strlit("ollama");
    reveal_strlit("deepseek");
    assert("ollama"@.len() != "deepseek"@.len());
}

/// The engine to build when a parameter changes: the same backend and model as
/// before, without a key of its own. A backend that cannot be named is an
/// error.
pub fn rebuild_chat_with_param(backend: &str, model: &str) -> (r: Result<ChatSpec, String>)
    ensures
        match rebuilt_as(backend@, model@) {
            Ok(s) => r matches Ok(c) && c@ == s,
            Err(e) => r matches Err(m) && m@ == e,
        },
{
    rebuilt(backends::parse_chat_spec(backend, Some(model), None))
}

/// The engine to build when a parameter changes, or why it cannot be built.
pub fn rebuilt(parsed: Result<ChatSpec, String>) -> (r: Result<ChatSpec, String>)
    ensures
        match parsed {
            Ok(s) => r matches Ok(c) && c@ == s@,
            Err(e) => r matches Err(m) && m@ == "Cannot rebuild unknown backend: "@ + e@,
        },
{
    match parsed {
        Ok(spec) => Ok(spec),
        Err(e) => {
            let mut m = "Cannot rebuild unknown backend: ".to_string();
            m.append(e.as_str());
            Err(m)
        },
    }
}

/// `/chat <backend> [model] [api_key] | context <N> | temperature <F> |
/// top_p <F> | max_tokens <N> | seed <N>`.
pub fn cmd_chat(args: &str, status: &ChatStatus) -> (r: ChatStep)
    ensures
        chat_step(args@, *status, r),
{
    let w = text::words(args);
    let backend = text::word(&w, 0);
    let value = text::word_opt(&w, 1);
    if text::same(backend.as_str(), "context") {
        return match search::read_positive(&value) {
            Some(n) => ChatStep::SetContext(n),
            None => {
                let mut m = "Usage: /chat context <tokens>  (current: ".to_string();
                let n = number::show_usize(status.context_tokens);
                m.append(n.as_str());
                m.append(")");
                ChatStep::Say(vec![m])
            },
        };
    }
    if text::same(backend.as_str(), "temperature") {
        return ChatStep::Temperature {
            value,
            usage: "Usage: /chat temperature <F>  (0.0 = deterministic)".to_string(),
        };
    }
    if text::same(backend.as_str(), "top_p") {
        return ChatStep::TopP { value, usage: "Usage: /chat top_p <F>  (0.0–1.0)".to_string() };
    }
    if text::same(backend.as_str(), "max_tokens") {
        return match search::read_positive(&value) {
            Some(n) => ChatStep::MaxTokens(n),
            None => ChatStep::Say(vec!["Usage: /chat max_tokens <N>".to_string()]),
        };
    }
    if text::same(backend.as_str(), "seed") {
        let seed: Option<u64> = match &value {
            Some(s) => number::read_u64(s.as_str()),
            None => None,
        };
        return match seed {
            Some(n) => ChatStep::Seed(n),
            None => ChatStep::Say(vec!["Usage: /chat seed <N>".to_string()]),
        };
    }
    if backend.as_str().is_empty() {
        let mut m = "Chat: ".to_string();
        m.append(status.backend.as_str());
        m.append(" (");
        m.append(status.model.as_str());
        m.append(") — context window: ");
        let n = number::show_usize(status.context_tokens);
        m.append(n.as_str());
        m.append(" tokens");
        return ChatStep::Say(
            vec![
                m,
                "Usage: /chat <backend> [model] [api_key]  |  context <N>  |  temperature <F>  |  top_p <F>  |  max_tokens <N>  |  seed <N>".to_string(),
                "  backends: ollama, deepseek".to_string(),
            ],
        );
    }
    let api_key = text::word_opt(&w, 2);
    let parsed = backends::parse_chat_spec(
        backend.as_str(),
        text::as_opt_str(&value),
        text::as_opt_str(&api_key),
    );
    swap(parsed)
}

} // verus!
