//! `/search`: retrieval parameters, ranking and search by document.

use vstd::prelude::*;

use crate::backends;
use crate::backends::ChatSpec;
use crate::number;
use crate::text;

verus! {

/// What `/search` can report of the running session.
#[derive(Debug)]
pub struct SearchStatus {
    /// The number of chunks that a query retrieves.
    pub top_k: usize,
    /// The similarity threshold, written with three decimals.
    pub threshold: String,
    /// The ranker of the store, where the store has an exchangeable one.
    pub ranker: Option<String>,
    /// The model of the memory agent.
    pub memory_model: String,
}

/// A ranker that needs no other one.
#[derive(Debug, Clone, Copy, PartialEq, Eq, Structural)]
pub enum BaseRanker {
    RrfFusion,
    Cosine,
    Bm25,
    Weighted,
}

/// A ranker to be built. Parameters are the texts that the user gave; where
/// there is none, or none that is a number, the default counts.
#[derive(Debug)]
pub enum RankPlan {
    /// Reciprocal rank fusion with parameter `k`.
    RrfFusion { k: Option<String> },
    /// Vector similarity alone.
    Cosine,
    /// Full-text relevance alone.
    Bm25,
    /// A weighted sum of both with parameter `alpha`.
    Weighted { alpha: Option<String> },
    /// Diversity over another ranker with parameter `lambda`.
    Mmr { lambda: Option<String>, inner: BaseRanker },
    /// A language model that reorders what another ranker found.
    Llm { generator: ChatSpec, inner: BaseRanker },
}

/// What a `/search` command leads to.
#[derive(Debug)]
pub enum SearchStep {
    /// These lines are shown.
    Say(Vec<String>),
    /// The number of chunks per query is set.
    SetTopK(usize),
    /// The threshold is set where the text is a number that is not negative;
    /// otherwise the usage is shown.
    SetThreshold { value: Option<String>, usage: String },
    /// A ranker is built and installed.
    Rank(RankPlan),
    /// A document is the query.
    ByDocument(String),
}

/// Whether `r` shows exactly these lines.
pub open spec fn says(r: SearchStep, lines: Seq<Seq<char>>) -> bool {
    r matches SearchStep::Say(v) && text::texts(v@) =~= lines
}

/// The number in a word, where it is positive.
pub open spec fn positive(word: Option<Seq<char>>) -> Option<usize> {
    match word {
        Some(s) => match number::usize_of(s) {
            Some(n) if n > 0 => Some(n),
            _ => None,
        },
        None => None,
    }
}

/// The value of the last `key value` pair with that key.
pub open spec fn setting(words: Seq<Seq<char>>, key: Seq<char>) -> Option<Seq<char>>
    decreases words.len(),
{
    if words.len() < 2 {
        None
    } else {
        match setting(words.skip(2), key) {
            Some(v) => Some(v),
            None => if words[0] == key {
                Some(words[1])
            } else {
                None
            },
        }
    }
}

/// Where a key is given more than once, the last value counts.
pub proof fn law_last_setting_counts(words: Seq<Seq<char>>, key: Seq<char>, value: Seq<char>)
    requires
        words.len() % 2 == 0,
    ensures
        setting(words.push(key).push(value), key) == Some(value),
    decreases words.len(),
{
    let all = words.push(key).push(value);
    if words.len() == 0 {
        assert(setting(all.skip(2), key) is None);
    } else {
        law_last_setting_counts(words.skip(2), key, value);
        assert(all.skip(2) =~= words.skip(2).push(key).push(value));
    }
}

/// The ranker that a name stands for, among those that need no other one.
pub open spec fn base_ranker(name: Seq<char>) -> Option<BaseRanker> {
    if name == "RRFFusion"@ || name == "rrffusion"@ {
        Some(BaseRanker::RrfFusion)
    } else if name == "Cosine"@ || name == "cosine"@ {
        Some(BaseRanker::Cosine)
    } else if name == "BM25"@ || name == "bm25"@ {
        Some(BaseRanker::Bm25)
    } else if name == "Weighted"@ || name == "weighted"@ {
        Some(BaseRanker::Weighted)
    } else {
        None
    }
}

/// The ranker below a diversity ranker: the one that was asked for, else the
/// current one, else rank fusion.
pub open spec fn mmr_inner(asked: Option<Seq<char>>, current: Option<Seq<char>>) -> Option<
    BaseRanker,
> {
    match asked {
        Some(n) => base_ranker(n),
        None => match base_ranker(backends::or_default(current, Seq::empty())) {
            Some(b) => Some(b),
            None => Some(BaseRanker::RrfFusion),
        },
    }
}

/// The ranker below a language model: the one that was asked for, else rank
/// fusion.
pub open spec fn llm_inner(asked: Option<Seq<char>>) -> Option<BaseRanker> {
    match asked {
        Some(n) => base_ranker(n),
        None => Some(BaseRanker::RrfFusion),
    }
}

/// A language model as the ranker, or what is said where it cannot be built.
pub open spec fn llm_step(
    parsed: Result<backends::ChatSpecView, Seq<char>>,
    inner: BaseRanker,
    r: SearchStep,
) -> bool {
    match parsed {
        Ok(s) => r matches SearchStep::Rank(RankPlan::Llm { generator, inner: i }) && generator@
            == s && i == inner,
        Err(e) => says(r, seq!["Could not build LLM reranker generator: "@ + e]),
    }
}

/// What `/search rank <name> [key value]*` leads to.
pub open spec fn rank_step(
    name: Seq<char>,
    params: Seq<Seq<char>>,
    status: SearchStatus,
    r: SearchStep,
) -> bool {
    let inner = setting(params, "inner"@);
    if name == "RRFFusion"@ || name == "rrffusion"@ {
        r matches SearchStep::Rank(RankPlan::RrfFusion { k }) && text::opt_text(k) == setting(
            params,
            "k"@,
        )
    } else if name == "Cosine"@ || name == "cosine"@ {
        r == SearchStep::Rank(RankPlan::Cosine)
    } else if name == "BM25"@ || name == "bm25"@ {
        r == SearchStep::Rank(RankPlan::Bm25)
    } else if name == "Weighted"@ || name == "weighted"@ {
        r matches SearchStep::Rank(RankPlan::Weighted { alpha }) && text::opt_text(alpha)
            == setting(params, "alpha"@)
    } else if name == "MMR"@ || name == "mmr"@ {
        match mmr_inner(inner, text::opt_text(status.ranker)) {
            Some(b) => r matches SearchStep::Rank(RankPlan::Mmr { lambda, inner: i })
                && text::opt_text(lambda) == setting(params, "lambda"@) && i == b,
            None => says(r, seq!["Unknown inner ranker: '"@ + inner->Some_0 + "'"@]),
        }
    } else if name == "LLM"@ || name == "llm"@ {
        match llm_inner(inner) {
            Some(b) => llm_step(
                backends::chat_spec_of(
                    text::lowercase_of(
                        backends::or_default(setting(params, "provider"@), "ollama"@),
                    ),
                    Some(
                        backends::or_default(setting(params, "model"@), status.memory_model@),
                    ),
                    setting(params, "key"@),
                ),
                b,
                r,
            ),
            None => says(r, seq!["Unknown inner ranker: '"@ + inner->Some_0 + "'"@]),
        }
    } else {
        says(
            r,
            seq![
                "Unknown ranker: '"@ + name
                    + "'. Available: RRFFusion, Cosine, BM25, Weighted, MMR, LLM"@,
            ],
        )
    }
}

/// What `/search rank` alone shows.
pub open spec fn ranker_lines(current: Option<Seq<char>>) -> Seq<Seq<char>> {
    match current {
        Some(name) => seq![
            "Current ranker: "@ + name,
            "Available: RRFFusion, Cosine, BM25, Weighted, MMR, LLM"@,
            "Usage: /search rank <name> [key value]*"@,
            "  /search rank RRFFusion [k <F>]"@,
            "  /search rank Cosine"@,
            "  /search rank BM25"@,
            "  /search rank Weighted [alpha <F>]"@,
            "  /search rank MMR [lambda <F>] [inner <name>]"@,
            "  /search rank LLM [inner <name>] [provider <p>] [model <m>]"@,
        ],
        None => seq!["This store backend handles ranking internally."@],
    }
}

/// What `/search` alone shows.
pub open spec fn parameter_lines(status: SearchStatus) -> Seq<Seq<char>> {
    seq![
        "Vector search parameters:"@,
        "  top-k:     "@ + number::decimal(status.top_k as nat)
            + "  (change: /search topk <N>)"@,
        "  threshold: "@ + status.threshold@ + "  (change: /search threshold <F>)"@,
        match status.ranker {
            Some(name) => "  ranker:    "@ + name@
                + "  (change: /search rank <name> [key value]*)"@,
            None => "  ranker:    (opaque — store backend handles ranking)"@,
        },
        "  /search by <file> — use a document as the search query"@,
    ]
}

/// What a `/search` command leads to.
pub open spec fn search_step(args: Seq<char>, status: SearchStatus, r: SearchStep) -> bool {
    let w = text::words_of(args);
    let sub = text::word_at(w, 0);
    if sub.len() == 0 {
        says(r, parameter_lines(status))
    } else if sub == "topk"@ {
        match positive(text::word_get(w, 1)) {
            Some(n) => r == SearchStep::SetTopK(n),
            None => says(
                r,
                seq![
                    "Usage: /search topk <N>  (current: "@ + number::decimal(
                        status.top_k as nat,
                    ) + ")"@,
                ],
            ),
        }
    } else if sub == "threshold"@ {
        r matches SearchStep::SetThreshold { value, usage } && text::opt_text(value)
            == text::word_get(w, 1) && usage@ == "Usage: /search threshold <F>  (current: "@
            + status.threshold@ + ")"@
    } else if sub == "rank"@ {
        let name = text::word_at(w, 1);
        if name.len() == 0 {
            says(r, ranker_lines(text::opt_text(status.ranker)))
        } else {
            rank_step(name, w.skip(2), status, r)
        }
    } else if sub == "by"@ {
        let file = text::word_at(w, 1);
        if file.len() == 0 {
            says(
                r,
                seq![
                    "Usage: /search by <file>  — use a document as the search query"@,
                    "  Parses the file, chunks it, and finds similar documents in the database."@,
                ],
            )
        } else {
            r matches SearchStep::ByDocument(f) && f@ == file
        }
    } else {
        says(
            r,
            seq![
                "Unknown subcommand: '"@ + sub
                    + "'. Use /search, /search topk <N>, /search threshold <F>, /search rank <name>, or /search by <file>."@,
            ],
        )
    }
}

/// The ranker without another one below it that a plan builds, if it is one.
pub open spec fn base_of(plan: RankPlan) -> Option<BaseRanker> {
    match plan {
        RankPlan::RrfFusion { .. } => Some(BaseRanker::RrfFusion),
        RankPlan::Cosine => Some(BaseRanker::Cosine),
        RankPlan::Bm25 => Some(BaseRanker::Bm25),
        RankPlan::Weighted { .. } => Some(BaseRanker::Weighted),
        _ => None,
    }
}

proof fn lemma_ranker_names()
    ensures
        text::is_word("RRFFusion"@) && text::is_word("rrffusion"@) && text::is_word("Cosine"@)
            && text::is_word("cosine"@) && text::is_word("BM25"@) && text::is_word("bm25"@)
            && text::is_word("Weighted"@) && text::is_word("weighted"@) && text::is_word("MMR"@)
            && text::is_word("mmr"@) && text::is_word("LLM"@) && text::is_word("llm"@),
        "RRFFusion"@.len() == 9 && "rrffusion"@.len() == 9 && "Cosine"@.len() == 6 && "cosine"@.len()
            == 6 && "BM25"@.len() == 4 && "bm25"@.len() == 4 && "Weighted"@.len() == 8
            && "weighted"@.len() == 8 && "MMR"@.len() == 3 && "mmr"@.len() == 3 && "LLM"@.len() == 3
            && "llm"@.len() == 3,
        "MMR"@[0] == 'M' && "mmr"@[0] == 'm' && "LLM"@[0] == 'L' && "llm"@[0] == 'l',
{
    reveal_strlit("RRFFusion");
    reveal_strlit("rrffusion");
    reveal_strlit("Cosine");
    reveal_strlit("cosine");
    reveal_strlit("BM25");
    reveal_strlit("bm25");
    reveal_strlit("Weighted");
    reveal_strlit("weighted");
    reveal_strlit("MMR");
    reveal_strlit("mmr");
    reveal_strlit("LLM");
    reveal_strlit("llm");
}

/// Each ranker is built under its own name, in either spelling, whatever
/// parameters stand behind it.
pub proof fn law_rankers_are_built_as_named(
    params: Seq<Seq<char>>,
    status: SearchStatus,
    r: SearchStep,
)
    ensures
        rank_step("RRFFusion"@, params, status, r) || rank_step("rrffusion"@, params, status, r) ==> (
        r matches SearchStep::Rank(RankPlan::RrfFusion { .. })),
        rank_step("Cosine"@, params, status, r) || rank_step("cosine"@, params, status, r) ==> (
        r matches SearchStep::Rank(RankPlan::Cosine)),
        rank_step("BM25"@, params, status, r) || rank_step("bm25"@, params, status, r) ==> (
        r matches SearchStep::Rank(RankPlan::Bm25)),
        rank_step("Weighted"@, params, status, r) || rank_step("weighted"@, params, status, r) ==> (
        r matches SearchStep::Rank(RankPlan::Weighted { .. })),
        (rank_step("MMR"@, params, status, r) || rank_step("mmr"@, params, status, r))
            && !(r is Say) ==> (r matches SearchStep::Rank(RankPlan::Mmr { .. })),
        (rank_step("LLM"@, params, status, r) || rank_step("llm"@, params, status, r))
            && !(r is Say) ==> (r matches SearchStep::Rank(RankPlan::Llm { .. })),
{
    lemma_ranker_names();
}

/// A name stands for the same ranker below another one as on its own, and no
/// other names stand for one.
pub proof fn law_names_mean_the_same_everywhere(
    name: Seq<char>,
    params: Seq<Seq<char>>,
    status: SearchStatus,
    r: SearchStep,
)
    requires
        rank_step(name, params, status, r),
    ensures
        base_ranker(name) matches Some(b) ==> (r matches SearchStep::Rank(p) && base_of(p) == Some(b)),
        base_ranker(name) is None ==> !(r matches SearchStep::Rank(p) && base_of(p) is Some),
        base_ranker("RRFFusion"@) == Some(BaseRanker::RrfFusion),
        base_ranker("rrffusion"@) == Some(BaseRanker::RrfFusion),
        base_ranker("Cosine"@) == Some(BaseRanker::Cosine),
        base_ranker("cosine"@) == Some(BaseRanker::Cosine),
        base_ranker("BM25"@) == Some(BaseRanker::Bm25),
        base_ranker("bm25"@) == Some(BaseRanker::Bm25),
        base_ranker("Weighted"@) == Some(BaseRanker::Weighted),
        base_ranker("weighted"@) == Some(BaseRanker::Weighted),
{
    lemma_ranker_names();
}

/// The value behind a key is its value, and a key that does not stand there has
/// none.
pub proof fn law_settings_are_found_under_their_key(
    key: Seq<char>,
    value: Seq<char>,
    other: Seq<char>,
    rest: Seq<Seq<char>>,
)
    ensures
        setting(rest, key) is None ==> setting(seq![key, value] + rest, key) == Some(value),
        other != key ==> setting(seq![other, value] + rest, key) == setting(rest, key),
        setting(Seq::empty(), key) is None,
{
    assert((seq![key, value] + rest).skip(2) =~= rest);
    assert((seq![other, value] + rest).skip(2) =~= rest);
}

/// A parameter that is given reaches the ranker as it stands; without one the
/// ranker has none, and rank fusion stands below a language model.
pub proof fn law_ranker_parameters_are_passed_on(
    v: Seq<char>,
    status: SearchStatus,
    r: SearchStep,
)
    ensures
        rank_step("RRFFusion"@, seq!["k"@, v], status, r) ==> (r matches SearchStep::Rank(
            RankPlan::RrfFusion { k: Some(k) },
        ) && k@ == v),
        rank_step("RRFFusion"@, Seq::empty(), status, r) ==> (r matches SearchStep::Rank(
            RankPlan::RrfFusion { k: None },
        )),
        rank_step("Weighted"@, seq!["alpha"@, v], status, r) ==> (r matches SearchStep::Rank(
            RankPlan::Weighted { alpha: Some(a) },
        ) && a@ == v),
        rank_step("Weighted"@, Seq::empty(), status, r) ==> (r matches SearchStep::Rank(
            RankPlan::Weighted { alpha: None },
        )),
        rank_step("MMR"@, seq!["lambda"@, v], status, r) ==> (r matches SearchStep::Rank(
            RankPlan::Mmr { lambda: Some(l), .. },
        ) && l@ == v),
        rank_step("MMR"@, seq!["inner"@, v], status, r) ==> match base_ranker(v) {
            Some(b) => r matches SearchStep::Rank(RankPlan::Mmr { lambda: None, inner })
                && inner == b,
            None => r is Say,
        },
        rank_step("LLM"@, seq!["inner"@, v], status, r) && text::lowercase_of("ollama"@)
            == "ollama"@ ==> match base_ranker(v) {
            Some(b) => r matches SearchStep::Rank(RankPlan::Llm { generator, inner }) && inner == b
                && generator@ == backends::ChatSpecView::Ollama { model: status.memory_model@ },
            None => r is Say,
        },
        rank_step("LLM"@, seq!["model"@, v], status, r) && text::lowercase_of("ollama"@)
            == "ollama"@ ==> (r matches SearchStep::Rank(RankPlan::Llm { generator, inner })
            && inner == BaseRanker::RrfFusion && generator@ == backends::ChatSpecView::Ollama {
            model: v,
        }),
{
    lemma_ranker_names();
    reveal_strlit("k");
    reveal_strlit("alpha");
    reveal_strlit("lambda");
    reveal_strlit("inner");
    reveal_strlit("model");
    reveal_strlit("provider");
    reveal_strlit("key");
    assert("inner"@[0] != "model"@[0]);
    assert("inner"@.len() != "lambda"@.len());
    assert("provider"@.len() != "inner"@.len());
    assert("key"@.len() != "inner"@.len());
    assert("lambda"@.len() != "model"@.len());
    let none = Seq::<Seq<char>>::empty();
    assert(forall|key: Seq<char>| seq![key, v] + none =~= seq![key, v]);
    law_settings_are_found_under_their_key("k"@, v, "k"@, none);
    law_settings_are_found_under_their_key("alpha"@, v, "alpha"@, none);
    law_settings_are_found_under_their_key("lambda"@, v, "inner"@, none);
    law_settings_are_found_under_their_key("inner"@, v, "lambda"@, none);
    law_settings_are_found_under_their_key("inner"@, v, "model"@, none);
    law_settings_are_found_under_their_key("model"@, v, "inner"@, none);
    law_settings_are_found_under_their_key("provider"@, v, "inner"@, none);
    law_settings_are_found_under_their_key("provider"@, v, "model"@, none);
    law_settings_are_found_under_their_key("key"@, v, "inner"@, none);
    law_settings_are_found_under_their_key("key"@, v, "model"@, none);
}

/// A language model as a ranker is the one that was asked for: its service, its
/// model and, for DeepSeek, its key.
pub proof fn law_reranking_models_are_built_as_named(
    p: Seq<char>,
    m: Seq<char>,
    k: Seq<char>,
    status: SearchStatus,
    r: SearchStep,
)
    requires
        rank_step("LLM"@, seq!["provider"@, p, "model"@, m, "key"@, k], status, r),
    ensures
        text::lowercase_of(p) == "ollama"@ ==> (r matches SearchStep::Rank(RankPlan::Llm {
            generator,
            inner,
        }) && generator@ == backends::ChatSpecView::Ollama { model: m } && inner
            == BaseRanker::RrfFusion),
        text::lowercase_of(p) == "deepseek"@ ==> (r matches SearchStep::Rank(RankPlan::Llm {
            generator,
            inner,
        }) && generator@ == backends::ChatSpecView::DeepSeek { model: m, api_key: Some(k) }
            && inner == BaseRanker::RrfFusion),
        text::lowercase_of(p) != "ollama"@ && text::lowercase_of(p) != "deepseek"@ ==> r is Say,
{
    lemma_ranker_names();
    reveal_strlit("inner");
    reveal_strlit("model");
    reveal_strlit("provider");
    reveal_strlit("key");
    reveal_strlit("ollama");
    reveal_strlit("deepseek");
    assert("ollama"@.len() != "deepseek"@.len());
    assert("inner"@[0] != "model"@[0]);
    assert("inner"@.len() == 5 && "model"@.len() == 5 && "provider"@.len() == 8 && "key"@.len()
        == 3);
    let none = Seq::<Seq<char>>::empty();
    let keys = seq!["key"@, k];
    let models = seq!["model"@, m] + keys;
    let all = seq!["provider"@, p] + models;
    assert(seq!["provider"@, p, "model"@, m, "key"@, k] =~= all);
    assert(seq!["key"@, k] + none =~= keys);
    law_settings_are_found_under_their_key("key"@, k, "key"@, none);
    law_settings_are_found_under_their_key("model"@, k, "key"@, none);
    law_settings_are_found_under_their_key("provider"@, k, "key"@, none);
    law_settings_are_found_under_their_key("inner"@, k, "key"@, none);
    law_settings_are_found_under_their_key("model"@, m, "model"@, keys);
    law_settings_are_found_under_their_key("key"@, m, "model"@, keys);
    law_settings_are_found_under_their_key("provider"@, m, "model"@, keys);
    law_settings_are_found_under_their_key("inner"@, m, "model"@, keys);
    law_settings_are_found_under_their_key("provider"@, p, "provider"@, models);
    law_settings_are_found_under_their_key("key"@, p, "provider"@, models);
    law_settings_are_found_under_their_key("model"@, p, "provider"@, models);
    law_settings_are_found_under_their_key("inner"@, p, "provider"@, models);
}

/// A diversity ranker without an inner one keeps the current ranker below it,
/// where that is one that needs no other.
pub proof fn law_diversity_keeps_the_current_ranker(status: SearchStatus, r: SearchStep)
    requires
        rank_step("MMR"@, Seq::empty(), status, r),
    ensures
        r matches SearchStep::Rank(RankPlan::Mmr { lambda: None, inner }) && (match status.ranker {
            Some(name) => match base_ranker(name@) {
                Some(b) => inner == b,
                None => inner == BaseRanker::RrfFusion,
            },
            None => inner == BaseRanker::RrfFusion,
        }),
{
    lemma_ranker_names();
    assert(base_ranker(Seq::empty()) is None);
}

/// The words behind `/search` say what is tuned, and the word behind them is the
/// value.
pub proof fn law_search_words_say_what_is_tuned(
    n: nat,
    w: Seq<char>,
    status: SearchStatus,
    r: SearchStep,
)
    requires
        text::is_word(w),
    ensures
        0 < n <= usize::MAX && search_step("topk"@ + " "@ + number::decimal(n), status, r) ==> r
            == SearchStep::SetTopK(n as usize),
        search_step("topk"@ + " "@ + number::decimal(0), status, r) ==> r is Say,
        number::usize_of(w) is None && search_step("topk"@ + " "@ + w, status, r) ==> r is Say,
        search_step("threshold"@ + " "@ + w, status, r) ==> (r matches SearchStep::SetThreshold {
            value: Some(v),
            ..
        } && v@ == w),
        search_step("by"@ + " "@ + w, status, r) ==> (r matches SearchStep::ByDocument(f) && f@ == w),
        search_step("rank"@ + " "@ + w, status, r) ==> rank_step(w, Seq::empty(), status, r),
{
    reveal_strlit("topk");
    reveal_strlit("threshold");
    reveal_strlit("by");
    reveal_strlit("rank");
    assert("topk"@[0] != "rank"@[0]);
    assert("by"@.len() == 2 && "topk"@.len() == 4 && "rank"@.len() == 4 && "threshold"@.len() == 9);
    number::lemma_decimal_is_plain(n);
    number::lemma_decimal_is_plain(0);
    number::law_numbers_are_read_back(n);
    number::law_numbers_are_read_back(0);
    text::lemma_few_words("topk"@, number::decimal(n), Seq::empty());
    text::lemma_few_words("topk"@, number::decimal(0), Seq::empty());
    text::lemma_few_words("topk"@, w, Seq::empty());
    text::lemma_few_words("threshold"@, w, Seq::empty());
    text::lemma_few_words("by"@, w, Seq::empty());
    text::lemma_few_words("rank"@, w, Seq::empty());
    assert(text::words_of("rank"@ + " "@ + w).skip(2) =~= Seq::<Seq<char>>::empty());
}

/// `/search` alone shows the values in use, `/search rank` alone the ranker, and a
/// word that is not known is named in what is said of it.
pub proof fn law_search_values_are_shown(status: SearchStatus, w: Seq<char>, r: SearchStep)
    ensures
        search_step(Seq::empty(), status, r) ==> (r matches SearchStep::Say(v) && v@.len() == 5
            && v@[1]@ == "  top-k:     "@ + number::decimal(status.top_k as nat)
            + "  (change: /search topk <N>)"@ && v@[2]@ == "  threshold: "@ + status.threshold@
            + "  (change: /search threshold <F>)"@ && (status.ranker matches Some(name) ==> v@[3]@
            == "  ranker:    "@ + name@ + "  (change: /search rank <name> [key value]*)"@)),
        search_step("rank"@, status, r) ==> (status.ranker matches Some(name) ==> (
        r matches SearchStep::Say(v) && v@.len() > 0 && v@[0]@ == "Current ranker: "@ + name@)),
        search_step("rank"@, status, r) ==> (status.ranker is None ==> (
        r matches SearchStep::Say(v) && v@.len() == 1)),
        text::is_word(w) && w != "topk"@ && w != "threshold"@ && w != "rank"@ && w != "by"@
            && search_step(w, status, r) ==> (r matches SearchStep::Say(v) && v@.len() == 1 && (
        "Unknown subcommand: '"@ + w + "'"@).is_prefix_of(v@[0]@)),
{
    reveal_strlit("topk");
    reveal_strlit("threshold");
    reveal_strlit("by");
    reveal_strlit("rank");
    assert("topk"@[0] != "rank"@[0]);
    assert("by"@.len() == 2 && "topk"@.len() == 4 && "rank"@.len() == 4 && "threshold"@.len() == 9);
    text::law_words_are_read_back(Seq::empty());
    assert(text::joined(Seq::<Seq<char>>::empty(), " "@) =~= Seq::<char>::empty());
    text::lemma_few_words("rank"@, "rank"@, Seq::empty());
    if text::is_word(w) {
        text::lemma_few_words(w, w, Seq::empty());
    }
    if let SearchStep::Say(v) = r {
        let t = text::texts(v@);
        assert(t.len() == v@.len());
        if v@.len() > 0 {
            assert(t[0] == v@[0]@);
        }
        if v@.len() == 5 {
            assert(t[1] == v@[1]@);
            assert(t[2] == v@[2]@);
            assert(t[3] == v@[3]@);
        }
        if text::is_word(w) && w != "topk"@ && w != "threshold"@ && w != "rank"@ && w != "by"@
            && search_step(w, status, r) {
            let start = "Unknown subcommand: '"@ + w + "'"@;
            reveal_strlit("'");
            reveal_strlit(
                "'. Use /search, /search topk <N>, /search threshold <F>, /search rank <name>, or /search by <file>.",
            );
            assert(v@[0]@.subrange(0, start.len() as int) =~= start);
        }
    }
}

/// `/search rank` with a name and no parameters builds what the name stands for,
/// in either spelling.
pub proof fn law_search_rank_builds_the_ranker(
    name: Seq<char>,
    status: SearchStatus,
    r: SearchStep,
)
    requires
        text::is_word(name),
        search_step("rank"@ + " "@ + name, status, r),
    ensures
        name == "RRFFusion"@ || name == "rrffusion"@ ==> (r matches SearchStep::Rank(
            RankPlan::RrfFusion { k: None },
        )),
        name == "Cosine"@ || name == "cosine"@ ==> (r matches SearchStep::Rank(RankPlan::Cosine)),
        name == "BM25"@ || name == "bm25"@ ==> (r matches SearchStep::Rank(RankPlan::Bm25)),
        name == "Weighted"@ || name == "weighted"@ ==> (r matches SearchStep::Rank(
            RankPlan::Weighted { alpha: None },
        )),
        name == "MMR"@ || name == "mmr"@ ==> (r matches SearchStep::Rank(RankPlan::Mmr { .. })),
        base_ranker(name) matches Some(b) ==> (r matches SearchStep::Rank(p) && base_of(p) == Some(b)),
{
    law_search_words_say_what_is_tuned(0, name, status, r);
    law_names_mean_the_same_everywhere(name, Seq::empty(), status, r);
    lemma_ranker_names();
    assert(base_ranker(Seq::empty()) is None);
}

/// The number in a word, where it is positive.
pub fn read_positive(word: &Option<String>) -> (r: Option<usize>)
    ensures
        r == positive(text::opt_text(*word)),
{
    match word {
        Some(s) => match number::read_usize(s.as_str()) {
            Some(n) => if n > 0 {
                Some(n)
            } else {
                None
            },
            None => None,
        },
        None => None,
    }
}

/// The value of the last `key value` pair with that key among the words from
/// position `from` on.
fn read_setting(words: &Vec<String>, from: usize, key: &str) -> (r: Option<String>)
    requires
        from <= words@.len(),
    ensures
        text::opt_text(r) == setting(text::texts(words@).skip(from as int), key@),
{
    let ghost all = text::texts(words@).skip(from as int);
    let mut found: Option<String> = None;
    let mut i: usize = from;
    assert(all.skip(0) =~= all);
    while words.len() - i >= 2
        invariant
            from <= i <= words@.len(),
            all == text::texts(words@).skip(from as int),
            setting(all, key@) == match setting(all.skip(i - from), key@) {
                Some(v) => Some(v),
                None => text::opt_text(found),
            },
        decreases words@.len() - i,
    {
        let ghost rest = all.skip(i - from);
        assert(rest[0] == words@[i as int]@);
        assert(rest[1] == words@[i + 1]@);
        assert(rest.skip(2) =~= all.skip(i + 2 - from));
        if text::same(words[i].as_str(), key) {
            found = Some(words[i + 1].clone());
        }
        i += 2;
    }
    found
}

/// The ranker that a name stands for, among those that need no other one.
pub fn build_default_ranker(name: &str) -> (r: Option<BaseRanker>)
    ensures
        r == base_ranker(name@),
{
    if text::same(name, "RRFFusion") || text::same(name, "rrffusion") {
        Some(BaseRanker::RrfFusion)
    } else if text::same(name, "Cosine") || text::same(name, "cosine") {
        Some(BaseRanker::Cosine)
    } else if text::same(name, "BM25") || text::same(name, "bm25") {
        Some(BaseRanker::Bm25)
    } else if text::same(name, "Weighted") || text::same(name, "weighted") {
        Some(BaseRanker::Weighted)
    } else {
        None
    }
}

/// What is said of a ranker that cannot stand below another one.
fn unknown_inner(name: &str) -> (r: SearchStep)
    ensures
        says(r, seq!["Unknown inner ranker: '"@ + name@ + "'"@]),
{
    let mut m = "Unknown inner ranker: '".to_string();
    m.append(name);
    m.append("'");
    SearchStep::Say(vec![m])
}

/// A language model as the ranker, or what is said where it cannot be built.
pub fn llm_ranker(parsed: Result<ChatSpec, String>, inner: BaseRanker) -> (r: SearchStep)
    ensures
        match parsed {
            Ok(s) => llm_step(Ok(s@), inner, r),
            Err(e) => llm_step(Err(e@), inner, r),
        },
{
    match parsed {
        Ok(generator) => SearchStep::Rank(RankPlan::Llm { generator, inner }),
        Err(e) => {
            let mut m = "Could not build LLM reranker generator: ".to_string();
            m.append(e.as_str());
            SearchStep::Say(vec![m])
        },
    }
}

/// `/search rank <name> [key value]*`, with the words of the whole command.
fn rank(name: &str, words: &Vec<String>, status: &SearchStatus) -> (r: SearchStep)
    requires
        words@.len() >= 2,
    ensures
        rank_step(name@, text::texts(words@).skip(2), *status, r),
{
    if text::same(name, "RRFFusion") || text::same(name, "rrffusion") {
        return SearchStep::Rank(RankPlan::RrfFusion { k: read_setting(words, 2, "k") });
    }
    if text::same(name, "Cosine") || text::same(name, "cosine") {
        return SearchStep::Rank(RankPlan::Cosine);
    }
    if text::same(name, "BM25") || text::same(name, "bm25") {
        return SearchStep::Rank(RankPlan::Bm25);
    }
    if text::same(name, "Weighted") || text::same(name, "weighted") {
        return SearchStep::Rank(RankPlan::Weighted { alpha: read_setting(words, 2, "alpha") });
    }
    if text::same(name, "MMR") || text::same(name, "mmr") {
        let inner = match read_setting(words, 2, "inner") {
            Some(n) => match build_default_ranker(n.as_str()) {
                Some(b) => b,
                None => {
                    return unknown_inner(n.as_str());
                },
            },
            None => {
                let current = match &status.ranker {
                    Some(n) => n.clone(),
                    None => String::new(),
                };
                match build_default_ranker(current.as_str()) {
                    Some(b) => b,
                    None => BaseRanker::RrfFusion,
                }
            },
        };
        return SearchStep::Rank(RankPlan::Mmr { lambda: read_setting(words, 2, "lambda"), inner });
    }
    if text::same(name, "LLM") || text::same(name, "llm") {
        let inner = match read_setting(words, 2, "inner") {
            Some(n) => match build_default_ranker(n.as_str()) {
                Some(b) => b,
                None => {
                    return unknown_inner(n.as_str());
                },
            },
            None => BaseRanker::RrfFusion,
        };
        let provider = match read_setting(words, 2, "provider") {
            Some(p) => p,
            None => "ollama".to_string(),
        };
        let model = match read_setting(words, 2, "model") {
            Some(m) => m,
            None => status.memory_model.clone(),
        };
        let key = read_setting(words, 2, "key");
        let parsed = backends::parse_chat_spec(
            provider.as_str(),
            Some(model.as_str()),
            text::as_opt_str(&key),
        );
        return llm_ranker(parsed, inner);
    }
    let mut m = "Unknown ranker: '".to_string();
    m.append(name);
    m.append("'. Available: RRFFusion, Cosine, BM25, Weighted, MMR, LLM");
    SearchStep::Say(vec![m])
}

/// The lines that `/search rank` alone shows.
fn show_ranker(ranker: &Option<String>) -> (r: Vec<String>)
    ensures
        text::texts(r@) =~= ranker_lines(text::opt_text(*ranker)),
{
    match ranker {
        Some(name) => {
            let mut current = "Current ranker: ".to_string();
            current.append(name.as_str());
            vec![
                current,
                "Available: RRFFusion, Cosine, BM25, Weighted, MMR, LLM".to_string(),
                "Usage: /search rank <name> [key value]*".to_string(),
                "  /search rank RRFFusion [k <F>]".to_string(),
                "  /search rank Cosine".to_string(),
                "  /search rank BM25".to_string(),
                "  /search rank Weighted [alpha <F>]".to_string(),
                "  /search rank MMR [lambda <F>] [inner <name>]".to_string(),
                "  /search rank LLM [inner <name>] [provider <p>] [model <m>]".to_string(),
            ]
        },
        None => vec!["This store backend handles ranking internally.".to_string()],
    }
}

/// The lines that `/search` alone shows.
fn show_parameters(status: &SearchStatus) -> (r: Vec<String>)
    ensures
        text::texts(r@) =~= parameter_lines(*status),
{
    let mut top_k = "  top-k:     ".to_string();
    let n = number::show_usize(status.top_k);
    top_k.append(n.as_str());
    top_k.append("  (change: /search topk <N>)");
    let mut threshold = "  threshold: ".to_string();
    threshold.append(status.threshold.as_str());
    threshold.append("  (change: /search threshold <F>)");
    let ranker = match &status.ranker {
        Some(name) => {
            let mut m = "  ranker:    ".to_string();
            m.append(name.as_str());
            m.append("  (change: /search rank <name> [key value]*)");
            m
        },
        None => "  ranker:    (opaque — store backend handles ranking)".to_string(),
    };
    vec![
        "Vector search parameters:".to_string(),
        top_k,
        threshold,
        ranker,
        "  /search by <file> — use a document as the search query".to_string(),
    ]
}

/// `/search [topk <N> | threshold <F> | rank <name> [key value]* | by <file>]`.
pub fn cmd_search(args: &str, status: &SearchStatus) -> (r: SearchStep)
    ensures
        search_step(args@, *status, r),
{
    let w = text::words(args);
    let sub = text::word(&w, 0);
    if sub.as_str().is_empty() {
        return SearchStep::Say(show_parameters(status));
    }
    if text::same(sub.as_str(), "topk") {
        let word = text::word_opt(&w, 1);
        return match read_positive(&word) {
            Some(n) => SearchStep::SetTopK(n),
            None => {
                let mut m = "Usage: /search topk <N>  (current: ".to_string();
                let n = number::show_usize(status.top_k);
                m.append(n.as_str());
                m.append(")");
                SearchStep::Say(vec![m])
            },
        };
    }
    if text::same(sub.as_str(), "threshold") {
        let mut usage = "Usage: /search threshold <F>  (current: ".to_string();
        usage.append(status.threshold.as_str());
        usage.append(")");
        return SearchStep::SetThreshold { value: text::word_opt(&w, 1), usage };
    }
    if text::same(sub.as_str(), "rank") {
        let name = text::word(&w, 1);
        if name.as_str().is_empty() {
            return SearchStep::Say(show_ranker(&status.ranker));
        }
        return rank(name.as_str(), &w, status);
    }
    if text::same(sub.as_str(), "by") {
        let file = text::word(&w, 1);
        if file.as_str().is_empty() {
            return SearchStep::Say(
                vec![
                    "Usage: /search by <file>  — use a document as the search query".to_string(),
                    "  Parses the file, chunks it, and finds similar documents in the database."
                        .to_string(),
                ],
            );
        }
        return SearchStep::ByDocument(file);
    }
    let mut m = "Unknown subcommand: '".to_string();
    m.append(sub.as_str());
    m.append(
        "'. Use /search, /search topk <N>, /search threshold <F>, /search rank <name>, or /search by <file>.",
    );
    SearchStep::Say(vec![m])
}

/// A chunk that resembles the document that was searched for.
#[derive(Debug)]
pub struct SimilarChunk {
    /// The score, written with four decimals.
    pub score: String,
    pub document: String,
    pub text: String,
}

/// One line of the list of similar chunks.
pub open spec fn similar_line(i: int, c: SimilarChunk) -> Seq<char> {
    "  ["@ + text::padded_start(number::decimal((i + 1) as nat), 2) + "] "@ + c.score@ + "  "@
        + c.document@ + " — "@ + text::truncated(text::trimmed(c.text@), 100)
}

/// What is shown after a search by document.
pub open spec fn similar_lines(found: Seq<SimilarChunk>, file: Seq<char>) -> Seq<Seq<char>> {
    if found.len() == 0 {
        seq!["No similar documents found."@]
    } else {
        seq![
            "Found "@ + number::decimal(found.len()) + " similar chunks (from document '"@ + file
                + "'):"@,
        ] + Seq::new(found.len(), |i: int| similar_line(i, found[i])) + seq![
            "\nUse /refs to extract references from these results."@,
        ]
    }
}

/// The list has a line for each chunk, in the order in which they were found,
/// between a heading and a closing line; each line has the number of the chunk,
/// its score, its document and no more than the first hundred characters of its
/// text.
pub proof fn law_every_similar_chunk_is_listed(found: Seq<SimilarChunk>, file: Seq<char>, i: int)
    requires
        0 <= i < found.len(),
    ensures
        similar_lines(found, file).len() == found.len() + 2,
        similar_lines(found, file)[0] == "Found "@ + number::decimal(found.len())
            + " similar chunks (from document '"@ + file + "'):"@,
        ({
            let line = similar_lines(found, file)[i + 1];
            let start = "  ["@ + text::padded_start(number::decimal((i + 1) as nat), 2) + "] "@
                + found[i].score@ + "  "@ + found[i].document@ + " — "@;
            &&& start.is_prefix_of(line)
            &&& line.skip(start.len() as int).is_prefix_of(text::trimmed(found[i].text@))
            &&& line.len() <= start.len() + 100
            &&& text::trimmed(found[i].text@).len() <= 100 ==> line == start + text::trimmed(
                found[i].text@,
            )
        }),
{
    let line = similar_lines(found, file)[i + 1];
    let start = "  ["@ + text::padded_start(number::decimal((i + 1) as nat), 2) + "] "@
        + found[i].score@ + "  "@ + found[i].document@ + " — "@;
    assert(line == similar_line(i, found[i]));
    assert(start =~= line.subrange(0, start.len() as int));
    text::law_cutting_keeps_the_beginning(text::trimmed(found[i].text@), 100);
    assert(line.skip(start.len() as int) =~= text::truncated(text::trimmed(found[i].text@), 100));
}

/// Lists the chunks that resemble a document.
pub fn show_similar(found: &Vec<SimilarChunk>, file: &str) -> (r: Vec<String>)
    ensures
        text::texts(r@) == similar_lines(found@, file@),
{
    let mut out: Vec<String> = Vec::new();
    if found.len() == 0 {
        out.push("No similar documents found.".to_string());
        assert(text::texts(out@) =~= similar_lines(found@, file@));
        return out;
    }
    let mut head = "Found ".to_string();
    let n = number::show_usize(found.len());
    head.append(n.as_str());
    head.append(" similar chunks (from document '");
    head.append(file);
    head.append("'):");
    out.push(head);
    let mut i: usize = 0;
    while i < found.len()
        invariant
            i <= found@.len(),
            out@.len() == i + 1,
            out@[0]@ == head@,
            forall|j: int| 0 <= j < i ==> (#[trigger] out@[j + 1])@ == similar_line(j, found@[j]),
        decreases found@.len() - i,
    {
        let mut m = "  [".to_string();
        let digits = number::show(i as u64 + 1);
        let index = text::pad_start(digits.as_str(), 2);
        m.append(index.as_str());
        m.append("] ");
        m.append(found[i].score.as_str());
        m.append("  ");
        m.append(found[i].document.as_str());
        m.append(" — ");
        let trimmed = text::trim(found[i].text.as_str());
        let excerpt = text::truncate(trimmed.as_str(), 100);
        m.append(excerpt.as_str());
        out.push(m);
        i += 1;
    }
    out.push("\nUse /refs to extract references from these results.".to_string());
    proof {
        let want = similar_lines(found@, file@);
        assert(want.len() == out@.len());
        assert forall|k: int| 0 <= k < want.len() implies text::texts(out@)[k] == want[k] by {
            if 0 < k < want.len() - 1 {
                assert(out@[(k - 1) + 1]@ == similar_line(k - 1, found@[k - 1]));
            }
        }
        assert(text::texts(out@) =~= want);
    }
    out
}

} // verus!
