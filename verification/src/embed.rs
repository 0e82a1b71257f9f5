//! `/embed` and `/chunker`: how documents are turned into searchable chunks.

use vstd::prelude::*;

use crate::backends;
use crate::backends::EmbedSpec;
use crate::number;
use crate::search;
use crate::text;

verus! {

/// What `/embed` can report of the running session.
#[derive(Debug)]
pub struct EmbedStatus {
    pub backend: String,
    pub model: String,
    /// The number of chunks that a query retrieves.
    pub top_k: usize,
    /// The similarity threshold in its shortest notation.
    pub threshold: String,
    /// The similarity threshold, written with three decimals.
    pub threshold_rounded: String,
}

/// What an `/embed` command leads to.
#[derive(Debug)]
pub enum EmbedStep {
    /// These lines are shown.
    Say(Vec<String>),
    /// All documents are deleted from the store.
    Purge,
    /// All active corpora are indexed anew.
    Index,
    /// The number of chunks per query is set.
    SetTopK(usize),
    /// The threshold is set where the text is a number that is not negative;
    /// otherwise the usage is shown.
    SetThreshold { value: Option<String>, usage: String },
    /// Another embedder takes over, and the pipeline is looked at.
    Swap(EmbedSpec),
    /// The embedder that was asked for does not exist.
    Refused(String),
}

/// Whether `r` shows exactly these lines.
pub open spec fn says(r: EmbedStep, lines: Seq<Seq<char>>) -> bool {
    r matches EmbedStep::Say(v) && text::texts(v@) =~= lines
}

/// What `/embed` alone shows.
pub open spec fn status_lines(status: EmbedStatus) -> Seq<Seq<char>> {
    seq![
        "Embed: "@ + status.backend@ + " ("@ + status.model@ + ") — top‑k: "@
            + number::decimal(status.top_k as nat) + ", threshold: "@ + status.threshold@,
        "Usage: /embed <backend> [model]  |  purge  |  index  |  topk <N>  |  threshold <F>"@,
        "  index — (re)build the index for the current parser+chunker+embedder pipeline"@,
        "  backends: "@ + text::joined(seq!["ollama"@, "none"@], ", "@),
    ]
}

/// Another embedder, or the refusal of one that does not exist.
pub open spec fn swap_step(
    parsed: Result<backends::EmbedSpecView, Seq<char>>,
    r: EmbedStep,
) -> bool {
    match parsed {
        Ok(s) => r matches EmbedStep::Swap(c) && c@ == s,
        Err(e) => r matches EmbedStep::Refused(m) && m@ == "Embed spec parse error: "@ + e,
    }
}

/// What an `/embed` command leads to.
pub open spec fn embed_step(args: Seq<char>, status: EmbedStatus, r: EmbedStep) -> bool {
    let w = text::words_of(args);
    let backend = text::word_at(w, 0);
    let value = text::word_get(w, 1);
    if backend.len() == 0 {
        says(r, status_lines(status))
    } else if text::same_ignoring_case(backend, "purge"@) {
        r == EmbedStep::Purge
    } else if text::same_ignoring_case(backend, "index"@) {
        r == EmbedStep::Index
    } else if backend == "topk"@ {
        match search::positive(value) {
            Some(n) => r == EmbedStep::SetTopK(n),
            None => says(
                r,
                seq![
                    "Usage: /embed topk <N>  (current: "@ + number::decimal(
                        status.top_k as nat,
                    ) + ")"@,
                ],
            ),
        }
    } else if backend == "threshold"@ {
        r matches EmbedStep::SetThreshold { value: v, usage } && text::opt_text(v) == value
            && usage@ == "Usage: /embed threshold <F>  (current: "@ + status.threshold_rounded@
            + ")"@
    } else {
        swap_step(backends::embed_spec_of(text::lowercase_of(backend), value), r)
    }
}

/// Nothing is indexed anew, and nothing deleted, unless the user asks for it in
/// so many words.
pub proof fn law_indexing_is_asked_for(args: Seq<char>, status: EmbedStatus, r: EmbedStep)
    requires
        embed_step(args, status, r),
    ensures
        r is Index ==> text::same_ignoring_case(
            text::word_at(text::words_of(args), 0),
            "index"@,
        ),
        r is Purge ==> text::same_ignoring_case(
            text::word_at(text::words_of(args), 0),
            "purge"@,
        ),
{
}

/// `/embed` alone shows the embedder, its model and the values in use.
pub proof fn law_the_embedder_is_shown(status: EmbedStatus, r: EmbedStep)
    requires
        embed_step(Seq::empty(), status, r),
    ensures
        r matches EmbedStep::Say(v) && v@.len() == 4 && v@[0]@ == "Embed: "@ + status.backend@
            + " ("@ + status.model@ + ") — top‑k: "@ + number::decimal(status.top_k as nat)
            + ", threshold: "@ + status.threshold@,
{
    text::law_words_are_read_back(Seq::empty());
    assert(text::joined(Seq::<Seq<char>>::empty(), " "@) =~= Seq::<char>::empty());
    if let EmbedStep::Say(v) = r {
        assert(text::texts(v@).len() == v@.len());
        if v@.len() == 4 {
            assert(text::texts(v@)[0] == v@[0]@);
        }
    }
}

/// The words behind `/embed` say what is done: a number or a word behind `topk`
/// and `threshold` is the value, and `purge` and `index` count in any case.
pub proof fn law_embed_words_say_what_is_done(
    n: nat,
    w: Seq<char>,
    status: EmbedStatus,
    r: EmbedStep,
)
    requires
        text::is_word(w),
    ensures
        0 < n <= usize::MAX && embed_step("topk"@ + " "@ + number::decimal(n), status, r) ==> r
            == EmbedStep::SetTopK(n as usize),
        embed_step("topk"@ + " "@ + number::decimal(0), status, r) ==> r is Say,
        number::usize_of(w) is None && embed_step("topk"@ + " "@ + w, status, r) ==> r is Say,
        embed_step("threshold"@ + " "@ + w, status, r) ==> (r matches EmbedStep::SetThreshold {
            value: Some(v),
            ..
        } && v@ == w),
        text::same_ignoring_case(w, "purge"@) && embed_step(w, status, r) ==> r
            == EmbedStep::Purge,
        text::same_ignoring_case(w, "index"@) && embed_step(w, status, r) ==> r
            == EmbedStep::Index,
{
    reveal_strlit("topk");
    reveal_strlit("threshold");
    reveal_strlit("purge");
    reveal_strlit("index");
    let p = text::ascii_lowered("purge"@);
    let x = text::ascii_lowered("index"@);
    assert(p.len() == 5 && x.len() == 5 && p[0] == 'p' && x[0] == 'i');
    assert(text::ascii_lowered("topk"@).len() == 4);
    assert(text::ascii_lowered("threshold"@).len() == 9);
    number::lemma_decimal_is_plain(n);
    number::lemma_decimal_is_plain(0);
    number::law_numbers_are_read_back(n);
    number::law_numbers_are_read_back(0);
    text::lemma_few_words("topk"@, number::decimal(n), Seq::empty());
    text::lemma_few_words("topk"@, number::decimal(0), Seq::empty());
    text::lemma_few_words("topk"@, w, Seq::empty());
    text::lemma_few_words("threshold"@, w, Seq::empty());
    text::lemma_few_words(w, w, Seq::empty());
}

/// The words that are no embedder.
pub open spec fn is_request(word: Seq<char>) -> bool {
    text::same_ignoring_case(word, "purge"@) || text::same_ignoring_case(word, "index"@) || word
        == "topk"@ || word == "threshold"@
}

/// `/embed` with the name of an embedder builds that embedder, with the model that
/// was given or its own; any other name is refused.
pub proof fn law_embedders_are_built_as_named(
    b: Seq<char>,
    m: Seq<char>,
    status: EmbedStatus,
    r: EmbedStep,
)
    requires
        text::is_word(b),
        text::is_word(m),
        !is_request(b),
    ensures
        text::lowercase_of(b) == "ollama"@ && embed_step(b + " "@ + m, status, r) ==> (
        r matches EmbedStep::Swap(s) && s@ == backends::EmbedSpecView::Ollama { model: m }),
        text::lowercase_of(b) == "ollama"@ && embed_step(b, status, r) ==> (
        r matches EmbedStep::Swap(s) && s@ == backends::EmbedSpecView::Ollama {
            model: "nomic-embed-text:latest"@,
        }),
        (text::lowercase_of(b) == "none"@ || text::lowercase_of(b) == "off"@) && embed_step(
            b,
            status,
            r,
        ) ==> (r matches EmbedStep::Swap(s) && s@ == backends::EmbedSpecView::Disabled),
        text::lowercase_of(b) != "ollama"@ && text::lowercase_of(b) != "none"@
            && text::lowercase_of(b) != "off"@ && embed_step(b + " "@ + m, status, r) ==> r is Refused,
{
    reveal_strlit("ollama");
    reveal_strlit("none");
    reveal_strlit("off");
    assert("ollama"@.len() == 6 && "none"@.len() == 4 && "off"@.len() == 3);
    text::lemma_few_words(b, m, Seq::empty());
}

/// Another embedder, or the refusal of one that does not exist.
pub fn swap(parsed: Result<EmbedSpec, String>) -> (r: EmbedStep)
    ensures
        match parsed {
            Ok(s) => swap_step(Ok(s@), r),
            Err(e) => swap_step(Err(e@), r),
        },
{
    match parsed {
        Ok(spec) => EmbedStep::Swap(spec),
        Err(e) => {
            let mut m = "Embed spec parse error: ".to_string();
            m.append(e.as_str());
            EmbedStep::Refused(m)
        },
    }
}

/// `/embed <backend> [model] | purge | index | topk <N> | threshold <F>`.
pub fn cmd_embed(args: &str, status: &EmbedStatus) -> (r: EmbedStep)
    ensures
        embed_step(args@, *status, r),
{
    let w = text::words(args);
    let backend = text::word(&w, 0);
    if backend.as_str().is_empty() {
        let mut m = "Embed: ".to_string();
        m.append(status.backend.as_str());
        m.append(" (");
        m.append(status.model.as_str());
        m.append(") — top‑k: ");
        let n = number::show_usize(status.top_k);
        m.append(n.as_str());
        m.append(", threshold: ");
        m.append(status.threshold.as_str());
        let mut names = "  backends: ".to_string();
        let list = text::join(&backends::embed_backends(), ", ");
        names.append(list.as_str());
        return EmbedStep::Say(
            vec![
                m,
                "Usage: /embed <backend> [model]  |  purge  |  index  |  topk <N>  |  threshold <F>".to_string(),
                "  index — (re)build the index for the current parser+chunker+embedder pipeline".to_string(),
                names,
            ],
        );
    }
    if text::eq_ignore_ascii_case(backend.as_str(), "purge") {
        return EmbedStep::Purge;
    }
    if text::eq_ignore_ascii_case(backend.as_str(), "index") {
        return EmbedStep::Index;
    }
    let value = text::word_opt(&w, 1);
    if text::same(backend.as_str(), "topk") {
        return match search::read_positive(&value) {
            Some(n) => EmbedStep::SetTopK(n),
            None => {
                let mut m = "Usage: /embed topk <N>  (current: ".to_string();
                let n = number::show_usize(status.top_k);
                m.append(n.as_str());
                m.append(")");
                EmbedStep::Say(vec![m])
            },
        };
    }
    if text::same(backend.as_str(), "threshold") {
        let mut usage = "Usage: /embed threshold <F>  (current: ".to_string();
        usage.append(status.threshold_rounded.as_str());
        usage.append(")");
        return EmbedStep::SetThreshold { value, usage };
    }
    let parsed = backends::parse_embed_spec(backend.as_str(), text::as_opt_str(&value));
    swap(parsed)
}

/// What a `/chunker` command leads to.
#[derive(Debug)]
pub enum ChunkerStep {
    /// These lines are shown.
    Say(Vec<String>),
    /// The chunking strategy at that position of the list of strategies takes
    /// over, and the pipeline is looked at.
    Swap { index: usize, name: String },
}

/// The position of the first name that equals `name` up to case, or the number
/// of names where there is none.
pub open spec fn index_ignoring_case(names: Seq<Seq<char>>, name: Seq<char>) -> int
    decreases names.len(),
{
    if names.len() == 0 || text::same_ignoring_case(names[0], name) {
        0
    } else {
        1 + index_ignoring_case(names.drop_first(), name)
    }
}

/// What a `/chunker` command leads to.
pub open spec fn chunker_step(args: Seq<char>, current: Seq<char>, r: ChunkerStep) -> bool {
    let name = text::trimmed(args);
    let names = backends::chunker_list();
    let list = text::joined(names, ", "@);
    let i = index_ignoring_case(names, name);
    if name.len() == 0 {
        r matches ChunkerStep::Say(v) && text::texts(v@) =~= seq![
            "Chunker: "@ + current,
            "Available: "@ + list,
            "Usage: /chunker <name>"@,
        ]
    } else if i < names.len() {
        r matches ChunkerStep::Swap { index, name: n } && index == i && n@ == names[i]
    } else {
        r matches ChunkerStep::Say(v) && text::texts(v@) =~= seq![
            "Unknown chunker: '"@ + name + "'. Available: "@ + list,
        ]
    }
}

/// A strategy is selected exactly where one has that name up to case: the first
/// one that has, under the position and the name that the list gives it.
pub proof fn law_chunkers_are_selected_by_name(
    name: Seq<char>,
    current: Seq<char>,
    r: ChunkerStep,
)
    requires
        text::is_tight(name),
        chunker_step(name, current, r),
    ensures
        match r {
            ChunkerStep::Swap { index, name: n } => index < backends::chunker_list().len() && n@
                == backends::chunker_list()[index as int] && text::same_ignoring_case(n@, name) && (
            forall|i: int|
                0 <= i < index ==> !text::same_ignoring_case(
                    #[trigger] backends::chunker_list()[i],
                    name,
                )),
            ChunkerStep::Say(_) => forall|i: int|
                0 <= i < backends::chunker_list().len() ==> !text::same_ignoring_case(
                    #[trigger] backends::chunker_list()[i],
                    name,
                ),
        },
{
    text::lemma_tight_is_trimmed(name);
    lemma_index_ignoring_case(backends::chunker_list(), name);
}

/// White space around the name of a strategy does not matter; without a name the
/// one in use is shown.
pub proof fn law_space_around_a_chunker_is_ignored(
    a: Seq<char>,
    name: Seq<char>,
    b: Seq<char>,
    current: Seq<char>,
    r: ChunkerStep,
)
    requires
        text::is_blank(a),
        text::is_blank(b),
        text::is_tight(name),
    ensures
        chunker_step(a + name + b, current, r) <==> chunker_step(name, current, r),
        chunker_step(Seq::empty(), current, r) ==> (r matches ChunkerStep::Say(v) && v@.len() == 3
            && v@[0]@ == "Chunker: "@ + current),
{
    text::law_trimming_removes_what_surrounds(a, name, b);
    text::lemma_tight_is_trimmed(name);
    assert(text::trimmed(Seq::<char>::empty()) =~= Seq::<char>::empty());
    if let ChunkerStep::Say(v) = r {
        assert(text::texts(v@).len() == v@.len());
        if v@.len() == 3 {
            assert(text::texts(v@)[0] == v@[0]@);
        }
    }
}

proof fn lemma_index_ignoring_case(names: Seq<Seq<char>>, name: Seq<char>)
    ensures
        0 <= index_ignoring_case(names, name) <= names.len(),
        index_ignoring_case(names, name) < names.len() ==> text::same_ignoring_case(
            names[index_ignoring_case(names, name)],
            name,
        ),
        forall|i: int|
            0 <= i < index_ignoring_case(names, name) ==> !text::same_ignoring_case(
                #[trigger] names[i],
                name,
            ),
    decreases names.len(),
{
    if names.len() > 0 && !text::same_ignoring_case(names[0], name) {
        let rest = names.drop_first();
        lemma_index_ignoring_case(rest, name);
        let k = index_ignoring_case(rest, name);
        if k < rest.len() {
            assert(rest[k] == names[k + 1]);
        }
        assert forall|i: int| 0 <= i < k + 1 implies !text::same_ignoring_case(
            #[trigger] names[i],
            name,
        ) by {
            if i > 0 {
                assert(rest[i - 1] == names[i]);
            }
        }
    }
}

/// `/chunker [name]`: shows the chunking strategies or selects one.
pub fn cmd_chunker(args: &str, current: &str) -> (r: ChunkerStep)
    ensures
        chunker_step(args@, current@, r),
{
    let available = backends::chunker_names();
    let ghost names = text::texts(available@);
    let list = text::join(&available, ", ");
    let name = text::trim(args);
    if name.as_str().is_empty() {
        let mut a = "Chunker: ".to_string();
        a.append(current);
        let mut b = "Available: ".to_string();
        b.append(list.as_str());
        return ChunkerStep::Say(vec![a, b, "Usage: /chunker <name>".to_string()]);
    }
    let mut i: usize = 0;
    assert(names.skip(0) =~= names);
    while i < available.len()
        invariant
            i <= available@.len(),
            names == text::texts(available@),
            names == backends::chunker_list(),
            name@ == text::trimmed(args@),
            name@.len() > 0,
            index_ignoring_case(names, name@) == i + index_ignoring_case(
                names.skip(i as int),
                name@,
            ),
        decreases available@.len() - i,
    {
        assert(names.skip(i as int)[0] == available@[i as int]@);
        if text::eq_ignore_ascii_case(available[i].as_str(), name.as_str()) {
            return ChunkerStep::Swap { index: i, name: available[i].clone() };
        }
        assert(names.skip(i as int).drop_first() =~= names.skip(i + 1));
        i += 1;
    }
    let mut m = "Unknown chunker: '".to_string();
    m.append(name.as_str());
    m.append("'. Available: ");
    m.append(list.as_str());
    ChunkerStep::Say(vec![m])
}

} // verus!
