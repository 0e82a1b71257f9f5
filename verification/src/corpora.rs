//! The corpora of a session: `/corpus` switches them on and off, and documents
//! from the web join them.

use vstd::prelude::*;

use crate::corpus;
use crate::corpus::CorpusEntry;
use crate::corpus::CorpusKind;
use crate::corpus::EntryView;
use crate::corpus::KindView;
use crate::corpus::RouteView;
use crate::corpus::WebRoute;
use crate::number;
use crate::text;

verus! {

/// The corpora of a session.
#[derive(Debug)]
pub struct Corpora {
    pub entries: Vec<CorpusEntry>,
    /// Whether documents from the web join an active corpus instead of the
    /// main folder.
    pub dynamic: bool,
}

/// The mathematical value of [`Corpora`].
pub struct CorporaView {
    pub entries: Seq<EntryView>,
    pub dynamic: bool,
}

impl View for Corpora {
    type V = CorporaView;

    open spec fn view(&self) -> CorporaView {
        CorporaView { entries: corpus::entries(self.entries@), dynamic: self.dynamic }
    }
}

impl CorporaView {
    /// No two corpora have the same name, and each stores its documents under
    /// its own name.
    pub open spec fn wf(self) -> bool {
        corpus::names_are_unique(self.entries) && corpus::names_agree(self.entries)
    }
}

/// What a `/corpus` command leads to.
#[derive(Debug)]
pub enum CorpusStep {
    /// These lines are shown.
    Say(Vec<String>),
    /// The notice is shown and the corpus at that position indexed.
    Sync { index: usize, notice: String },
    /// The chunks of the corpus are removed from the store.
    Remove { name: String },
    /// The command fails.
    Fail(String),
}

/// Where a document from the web goes, with what it takes to put it there.
#[derive(Debug)]
pub enum IngestStep {
    /// The address was added to the address corpus at that position, which is
    /// indexed.
    SyncUrls { index: usize, name: String },
    /// The document is saved into the folder of the directory corpus at that
    /// position, which is indexed.
    SaveInto { index: usize, name: String, folder: String },
    /// The document goes to the main folder; the note is shown before.
    MainFolder { note: Option<String> },
    /// The corpus that was chosen is of another kind.
    Fail(String),
}

/// Whether `r` shows exactly these lines.
pub open spec fn says(r: CorpusStep, lines: Seq<Seq<char>>) -> bool {
    r matches CorpusStep::Say(v) && text::texts(v@) =~= lines
}

/// The word for a state.
pub open spec fn on_off(active: bool) -> Seq<char> {
    if active {
        "on"@
    } else {
        "off"@
    }
}

/// One row of the list of corpora.
pub open spec fn row(name: Seq<char>, label: Seq<char>, active: bool) -> Seq<char> {
    "  "@ + text::padded_end(name, 16) + " ("@ + text::padded_end(label, 4) + ") "@ + on_off(active)
}

/// The list of corpora.
pub open spec fn list_lines(c: CorporaView) -> Seq<Seq<char>> {
    let named = if c.entries.len() == 0 {
        seq![
            "No named corpora configured. Use --corpus-dir NAME=DIR or --corpus-urls NAME=URL."@,
        ]
    } else {
        seq!["Document corpora:"@] + Seq::new(
            c.entries.len(),
            |i: int| row(c.entries[i].name, c.entries[i].kind.label(), c.entries[i].active),
        )
    };
    named + seq![
        row("dyn"@, "route"@, c.dynamic),
        "Usage: /corpus <name> on|off   (or /corpus to list)"@,
    ]
}

/// The corpora with the one at a position switched on or off.
pub open spec fn with_active(es: Seq<EntryView>, i: int, active: bool) -> Seq<EntryView> {
    es.update(i, EntryView { active, ..es[i] })
}

/// What is said of a corpus that does not exist.
pub open spec fn unknown(name: Seq<char>) -> Seq<char> {
    "Unknown corpus '"@ + name + "'. Run /corpus to list corpora."@
}

/// What `/corpus <name> on` leads to: the corpus is indexed, and switched on
/// when that succeeded.
pub open spec fn on_step(before: CorporaView, after: CorporaView, name: Seq<char>, r: CorpusStep) -> bool {
    let i = corpus::position(before.entries, name);
    after == before && (if i < before.entries.len() {
        let e = before.entries[i];
        r matches CorpusStep::Sync { index, notice } && index == i && notice@ == (if e.active {
            "Corpus '"@ + name + "' is already on — syncing for changes."@
        } else {
            "Indexing corpus '"@ + name + "' ("@ + e.kind.label() + ")..."@
        })
    } else {
        r matches CorpusStep::Fail(m) && m@ == unknown(name)
    })
}

/// What `/corpus <name> off` leads to: the corpus is switched off at once, and
/// its chunks are removed.
pub open spec fn off_step(
    before: CorporaView,
    after: CorporaView,
    name: Seq<char>,
    r: CorpusStep,
) -> bool {
    let i = corpus::position(before.entries, name);
    if i >= before.entries.len() {
        after == before && (r matches CorpusStep::Fail(m) && m@ == unknown(name))
    } else if !before.entries[i].active {
        after == before && says(r, seq!["Corpus '"@ + name + "' is already off."@])
    } else {
        after.entries =~= with_active(before.entries, i, false) && after.dynamic == before.dynamic
            && (r matches CorpusStep::Remove { name: n } && n@ == name)
    }
}

/// What `/corpus dyn [on|off]` leads to.
pub open spec fn dyn_step(
    before: CorporaView,
    after: CorporaView,
    arg: Option<Seq<char>>,
    r: CorpusStep,
) -> bool {
    match arg {
        None => after == before && says(
            r,
            seq![
                "Dynamic routing (dyn) is "@ + on_off(before.dynamic)
                    + ": /download and /get route into the first active URL corpus, else the first active directory corpus."@,
            ],
        ),
        Some(a) => if a == "on"@ {
            after == (CorporaView { dynamic: true, ..before }) && says(
                r,
                seq![
                    "Dynamic routing is on — web downloads go to the first active URL corpus (else the first active directory corpus)."@,
                ],
            )
        } else if a == "off"@ {
            after == (CorporaView { dynamic: false, ..before }) && says(
                r,
                seq!["Dynamic routing is off — web downloads go to the main folder."@],
            )
        } else {
            after == before && says(r, seq!["Usage: /corpus dyn on|off (got '"@ + a + "')"@])
        },
    }
}

/// What a `/corpus` command leads to.
pub open spec fn corpus_step(
    before: CorporaView,
    after: CorporaView,
    args: Seq<char>,
    r: CorpusStep,
) -> bool {
    let w = text::words_of(args);
    let name = text::word_at(w, 0);
    let arg = text::word_get(w, 1);
    if w.len() == 0 {
        after == before && says(r, list_lines(before))
    } else if name == "dyn"@ {
        dyn_step(before, after, arg, r)
    } else {
        match arg {
            None => after == before && ({
                let i = corpus::position(before.entries, name);
                if i < before.entries.len() {
                    let e = before.entries[i];
                    says(
                        r,
                        seq![
                            "Corpus '"@ + e.name + "' ("@ + e.kind.label() + ") is "@ + on_off(
                                e.active,
                            ),
                        ],
                    )
                } else {
                    says(r, seq![unknown(name)])
                }
            }),
            Some(a) => if a == "on"@ {
                on_step(before, after, name, r)
            } else if a == "off"@ {
                off_step(before, after, name, r)
            } else {
                after == before && says(
                    r,
                    seq!["Usage: /corpus <name> on|off (got '"@ + a + "')"@],
                )
            },
        }
    }
}

/// What the ingestion of an address starts with.
pub open spec fn ingest_step(
    before: CorporaView,
    after: CorporaView,
    url: Seq<char>,
    r: IngestStep,
) -> bool {
    match corpus::web_route(before.dynamic, before.entries) {
        RouteView::Url { name } => {
            let i = corpus::position(before.entries, name);
            match before.entries[i].kind {
                KindView::Urls { .. } => after.entries =~= before.entries.update(
                    i,
                    corpus::with_url(before.entries[i], url),
                ) && after.dynamic == before.dynamic && (r matches IngestStep::SyncUrls {
                    index,
                    name: n,
                } && index == i && n@ == name),
                KindView::Dir { .. } => after == before && (r matches IngestStep::Fail(m) && m@
                    == "internal: web route chose a URL corpus, got directory '"@ + name + "'"@),
            }
        },
        RouteView::Dir { name } => {
            let i = corpus::position(before.entries, name);
            match before.entries[i].kind {
                KindView::Dir { folder, .. } => after == before && (r matches IngestStep::SaveInto {
                    index,
                    name: n,
                    folder: f,
                } && index == i && n@ == name && f@ == folder),
                KindView::Urls { .. } => after == before && (r matches IngestStep::Fail(m) && m@
                    == "internal: web route chose a directory corpus, got URLs '"@ + name
                    + "'"@),
            }
        },
        RouteView::Folder => after == before && (r matches IngestStep::MainFolder { note }
            && text::opt_text(note) == (if before.dynamic && before.entries.len() > 0 {
            Some("Note: no active named corpora — adding to the main folder."@)
        } else {
            None
        })),
    }
}

/// Whether two lists hold the same corpora, apart from their states.
pub open spec fn same_corpora(a: Seq<EntryView>, b: Seq<EntryView>) -> bool {
    a.len() == b.len() && (forall|i: int|
        0 <= i < a.len() ==> (#[trigger] a[i]).name == b[i].name && a[i].kind == b[i].kind)
}

/// A `/corpus` command changes no corpus but for its state.
pub proof fn law_commands_keep_the_corpora(
    before: CorporaView,
    after: CorporaView,
    args: Seq<char>,
    r: CorpusStep,
)
    requires
        corpus_step(before, after, args, r),
    ensures
        same_corpora(before.entries, after.entries),
        before.wf() ==> after.wf(),
{
    let name = text::word_at(text::words_of(args), 0);
    corpus::lemma_position(before.entries, name);
    lemma_same_corpora_stay_valid(before, after);
}

/// Corpora that differ in their states alone are as valid as before.
proof fn lemma_same_corpora_stay_valid(before: CorporaView, after: CorporaView)
    requires
        same_corpora(before.entries, after.entries),
    ensures
        before.wf() ==> after.wf(),
{
    if before.wf() {
        assert forall|j: int, k: int| 0 <= j < k < after.entries.len() implies #[trigger] after.entries[j].name
            != #[trigger] after.entries[k].name by {
            assert(before.entries[j].name != before.entries[k].name);
        }
        assert forall|j: int| 0 <= j < after.entries.len() implies (
        #[trigger] after.entries[j]).kind.name() == after.entries[j].name by {
            assert(before.entries[j].kind.name() == before.entries[j].name);
        }
    }
}

/// A corpus that is switched off and on again is what it was.
pub proof fn law_off_and_on_restores(es: Seq<EntryView>, i: int)
    requires
        0 <= i < es.len(),
        es[i].active,
    ensures
        with_active(with_active(es, i, false), i, true) == es,
{
    assert(with_active(with_active(es, i, false), i, true) =~= es);
}

/// In valid corpora the ingestion of an address never fails because of the kind
/// of the corpus that was chosen, and it keeps them valid.
pub proof fn law_ingestion_finds_its_corpus(
    before: CorporaView,
    after: CorporaView,
    url: Seq<char>,
    r: IngestStep,
)
    requires
        before.wf(),
        ingest_step(before, after, url, r),
    ensures
        !(r is Fail),
        after.wf(),
{
    corpus::law_route_leads_to_an_active_corpus(before.entries, before.dynamic);
    assert forall|j: int, k: int| 0 <= j < k < after.entries.len() implies #[trigger] after.entries[j].name
        != #[trigger] after.entries[k].name by {
        assert(before.entries[j].name != before.entries[k].name);
    }
    assert forall|j: int| 0 <= j < after.entries.len() implies (
    #[trigger] after.entries[j]).kind.name() == after.entries[j].name by {
        assert(before.entries[j].kind.name() == before.entries[j].name);
    }
}

/// A corpus that is off never gets a document from the web.
pub proof fn law_switched_off_corpora_get_nothing(
    before: CorporaView,
    after: CorporaView,
    url: Seq<char>,
    r: IngestStep,
)
    requires
        before.wf(),
        ingest_step(before, after, url, r),
    ensures
        match r {
            IngestStep::SyncUrls { index, .. } => before.entries[index as int].active,
            IngestStep::SaveInto { index, .. } => before.entries[index as int].active,
            _ => true,
        },
{
    corpus::law_route_leads_to_an_active_corpus(before.entries, before.dynamic);
}

/// The addresses of a corpus, none where it is a directory.
pub open spec fn addresses(e: EntryView) -> Seq<Seq<char>> {
    match e.kind {
        KindView::Urls { urls, .. } => urls,
        KindView::Dir { .. } => Seq::empty(),
    }
}

/// An address that is ingested joins the list of its corpus: every address that
/// was there is still there, at its position, and the new one stands behind them.
/// Name and state of the corpus stay, and so does every other corpus.
pub proof fn law_ingested_addresses_join_the_list(
    before: CorporaView,
    after: CorporaView,
    url: Seq<char>,
    r: IngestStep,
)
    requires
        before.wf(),
        ingest_step(before, after, url, r),
    ensures
        after.dynamic == before.dynamic,
        after.entries.len() == before.entries.len(),
        r matches IngestStep::SyncUrls { index, name } ==> {
            let i = index as int;
            let was = before.entries[i];
            let is = after.entries[i];
            &&& 0 <= i < before.entries.len()
            &&& is.name == was.name && is.active == was.active && name@ == was.name
            &&& is.kind is Urls && is.kind.name() == was.kind.name()
            &&& addresses(is).len() == addresses(was).len() + 1
            &&& forall|k: int|
                0 <= k < addresses(was).len() ==> #[trigger] addresses(is)[k] == addresses(was)[k]
            &&& addresses(is)[addresses(was).len() as int] == url
            &&& forall|k: int|
                0 <= k < before.entries.len() && k != i ==> #[trigger] after.entries[k]
                    == before.entries[k]
        },
        !(r is SyncUrls) ==> after.entries == before.entries,
{
    law_ingestion_finds_its_corpus(before, after, url, r);
    corpus::law_route_leads_to_an_active_corpus(before.entries, before.dynamic);
    if let RouteView::Url { name } = corpus::web_route(before.dynamic, before.entries) {
        corpus::lemma_position(before.entries, name);
    }
}

/// A document from the web goes to the first active address corpus; where there
/// is none, into the folder of the first active directory corpus; where there is
/// none either, or without dynamic routing, to the main folder.
pub proof fn law_documents_go_to_the_first_active_corpus(
    before: CorporaView,
    after: CorporaView,
    url: Seq<char>,
    r: IngestStep,
)
    requires
        before.wf(),
        ingest_step(before, after, url, r),
    ensures
        match r {
            IngestStep::SyncUrls { index, .. } => {
                &&& before.dynamic
                &&& index < before.entries.len()
                &&& before.entries[index as int].active
                &&& before.entries[index as int].kind is Urls
                &&& forall|k: int|
                    0 <= k < index ==> !((#[trigger] before.entries[k]).active
                        && before.entries[k].kind is Urls)
            },
            IngestStep::SaveInto { index, name, folder } => {
                &&& before.dynamic
                &&& index < before.entries.len()
                &&& before.entries[index as int].active
                &&& before.entries[index as int].name == name@
                &&& before.entries[index as int].kind == (KindView::Dir {
                    name: name@,
                    folder: folder@,
                })
                &&& forall|k: int|
                    0 <= k < before.entries.len() ==> !((#[trigger] before.entries[k]).active
                        && before.entries[k].kind is Urls)
                &&& forall|k: int| 0 <= k < index ==> !(#[trigger] before.entries[k]).active
            },
            IngestStep::MainFolder { note } => {
                &&& before.dynamic ==> (forall|k: int|
                    0 <= k < before.entries.len() ==> !(#[trigger] before.entries[k]).active)
                &&& note is Some <==> before.dynamic && before.entries.len() > 0
            },
            IngestStep::Fail(_) => false,
        },
{
    let es = before.entries;
    law_ingestion_finds_its_corpus(before, after, url, r);
    corpus::law_route_leads_to_an_active_corpus(es, before.dynamic);
    corpus::lemma_first_active(es, true);
    corpus::lemma_first_active(es, false);
    let u = corpus::first_active(es, true);
    let d = corpus::first_active(es, false);
    if u < es.len() {
        corpus::lemma_position(es, es[u].name);
        let p = corpus::position(es, es[u].name);
        if p != u {
            assert(es[p].name == es[u].name);
        }
    } else {
        assert forall|k: int| 0 <= k < es.len() implies !((#[trigger] es[k]).active
            && es[k].kind is Urls) by {
            assert(0 <= k < u);
        }
        if d < es.len() {
            corpus::lemma_position(es, es[d].name);
            let p = corpus::position(es, es[d].name);
            if p != d {
                assert(es[p].name == es[d].name);
            }
            assert(es[d].kind.name() == es[d].name);
            assert forall|k: int| 0 <= k < d implies !(#[trigger] es[k]).active by {
                assert(0 <= k < d && 0 <= k < u);
            }
        } else {
            assert forall|k: int| 0 <= k < es.len() implies !(#[trigger] es[k]).active by {
                assert(0 <= k < d && 0 <= k < u);
            }
        }
    }
}

proof fn lemma_state_words()
    ensures
        text::is_word("on"@),
        text::is_word("off"@),
        text::is_word("dyn"@),
        "on"@ != "off"@,
{
    reveal_strlit("on");
    reveal_strlit("off");
    reveal_strlit("dyn");
    assert("on"@.len() != "off"@.len());
}

/// Switching a corpus off changes the state of that corpus alone, and its chunks
/// are removed; switching it on leads to the indexing of that corpus and changes
/// nothing yet. A name that no corpus has is refused.
pub proof fn law_switching_is_for_the_named_corpus(
    before: CorporaView,
    after: CorporaView,
    name: Seq<char>,
    r: CorpusStep,
    i: int,
)
    requires
        before.wf(),
        text::is_word(name),
        name != "dyn"@,
    ensures
        corpus_step(before, after, name + " "@ + "off"@, r) && 0 <= i < before.entries.len()
            && before.entries[i].name == name ==> {
            &&& after.dynamic == before.dynamic
            &&& after.entries.len() == before.entries.len()
            &&& after.entries[i].name == name
            &&& after.entries[i].kind == before.entries[i].kind
            &&& !after.entries[i].active
            &&& before.entries[i].active ==> (r matches CorpusStep::Remove { name: n } && n@ == name)
            &&& !before.entries[i].active ==> r is Say
            &&& forall|k: int|
                0 <= k < before.entries.len() && k != i ==> #[trigger] after.entries[k]
                    == before.entries[k]
        },
        corpus_step(before, after, name + " "@ + "on"@, r) && 0 <= i < before.entries.len()
            && before.entries[i].name == name ==> after == before && (r matches CorpusStep::Sync {
            index,
            ..
        } && index == i),
        (corpus_step(before, after, name + " "@ + "on"@, r) || corpus_step(
            before,
            after,
            name + " "@ + "off"@,
            r,
        )) && !corpus::has_name(before.entries, name) ==> after == before && r is Fail,
{
    lemma_state_words();
    text::lemma_few_words(name, "on"@, Seq::empty());
    text::lemma_few_words(name, "off"@, Seq::empty());
    corpus::lemma_position(before.entries, name);
    let p = corpus::position(before.entries, name);
    if 0 <= i < before.entries.len() && before.entries[i].name == name && p != i {
        assert(before.entries[p].name == name);
    }
}

/// `/corpus dyn on` and `/corpus dyn off` switch dynamic routing and nothing else;
/// `/corpus dyn` and `/corpus <name>` change nothing.
pub proof fn law_dynamic_routing_is_switched_as_asked(
    before: CorporaView,
    after: CorporaView,
    name: Seq<char>,
    r: CorpusStep,
)
    requires
        text::is_word(name),
    ensures
        corpus_step(before, after, "dyn"@ + " "@ + "on"@, r) ==> after.dynamic && after.entries
            == before.entries,
        corpus_step(before, after, "dyn"@ + " "@ + "off"@, r) ==> !after.dynamic && after.entries
            == before.entries,
        corpus_step(before, after, name, r) ==> after == before && r is Say,
        corpus_step(before, after, Seq::empty(), r) ==> after == before && r is Say,
        corpus_step(before, after, Seq::empty(), r) ==> (r matches CorpusStep::Say(v)
            && text::texts(v@) == list_lines(before)),
{
    lemma_state_words();
    text::lemma_few_words("dyn"@, "on"@, Seq::empty());
    text::lemma_few_words("dyn"@, "off"@, Seq::empty());
    text::lemma_few_words(name, name, Seq::empty());
    text::law_words_are_read_back(Seq::empty());
    assert(text::joined(Seq::<Seq<char>>::empty(), " "@) =~= Seq::<char>::empty());
}

/// `/corpus` with a name tells the kind and the state of the corpus that has it;
/// `/corpus dyn` tells whether documents are routed; switching a corpus on says
/// whether it was on already.
pub proof fn law_the_state_of_a_corpus_is_told(
    before: CorporaView,
    after: CorporaView,
    name: Seq<char>,
    r: CorpusStep,
    i: int,
)
    requires
        before.wf(),
        text::is_word(name),
        name != "dyn"@,
        0 <= i < before.entries.len(),
        before.entries[i].name == name,
    ensures
        corpus_step(before, after, name, r) ==> (r matches CorpusStep::Say(v) && v@.len() == 1
            && v@[0]@ == "Corpus '"@ + name + "' ("@ + (if before.entries[i].kind is Dir {
            "dir"@
        } else {
            "urls"@
        }) + ") is "@ + (if before.entries[i].active {
            "on"@
        } else {
            "off"@
        })),
        corpus_step(before, after, "dyn"@, r) ==> (r matches CorpusStep::Say(v) && v@.len() == 1 && (
        "Dynamic routing (dyn) is "@ + (if before.dynamic {
            "on"@
        } else {
            "off"@
        })).is_prefix_of(v@[0]@)),
        corpus_step(before, after, name + " "@ + "on"@, r) && before.entries[i].active ==> (
        r matches CorpusStep::Sync { notice, .. } && notice@ == "Corpus '"@ + name
            + "' is already on — syncing for changes."@),
        corpus_step(before, after, name + " "@ + "on"@, r) && !before.entries[i].active ==> (
        r matches CorpusStep::Sync { notice, .. } && notice@ == "Indexing corpus '"@ + name + "' ("@
            + (if before.entries[i].kind is Dir {
            "dir"@
        } else {
            "urls"@
        }) + ")..."@),
{
    lemma_state_words();
    text::lemma_few_words(name, "on"@, Seq::empty());
    text::lemma_few_words("dyn"@, "on"@, Seq::empty());
    corpus::lemma_position(before.entries, name);
    let p = corpus::position(before.entries, name);
    if p != i {
        assert(before.entries[p].name == name);
    }
    if let CorpusStep::Say(v) = r {
        assert(text::texts(v@).len() == v@.len());
        if v@.len() == 1 {
            assert(text::texts(v@)[0] == v@[0]@);
        }
        if corpus_step(before, after, "dyn"@, r) {
            let start = "Dynamic routing (dyn) is "@ + on_off(before.dynamic);
            assert(v@[0]@.subrange(0, start.len() as int) =~= start);
        }
    }
}

/// The list of corpora has a row for each corpus, in their order, and each row
/// ends with the state of its corpus and begins with its name.
pub proof fn law_every_corpus_is_listed(c: CorporaView, i: int)
    requires
        0 <= i < c.entries.len(),
    ensures
        list_lines(c).len() == c.entries.len() + 3,
        ("  "@ + c.entries[i].name).is_prefix_of(list_lines(c)[i + 1]),
        ({
            let line = list_lines(c)[i + 1];
            let state = if c.entries[i].active {
                ") on"@
            } else {
                ") off"@
            };
            line.len() >= state.len() && line.skip(line.len() - state.len()) == state
        }),
        list_lines(c)[(c.entries.len() + 1) as int] == "  "@ + text::padded_end("dyn"@, 16) + " ("@
            + text::padded_end("route"@, 4) + ") "@ + if c.dynamic {
            "on"@
        } else {
            "off"@
        },
{
    let e = c.entries[i];
    let line = list_lines(c)[i + 1];
    assert(line == row(e.name, e.kind.label(), e.active));
    text::law_padding_adds_blanks_alone(e.name, 16);
    let padded = text::padded_end(e.name, 16);
    let start = "  "@ + e.name;
    assert(padded.take(e.name.len() as int) =~= e.name);
    assert(line.subrange(0, start.len() as int) =~= start) by {
        assert forall|k: int| 0 <= k < start.len() implies line[k] == start[k] by {
            if k >= "  "@.len() {
                assert(padded[k - "  "@.len()] == padded.take(e.name.len() as int)[k
                    - "  "@.len()]);
            }
        }
    }
    reveal_strlit(") ");
    reveal_strlit("on");
    reveal_strlit("off");
    reveal_strlit(") on");
    reveal_strlit(") off");
    let state = if e.active {
        ") on"@
    } else {
        ") off"@
    };
    assert(") "@ + on_off(e.active) =~= state);
    let front = "  "@ + padded + " ("@ + text::padded_end(e.kind.label(), 4);
    assert(line =~= front + (") "@ + on_off(e.active)));
    assert(line.skip(line.len() - state.len()) =~= state);
}

/// The word for a state.
fn show_state(active: bool) -> (r: &'static str)
    ensures
        r@ == on_off(active),
{
    if active {
        "on"
    } else {
        "off"
    }
}

/// One row of the list of corpora.
fn show_row(name: &str, label: &str, active: bool) -> (r: String)
    ensures
        r@ == row(name@, label@, active),
{
    let mut m = "  ".to_string();
    let n = text::pad_end(name, 16);
    m.append(n.as_str());
    m.append(" (");
    let l = text::pad_end(label, 4);
    m.append(l.as_str());
    m.append(") ");
    m.append(show_state(active));
    m
}

/// What is said of a corpus that does not exist.
fn say_unknown(name: &str) -> (r: String)
    ensures
        r@ == unknown(name@),
{
    let mut m = "Unknown corpus '".to_string();
    m.append(name);
    m.append("'. Run /corpus to list corpora.");
    m
}

/// The positions of the active corpora.
pub open spec fn active_positions(es: Seq<EntryView>) -> Seq<usize>
    decreases es.len(),
{
    if es.len() == 0 {
        Seq::empty()
    } else {
        let before = active_positions(es.drop_last());
        if es.last().active {
            before.push((es.len() - 1) as usize)
        } else {
            before
        }
    }
}

/// Exactly the active corpora are indexed.
pub proof fn law_active_positions_are_the_active_corpora(es: Seq<EntryView>, i: usize)
    requires
        es.len() <= usize::MAX,
    ensures
        active_positions(es).contains(i) <==> i < es.len() && es[i as int].active,
    decreases es.len(),
{
    if es.len() > 0 {
        let before = es.drop_last();
        law_active_positions_are_the_active_corpora(before, i);
        let a = active_positions(before);
        let b = active_positions(es);
        if a.contains(i) {
            let k = choose|k: int| 0 <= k < a.len() && a[k] == i;
            assert(b[k] == i);
        }
        if i == es.len() - 1 && es.last().active {
            assert(b.last() == i);
        }
        if b.contains(i) && i != es.len() - 1 {
            let k = choose|k: int| 0 <= k < b.len() && b[k] == i;
            assert(a[k] == i);
        }
    }
}

/// The active corpora come in their order, each of them once.
pub proof fn law_active_positions_ascend(es: Seq<EntryView>, i: int, j: int)
    requires
        es.len() <= usize::MAX,
        0 <= i < j < active_positions(es).len(),
    ensures
        active_positions(es)[i] < active_positions(es)[j] < es.len(),
    decreases es.len(),
{
    let before = es.drop_last();
    let a = active_positions(before);
    if j < a.len() {
        law_active_positions_ascend(before, i, j);
    } else {
        assert(a.contains(a[i]));
        law_active_positions_are_the_active_corpora(before, a[i]);
    }
}

/// The corpora of a session that begins.
pub open spec fn at_first(entries: Seq<EntryView>) -> CorporaView {
    CorporaView { entries, dynamic: true }
}

/// The corpora once the one at that position was indexed.
pub open spec fn after_sync(c: CorporaView, index: int) -> CorporaView {
    CorporaView { entries: with_active(c.entries, index, true), ..c }
}

/// A session begins with its corpora as they were given, and documents are routed
/// among them.
pub proof fn law_routing_is_dynamic_at_first(
    entries: Seq<EntryView>,
    after: CorporaView,
    url: Seq<char>,
    r: IngestStep,
    k: int,
)
    requires
        at_first(entries).wf(),
        ingest_step(at_first(entries), after, url, r),
        0 <= k < entries.len(),
        entries[k].active,
    ensures
        at_first(entries).entries == entries,
        at_first(entries).dynamic,
        !(r is MainFolder),
{
    law_documents_go_to_the_first_active_corpus(at_first(entries), after, url, r);
    assert(at_first(entries).entries[k].active);
}

/// A corpus that was indexed is on; nothing else about it changes, and nothing
/// about the other corpora.
pub proof fn law_an_indexed_corpus_is_on(c: CorporaView, index: int)
    requires
        0 <= index < c.entries.len(),
    ensures
        after_sync(c, index).dynamic == c.dynamic,
        after_sync(c, index).entries.len() == c.entries.len(),
        after_sync(c, index).entries[index].active,
        after_sync(c, index).entries[index].name == c.entries[index].name,
        after_sync(c, index).entries[index].kind == c.entries[index].kind,
        forall|k: int|
            0 <= k < c.entries.len() && k != index ==> #[trigger] after_sync(c, index).entries[k]
                == c.entries[k],
{
}

impl Corpora {
    /// The corpora of a session that begins, with dynamic routing.
    pub fn new(entries: Vec<CorpusEntry>) -> (r: Corpora)
        ensures
            r@ == at_first(corpus::entries(entries@)),
    {
        Corpora { entries, dynamic: true }
    }

    /// The positions of the active corpora, which are the ones to index.
    pub fn active(&self) -> (r: Vec<usize>)
        ensures
            r@ == active_positions(self@.entries),
    {
        let ghost es = self@.entries;
        let mut out: Vec<usize> = Vec::new();
        let mut i: usize = 0;
        assert(es.take(0) =~= Seq::<EntryView>::empty());
        while i < self.entries.len()
            invariant
                i <= self.entries@.len(),
                es == self@.entries,
                out@ == active_positions(es.take(i as int)),
            decreases self.entries@.len() - i,
        {
            assert(es.take(i + 1).drop_last() =~= es.take(i as int));
            assert(es.take(i + 1).last() == self.entries@[i as int]@);
            if self.entries[i].active {
                out.push(i);
            }
            i += 1;
        }
        assert(es.take(i as int) =~= es);
        out
    }

    /// The list of corpora.
    fn list(&self) -> (r: Vec<String>)
        ensures
            text::texts(r@) =~= list_lines(self@),
    {
        let mut out: Vec<String> = Vec::new();
        let ghost es = self@.entries;
        if self.entries.len() == 0 {
            out.push(
                "No named corpora configured. Use --corpus-dir NAME=DIR or --corpus-urls NAME=URL.".to_string(),
            );
        } else {
            out.push("Document corpora:".to_string());
            let mut i: usize = 0;
            while i < self.entries.len()
                invariant
                    i <= self.entries@.len(),
                    es == self@.entries,
                    out@.len() == i + 1,
                    out@[0]@ == "Document corpora:"@,
                    forall|j: int|
                        0 <= j < i ==> (#[trigger] out@[j + 1])@ == row(
                            es[j].name,
                            es[j].kind.label(),
                            es[j].active,
                        ),
                decreases self.entries@.len() - i,
            {
                let e = &self.entries[i];
                assert(es[i as int] == e@);
                out.push(show_row(e.name.as_str(), e.kind.label(), e.active));
                i += 1;
            }
        }
        out.push(show_row("dyn", "route", self.dynamic));
        out.push("Usage: /corpus <name> on|off   (or /corpus to list)".to_string());
        proof {
            let want = list_lines(self@);
            assert forall|k: int| 0 <= k < want.len() implies text::texts(out@)[k] == want[k] by {
                if es.len() > 0 && 0 < k <= es.len() {
                    assert(out@[(k - 1) + 1]@ == row(
                        es[k - 1].name,
                        es[k - 1].kind.label(),
                        es[k - 1].active,
                    ));
                }
            }
        }
        out
    }

    /// `/corpus dyn [on|off]`.
    fn dyn_routing(&mut self, arg: &Option<String>) -> (r: CorpusStep)
        ensures
            dyn_step(old(self)@, final(self)@, text::opt_text(*arg), r),
    {
        match arg {
            None => {
                let mut m = "Dynamic routing (dyn) is ".to_string();
                m.append(show_state(self.dynamic));
                m.append(
                    ": /download and /get route into the first active URL corpus, else the first active directory corpus.",
                );
                CorpusStep::Say(vec![m])
            },
            Some(a) => if text::same(a.as_str(), "on") {
                self.dynamic = true;
                CorpusStep::Say(
                    vec![
                        "Dynamic routing is on — web downloads go to the first active URL corpus (else the first active directory corpus).".to_string(),
                    ],
                )
            } else if text::same(a.as_str(), "off") {
                self.dynamic = false;
                CorpusStep::Say(
                    vec![
                        "Dynamic routing is off — web downloads go to the main folder.".to_string(),
                    ],
                )
            } else {
                let mut m = "Usage: /corpus dyn on|off (got '".to_string();
                m.append(a.as_str());
                m.append("')");
                CorpusStep::Say(vec![m])
            },
        }
    }

    /// `/corpus <name> on`: indexes a corpus. Where it is on already, documents
    /// that were added meanwhile are picked up.
    pub fn corpus_on(&self, name: &str) -> (r: CorpusStep)
        ensures
            on_step(self@, self@, name@, r),
    {
        proof {
            corpus::lemma_position(self@.entries, name@);
        }
        match corpus::find(self.entries.as_slice(), name) {
            None => CorpusStep::Fail(say_unknown(name)),
            Some(index) => {
                let e = &self.entries[index];
                assert(self@.entries[index as int] == e@);
                if e.active {
                    let mut notice = "Corpus '".to_string();
                    notice.append(name);
                    notice.append("' is already on — syncing for changes.");
                    CorpusStep::Sync { index, notice }
                } else {
                    let mut notice = "Indexing corpus '".to_string();
                    notice.append(name);
                    notice.append("' (");
                    notice.append(e.kind.label());
                    notice.append(")...");
                    CorpusStep::Sync { index, notice }
                }
            },
        }
    }

    /// The corpus at that position was indexed: it is switched on, and what is
    /// said of it returned.
    pub fn corpus_synced(&mut self, index: usize, indexed: usize, chunks: usize) -> (r: String)
        requires
            index < old(self)@.entries.len(),
        ensures
            final(self)@ == after_sync(old(self)@, index as int),
            r@ == synced_text(
                old(self)@.entries[index as int].name,
                indexed as nat,
                chunks as nat,
            ),
            old(self)@.wf() ==> final(self)@.wf(),
    {
        let ghost before = self@;
        let mut m = "Corpus '".to_string();
        m.append(self.entries[index].name.as_str());
        m.append("' is on (");
        let n = number::show_usize(indexed);
        m.append(n.as_str());
        m.append(" documents indexed; store: ");
        let c = number::show_usize(chunks);
        m.append(c.as_str());
        m.append(" chunks).");
        self.set_active(index, true);
        proof {
            lemma_same_corpora_stay_valid(before, self@);
        }
        m
    }

    /// Switches the corpus at that position on or off.
    fn set_active(&mut self, index: usize, active: bool)
        requires
            index < old(self).entries@.len(),
        ensures
            final(self)@.entries == with_active(old(self)@.entries, index as int, active),
            final(self).dynamic == old(self).dynamic,
    {
        let ghost before = self.entries@;
        let e = &mut self.entries[index];
        e.active = active;
        assert(self@.entries =~= with_active(
            corpus::entries(before),
            index as int,
            active,
        ));
    }

    /// `/corpus <name> off`: switches a corpus off; its chunks are to be removed
    /// from the store.
    pub fn corpus_off(&mut self, name: &str) -> (r: CorpusStep)
        ensures
            off_step(old(self)@, final(self)@, name@, r),
            old(self)@.wf() ==> final(self)@.wf(),
    {
        let ghost before = self@;
        proof {
            corpus::lemma_position(self@.entries, name@);
        }
        match corpus::find(self.entries.as_slice(), name) {
            None => CorpusStep::Fail(say_unknown(name)),
            Some(index) => {
                assert(self@.entries[index as int] == self.entries@[index as int]@);
                if !self.entries[index].active {
                    let mut m = "Corpus '".to_string();
                    m.append(name);
                    m.append("' is already off.");
                    CorpusStep::Say(vec![m])
                } else {
                    self.set_active(index, false);
                    proof {
                        lemma_same_corpora_stay_valid(before, self@);
                    }
                    CorpusStep::Remove { name: name.to_owned() }
                }
            },
        }
    }

    /// `/corpus [<name> [on|off] | dyn [on|off]]`.
    pub fn cmd_corpus(&mut self, args: &str) -> (r: CorpusStep)
        ensures
            corpus_step(old(self)@, final(self)@, args@, r),
            old(self)@.wf() ==> final(self)@.wf(),
    {
        let ghost before = self@;
        let r = self.corpus_command(args);
        proof {
            law_commands_keep_the_corpora(before, self@, args@, r);
        }
        r
    }

    fn corpus_command(&mut self, args: &str) -> (r: CorpusStep)
        ensures
            corpus_step(old(self)@, final(self)@, args@, r),
    {
        let w = text::words(args);
        if w.len() == 0 {
            return CorpusStep::Say(self.list());
        }
        let name = text::word(&w, 0);
        let arg = text::word_opt(&w, 1);
        if text::same(name.as_str(), "dyn") {
            return self.dyn_routing(&arg);
        }
        match &arg {
            None => {
                proof {
                    corpus::lemma_position(self@.entries, name@);
                }
                match corpus::find(self.entries.as_slice(), name.as_str()) {
                    Some(index) => {
                        let e = &self.entries[index];
                        assert(self@.entries[index as int] == e@);
                        let mut m = "Corpus '".to_string();
                        m.append(e.name.as_str());
                        m.append("' (");
                        m.append(e.kind.label());
                        m.append(") is ");
                        m.append(show_state(e.active));
                        CorpusStep::Say(vec![m])
                    },
                    None => CorpusStep::Say(vec![say_unknown(name.as_str())]),
                }
            },
            Some(a) => if text::same(a.as_str(), "on") {
                self.corpus_on(name.as_str())
            } else if text::same(a.as_str(), "off") {
                self.corpus_off(name.as_str())
            } else {
                let mut m = "Usage: /corpus <name> on|off (got '".to_string();
                m.append(a.as_str());
                m.append("')");
                CorpusStep::Say(vec![m])
            },
        }
    }

    /// Where a document from the web goes.
    pub fn choose_web_route(&self) -> (r: WebRoute)
        ensures
            r@ == corpus::web_route(self@.dynamic, self@.entries),
    {
        corpus::pick_web_route(self.dynamic, self.entries.as_slice())
    }

    /// Starts the ingestion of an address: chooses where the document goes and
    /// adds the address to the list of an address corpus.
    pub fn ingest_web_url(&mut self, url: &str) -> (r: IngestStep)
        ensures
            ingest_step(old(self)@, final(self)@, url@, r),
            old(self)@.wf() ==> final(self)@.wf() && !(r is Fail),
    {
        let ghost before = self@;
        let r = self.start_ingestion(url);
        proof {
            if before.wf() {
                law_ingestion_finds_its_corpus(before, self@, url@, r);
            }
        }
        r
    }

    fn start_ingestion(&mut self, url: &str) -> (r: IngestStep)
        ensures
            ingest_step(old(self)@, final(self)@, url@, r),
    {
        let ghost es = self@.entries;
        proof {
            corpus::lemma_first_active(es, true);
            corpus::lemma_first_active(es, false);
        }
        match self.choose_web_route() {
            WebRoute::Url { name } => {
                proof {
                    corpus::lemma_position(es, name@);
                    assert(es[corpus::first_active(es, true)].name == name@);
                }
                match corpus::find(self.entries.as_slice(), name.as_str()) {
                    Some(index) => {
                        assert(es[index as int] == self.entries@[index as int]@);
                        let is_urls = match &self.entries[index].kind {
                            CorpusKind::Urls(_) => true,
                            CorpusKind::Dir(_) => false,
                        };
                        if is_urls {
                            let e = &mut self.entries[index];
                            corpus::add_address(e, url);
                            assert(self@.entries =~= es.update(
                                index as int,
                                corpus::with_url(es[index as int], url@),
                            ));
                            IngestStep::SyncUrls { index, name }
                        } else {
                            let mut m = "internal: web route chose a URL corpus, got directory '".to_string();
                            m.append(name.as_str());
                            m.append("'");
                            IngestStep::Fail(m)
                        }
                    },
                    None => {
                        // The name was taken from the list itself.
                        assert(false);
                        IngestStep::Fail(say_unknown(name.as_str()))
                    },
                }
            },
            WebRoute::Dir { name } => {
                proof {
                    corpus::lemma_position(es, name@);
                    assert(es[corpus::first_active(es, false)].name == name@);
                }
                match corpus::find(self.entries.as_slice(), name.as_str()) {
                    Some(index) => {
                        assert(es[index as int] == self.entries@[index as int]@);
                        match &self.entries[index].kind {
                            CorpusKind::Dir(c) => {
                                let folder = c.folder.clone();
                                IngestStep::SaveInto { index, name, folder }
                            },
                            CorpusKind::Urls(_) => {
                                let mut m = "internal: web route chose a directory corpus, got URLs '".to_string();
                                m.append(name.as_str());
                                m.append("'");
                                IngestStep::Fail(m)
                            },
                        }
                    },
                    None => {
                        // The name was taken from the list itself.
                        assert(false);
                        IngestStep::Fail(say_unknown(name.as_str()))
                    },
                }
            },
            WebRoute::Folder => {
                if self.dynamic && self.entries.len() > 0 {
                    IngestStep::MainFolder {
                        note: Some(
                            "Note: no active named corpora — adding to the main folder.".to_string(),
                        ),
                    }
                } else {
                    IngestStep::MainFolder { note: None }
                }
            },
        }
    }
}

/// What is said of a corpus that was indexed.
pub open spec fn synced_text(name: Seq<char>, indexed: nat, chunks: nat) -> Seq<char> {
    "Corpus '"@ + name + "' is on ("@ + number::decimal(indexed) + " documents indexed; store: "@
        + number::decimal(chunks) + " chunks)."@
}

/// What is said when the chunks of a corpus were removed.
pub open spec fn removed_text(name: Seq<char>) -> Seq<char> {
    "Corpus '"@ + name + "' is off; its chunks were removed from the store."@
}

/// What is said when an address was added to a corpus.
pub open spec fn added_text(url: Seq<char>, name: Seq<char>, indexed: nat) -> Seq<char> {
    "Added '"@ + url + "' to URL corpus '"@ + name + "' ("@ + number::decimal(indexed)
        + " documents indexed)."@
}

/// What is said when a document was saved into a corpus.
pub open spec fn saved_text(file: Seq<char>, name: Seq<char>, indexed: nat) -> Seq<char> {
    "Saved '"@ + file + "' into dir corpus '"@ + name + "' ("@ + number::decimal(indexed)
        + " documents indexed)."@
}

/// What is said of a change to a corpus begins with what it is about, and ends with
/// how much was indexed, whatever the number is.
pub proof fn law_changes_are_told_with_their_numbers(
    what: Seq<char>,
    name: Seq<char>,
    indexed: nat,
    chunks: nat,
)
    ensures
        removed_text(name) == "Corpus '"@ + name
            + "' is off; its chunks were removed from the store."@,
        synced_text(name, indexed, chunks) == ("Corpus '"@ + name + "' is on ("@) + (
        number::decimal(indexed) + " documents indexed; store: "@ + number::decimal(chunks)
            + " chunks)."@),
        added_text(what, name, indexed) == ("Added '"@ + what + "' to URL corpus '"@ + name
            + "' ("@) + (number::decimal(indexed) + " documents indexed)."@),
        saved_text(what, name, indexed) == ("Saved '"@ + what + "' into dir corpus '"@ + name
            + "' ("@) + (number::decimal(indexed) + " documents indexed)."@),
{
    assert(synced_text(name, indexed, chunks) =~= ("Corpus '"@ + name + "' is on ("@) + (
    number::decimal(indexed) + " documents indexed; store: "@ + number::decimal(chunks)
        + " chunks)."@));
    assert(added_text(what, name, indexed) =~= ("Added '"@ + what + "' to URL corpus '"@ + name
        + "' ("@) + (number::decimal(indexed) + " documents indexed)."@));
    assert(saved_text(what, name, indexed) =~= ("Saved '"@ + what + "' into dir corpus '"@ + name
        + "' ("@) + (number::decimal(indexed) + " documents indexed)."@));
}

/// What is said when the chunks of a corpus were removed.
pub fn removed_notice(name: &str) -> (r: String)
    ensures
        r@ == removed_text(name@),
{
    let mut m = "Corpus '".to_string();
    m.append(name);
    m.append("' is off; its chunks were removed from the store.");
    m
}

/// What is said when an address was added to a corpus.
pub fn added_summary(url: &str, name: &str, indexed: usize) -> (r: String)
    ensures
        r@ == added_text(url@, name@, indexed as nat),
{
    let mut m = "Added '".to_string();
    m.append(url);
    m.append("' to URL corpus '");
    m.append(name);
    m.append("' (");
    let n = number::show_usize(indexed);
    m.append(n.as_str());
    m.append(" documents indexed).");
    m
}

/// What is said when a document was saved into a corpus.
pub fn saved_summary(file: &str, name: &str, indexed: usize) -> (r: String)
    ensures
        r@ == saved_text(file@, name@, indexed as nat),
{
    let mut m = "Saved '".to_string();
    m.append(file);
    m.append("' into dir corpus '");
    m.append(name);
    m.append("' (");
    let n = number::show_usize(indexed);
    m.append(n.as_str());
    m.append(" documents indexed).");
    m
}

} // verus!
