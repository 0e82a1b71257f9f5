//! `/embed index`: the active corpora are indexed anew, one after the other.

use vstd::prelude::*;

use crate::corpora;
use crate::corpora::Corpora;
use crate::corpus::EntryView;
use crate::progress::FileStat;

verus! {

/// What became of the corpus that was indexed.
#[derive(Debug)]
pub enum IndexEvent {
    /// It is indexed; these are its files.
    Done(Vec<FileStat>),
    /// The user cancelled.
    Cancelled,
    Failed,
}

/// What is done next.
#[derive(Debug)]
pub enum IndexAction {
    /// The corpus at that position is indexed.
    Index(usize),
    /// All corpora are indexed, and the files are reported.
    Report,
    /// The message is logged, and the command ends.
    Stop(String),
    /// The error of the last action is passed on.
    Fail,
}

/// The indexing of all active corpora.
#[derive(Debug)]
pub struct IndexRun {
    positions: Vec<usize>,
    done: usize,
    over: bool,
    stats: Vec<FileStat>,
}

/// The mathematical value of an [`IndexRun`].
pub struct IndexView {
    /// The corpora to index.
    pub positions: Seq<usize>,
    /// How many of them are indexed.
    pub done: nat,
    /// Whether nothing more is indexed.
    pub over: bool,
    /// The files of the corpora that are indexed.
    pub stats: Seq<FileStat>,
}

impl View for IndexRun {
    type V = IndexView;

    closed spec fn view(&self) -> IndexView {
        IndexView {
            positions: self.positions@,
            done: self.done as nat,
            over: self.over,
            stats: self.stats@,
        }
    }
}

impl IndexView {
    /// While the run goes on there is a corpus at work.
    pub open spec fn wf(self) -> bool {
        &&& self.done <= self.positions.len() <= usize::MAX
        &&& !self.over ==> self.done < self.positions.len()
    }

    /// The run after it was broken off.
    pub open spec fn broken_off(self) -> IndexView {
        IndexView { over: true, ..self }
    }

    /// The run after the corpus at work was indexed.
    pub open spec fn advanced(self, stats: Seq<FileStat>) -> IndexView {
        IndexView {
            done: self.done + 1,
            over: self.done + 1 >= self.positions.len(),
            stats: self.stats + stats,
            ..self
        }
    }

    /// What is done in a run that was not broken off.
    pub open spec fn action(self) -> IndexAction {
        if self.done < self.positions.len() {
            IndexAction::Index(self.positions[self.done as int])
        } else {
            IndexAction::Report
        }
    }
}

/// The run at its beginning.
pub open spec fn first_view(es: Seq<EntryView>) -> IndexView {
    let positions = corpora::active_positions(es);
    IndexView { positions, done: 0, over: positions.len() == 0, stats: Seq::empty() }
}

/// What follows what became of the corpus at work.
pub open spec fn index_step(
    before: IndexView,
    after: IndexView,
    event: IndexEvent,
    r: IndexAction,
) -> bool {
    match event {
        IndexEvent::Done(stats) if !before.over => after == before.advanced(stats@) && r
            == after.action(),
        IndexEvent::Cancelled if !before.over => after == before.broken_off() && (
        r matches IndexAction::Stop(m) && m@ == "Indexing cancelled."@),
        _ => after == before.broken_off() && r == IndexAction::Fail,
    }
}

/// The files of several corpora, one corpus after the other.
pub open spec fn gathered(results: Seq<Vec<FileStat>>) -> Seq<FileStat>
    decreases results.len(),
{
    if results.len() == 0 {
        Seq::empty()
    } else {
        gathered(results.drop_last()) + results.last()@
    }
}

/// The states and actions of a run over these corpora in which every corpus so
/// far was indexed.
pub open spec fn succeeds(
    es: Seq<EntryView>,
    views: Seq<IndexView>,
    results: Seq<Vec<FileStat>>,
    actions: Seq<IndexAction>,
) -> bool {
    &&& views.len() == results.len() + 1
    &&& actions.len() == results.len() + 1
    &&& views[0] == first_view(es)
    &&& actions[0] == views[0].action()
    &&& forall|k: int|
        0 <= k < results.len() ==> index_step(
            #[trigger] views[k],
            views[k + 1],
            IndexEvent::Done(results[k]),
            actions[k + 1],
        )
}

/// The active corpora are indexed one after the other in their order; when all
/// are indexed, and not before, the files of all of them are reported.
pub proof fn law_every_active_corpus_is_indexed(
    es: Seq<EntryView>,
    views: Seq<IndexView>,
    results: Seq<Vec<FileStat>>,
    actions: Seq<IndexAction>,
)
    requires
        succeeds(es, views, results, actions),
        results.len() <= corpora::active_positions(es).len(),
    ensures
        forall|k: int|
            0 <= k <= results.len() && k < corpora::active_positions(es).len()
                ==> #[trigger] actions[k] == IndexAction::Index(corpora::active_positions(es)[k]),
        actions.last() == IndexAction::Report <==> results.len() == corpora::active_positions(
            es,
        ).len(),
        views.last().stats == gathered(results),
{
    let n = results.len() as int;
    lemma_progress(es, views, results, actions, n);
    assert(results.take(n) =~= results);
    assert forall|k: int|
        0 <= k <= n && k < corpora::active_positions(es).len() implies #[trigger] actions[k]
        == IndexAction::Index(corpora::active_positions(es)[k]) by {
        lemma_progress(es, views, results, actions, k);
    }
}

/// After `k` corpora the next one is at work.
proof fn lemma_progress(
    es: Seq<EntryView>,
    views: Seq<IndexView>,
    results: Seq<Vec<FileStat>>,
    actions: Seq<IndexAction>,
    k: int,
)
    requires
        succeeds(es, views, results, actions),
        0 <= k <= results.len() <= corpora::active_positions(es).len(),
    ensures
        views[k].positions == corpora::active_positions(es),
        views[k].done == k,
        views[k].over <==> k == corpora::active_positions(es).len(),
        views[k].stats == gathered(results.take(k)),
        actions[k] == views[k].action(),
    decreases k,
{
    if k == 0 {
        assert(results.take(0) =~= Seq::empty());
    } else {
        lemma_progress(es, views, results, actions, k - 1);
        assert(index_step(
            views[k - 1],
            views[(k - 1) + 1],
            IndexEvent::Done(results[k - 1]),
            actions[(k - 1) + 1],
        ));
        assert(results.take(k).drop_last() =~= results.take(k - 1));
    }
}

/// Once a run is over nothing more is indexed, whatever happens.
pub proof fn law_nothing_is_indexed_after_the_end(
    before: IndexView,
    after: IndexView,
    event: IndexEvent,
    r: IndexAction,
)
    requires
        index_step(before, after, event, r),
        before.over || !(event is Done),
    ensures
        after.over,
        !(r is Index),
        !(r is Report),
        after.stats == before.stats,
        before.over ==> r == IndexAction::Fail,
        !before.over && event is Cancelled ==> r is Stop,
        !before.over && !(event is Cancelled) ==> r == IndexAction::Fail,
{
}

/// A corpus that was indexed adds its files to the report, behind those of the
/// corpora before it, and the next one has its turn; the corpora to index stay.
pub proof fn law_each_corpus_adds_its_files(
    before: IndexView,
    after: IndexView,
    stats: Vec<FileStat>,
    r: IndexAction,
)
    requires
        !before.over,
        index_step(before, after, IndexEvent::Done(stats), r),
    ensures
        after.positions == before.positions,
        after.done == before.done + 1,
        after.stats == before.stats + stats@,
        after.done < after.positions.len() ==> !after.over && r == IndexAction::Index(
            after.positions[after.done as int],
        ),
        after.done >= after.positions.len() ==> after.over && r == IndexAction::Report,
{
}

/// A run begins with the first active corpus and an empty report.
pub proof fn law_a_run_begins_with_the_first_active_corpus(es: Seq<EntryView>, i: int)
    requires
        es.len() <= usize::MAX,
        0 <= i < es.len(),
        es[i].active,
        forall|k: int| 0 <= k < i ==> !(#[trigger] es[k]).active,
    ensures
        first_view(es).action() == IndexAction::Index(i as usize),
        first_view(es).stats.len() == 0,
        !first_view(es).over,
{
    let ps = corpora::active_positions(es);
    corpora::law_active_positions_are_the_active_corpora(es, i as usize);
    let k = choose|k: int| 0 <= k < ps.len() && ps[k] == i as usize;
    if k > 0 {
        corpora::law_active_positions_ascend(es, 0, k);
        assert(ps.contains(ps[0]));
        corpora::law_active_positions_are_the_active_corpora(es, ps[0]);
    }
}

impl IndexRun {
    /// Begins with the first active corpus; without one there is only a report.
    pub fn begin(corpora: &Corpora) -> (r: (IndexRun, IndexAction))
        ensures
            r.0@.wf(),
            r.0@ == first_view(corpora@.entries),
            r.1 == r.0@.action(),
    {
        let positions = corpora.active();
        assert(positions.len() <= usize::MAX);
        let over = positions.len() == 0;
        let action = if over {
            IndexAction::Report
        } else {
            IndexAction::Index(positions[0])
        };
        let run = IndexRun { positions, done: 0, over, stats: Vec::new() };
        assert(run@.stats =~= Seq::empty());
        (run, action)
    }

    /// What is done next, given what became of the corpus at work.
    pub fn next_action(&mut self, event: IndexEvent) -> (r: IndexAction)
        requires
            old(self)@.wf(),
        ensures
            final(self)@.wf(),
            index_step(old(self)@, final(self)@, event, r),
    {
        if self.over {
            return IndexAction::Fail;
        }
        match event {
            IndexEvent::Done(stats) => {
                let mut files = stats;
                self.stats.append(&mut files);
                self.done = self.done + 1;
                if self.done < self.positions.len() {
                    IndexAction::Index(self.positions[self.done])
                } else {
                    self.over = true;
                    IndexAction::Report
                }
            },
            IndexEvent::Cancelled => {
                self.over = true;
                IndexAction::Stop("Indexing cancelled.".to_string())
            },
            IndexEvent::Failed => {
                self.over = true;
                IndexAction::Fail
            },
        }
    }

    /// The files of the corpora that are indexed.
    pub fn stats(&self) -> (r: &Vec<FileStat>)
        ensures
            r@ == self@.stats,
    {
        &self.stats
    }
}

} // verus!
