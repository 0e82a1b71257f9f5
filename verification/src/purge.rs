//! `/embed purge`: the documents of the store are deleted, one after the other.

use vstd::prelude::*;

use crate::number;
use crate::text;

verus! {

/// What became of the document that was to be deleted.
#[derive(Debug, Clone, Copy, PartialEq, Eq, Structural)]
pub enum PurgeEvent {
    Done,
    Failed,
}

/// What is done next.
#[derive(Debug)]
pub enum PurgeAction {
    /// The document with that name is deleted from the store.
    Delete(String),
    /// All documents are deleted, and the message is logged.
    Report(String),
    /// The error of the last action is passed on.
    Fail,
}

/// The deletion of all documents of a store.
#[derive(Debug)]
pub struct PurgeRun {
    documents: Vec<String>,
    chunks: usize,
    done: usize,
    over: bool,
}

/// The mathematical value of a [`PurgeRun`].
pub struct PurgeView {
    /// The documents of the store.
    pub documents: Seq<Seq<char>>,
    /// The number of chunks that the store held at the beginning.
    pub chunks: nat,
    /// How many of the documents are deleted.
    pub done: nat,
    /// Whether nothing more is deleted.
    pub over: bool,
}

impl View for PurgeRun {
    type V = PurgeView;

    closed spec fn view(&self) -> PurgeView {
        PurgeView {
            documents: text::texts(self.documents@),
            chunks: self.chunks as nat,
            done: self.done as nat,
            over: self.over,
        }
    }
}

impl PurgeView {
    /// While the run goes on there is a document to delete.
    pub open spec fn wf(self) -> bool {
        &&& self.done <= self.documents.len() <= usize::MAX
        &&& !self.over ==> self.done < self.documents.len()
    }

    /// The run after it was broken off.
    pub open spec fn broken_off(self) -> PurgeView {
        PurgeView { over: true, ..self }
    }

    /// The run after the next document was deleted.
    pub open spec fn advanced(self) -> PurgeView {
        PurgeView {
            done: self.done + 1,
            over: self.done + 1 >= self.documents.len(),
            ..self
        }
    }

    /// Whether `r` is what is done in a run that was not broken off.
    pub open spec fn is_action(self, r: PurgeAction) -> bool {
        if self.done < self.documents.len() {
            r matches PurgeAction::Delete(d) && d@ == self.documents[self.done as int]
        } else {
            r matches PurgeAction::Report(m) && m@ == "Vector store purged ("@ + number::decimal(
                self.chunks,
            ) + " chunks across "@ + number::decimal(self.documents.len()) + " documents)."@
        }
    }
}

/// The run at its beginning.
pub open spec fn first_view(documents: Seq<Seq<char>>, chunks: nat) -> PurgeView {
    PurgeView { documents, chunks, done: 0, over: documents.len() == 0 }
}

/// What follows what became of the last document.
pub open spec fn purge_step(
    before: PurgeView,
    after: PurgeView,
    event: PurgeEvent,
    r: PurgeAction,
) -> bool {
    if before.over || event == PurgeEvent::Failed {
        after == before.broken_off() && r == PurgeAction::Fail
    } else {
        after == before.advanced() && after.is_action(r)
    }
}

/// The states and actions of a run over these documents in which every deletion
/// so far succeeded.
pub open spec fn succeeds(
    documents: Seq<Seq<char>>,
    chunks: nat,
    views: Seq<PurgeView>,
    actions: Seq<PurgeAction>,
) -> bool {
    &&& views.len() == actions.len()
    &&& views.len() > 0
    &&& views[0] == first_view(documents, chunks)
    &&& views[0].is_action(actions[0])
    &&& forall|k: int|
        0 <= k < views.len() - 1 ==> purge_step(
            #[trigger] views[k],
            views[k + 1],
            PurgeEvent::Done,
            actions[k + 1],
        )
}

/// How often a document is deleted by these actions.
pub open spec fn deletions(actions: Seq<PurgeAction>, document: Seq<char>) -> nat
    decreases actions.len(),
{
    if actions.len() == 0 {
        0
    } else {
        let before = deletions(actions.drop_last(), document);
        match actions.last() {
            PurgeAction::Delete(d) if d@ == document => before + 1,
            _ => before,
        }
    }
}

/// The documents are deleted in the order in which the store names them; when
/// all are deleted, and not before, the purge is reported, with the number of
/// chunks that the store held and the number of its documents.
pub proof fn law_every_document_is_deleted(
    documents: Seq<Seq<char>>,
    chunks: nat,
    views: Seq<PurgeView>,
    actions: Seq<PurgeAction>,
)
    requires
        succeeds(documents, chunks, views, actions),
        actions.len() <= documents.len() + 1,
    ensures
        forall|k: int|
            0 <= k < actions.len() && k < documents.len() ==> (#[trigger] actions[k] matches
                PurgeAction::Delete(d) && d@ == documents[k]),
        actions.last() is Report <==> actions.len() == documents.len() + 1,
        actions.last() matches PurgeAction::Report(m) ==> m@ == "Vector store purged ("@
            + number::decimal(chunks) + " chunks across "@ + number::decimal(documents.len())
            + " documents)."@,
{
    assert forall|k: int| 0 <= k < actions.len() && k < documents.len() implies (
    #[trigger] actions[k] matches PurgeAction::Delete(d) && d@ == documents[k]) by {
        lemma_progress(documents, chunks, views, actions, k);
    }
    lemma_progress(documents, chunks, views, actions, actions.len() - 1);
}

/// A store names each of its documents once; each is then deleted exactly once
/// when the purge is reported, and nothing else is deleted.
pub proof fn law_every_document_is_deleted_once(
    documents: Seq<Seq<char>>,
    chunks: nat,
    views: Seq<PurgeView>,
    actions: Seq<PurgeAction>,
    document: Seq<char>,
)
    requires
        succeeds(documents, chunks, views, actions),
        actions.len() == documents.len() + 1,
        documents.no_duplicates(),
    ensures
        deletions(actions, document) == (if documents.contains(document) {
            1nat
        } else {
            0
        }),
{
    law_every_document_is_deleted(documents, chunks, views, actions);
    let n = documents.len() as int;
    lemma_deletions(documents, actions, document, n);
    assert(actions.drop_last() =~= actions.take(n));
    assert(documents.take(n) =~= documents);
}

/// Of the first `k` documents, each is deleted once by the first `k` actions.
proof fn lemma_deletions(
    documents: Seq<Seq<char>>,
    actions: Seq<PurgeAction>,
    document: Seq<char>,
    k: int,
)
    requires
        0 <= k <= documents.len() < actions.len(),
        documents.no_duplicates(),
        forall|j: int|
            0 <= j < documents.len() ==> (#[trigger] actions[j] matches PurgeAction::Delete(d)
                && d@ == documents[j]),
    ensures
        deletions(actions.take(k), document) == (if documents.take(k).contains(document) {
            1nat
        } else {
            0
        }),
    decreases k,
{
    let taken = documents.take(k);
    if k > 0 {
        let fewer = documents.take(k - 1);
        lemma_deletions(documents, actions, document, k - 1);
        assert(actions.take(k).drop_last() =~= actions.take(k - 1));
        assert(actions.take(k).last() == actions[k - 1]);
        assert(taken =~= fewer.push(documents[k - 1]));
        if documents[k - 1] == document {
            assert(taken[k - 1] == document);
            if fewer.contains(document) {
                let j = choose|j: int| 0 <= j < fewer.len() && fewer[j] == document;
                assert(documents[j] == documents[k - 1]);
            }
        } else if fewer.contains(document) {
            let j = choose|j: int| 0 <= j < fewer.len() && fewer[j] == document;
            assert(taken[j] == document);
        } else if taken.contains(document) {
            let j = choose|j: int| 0 <= j < taken.len() && taken[j] == document;
            assert(fewer[j] == document);
        }
    }
}

/// After `k` deletions the next document is at work.
proof fn lemma_progress(
    documents: Seq<Seq<char>>,
    chunks: nat,
    views: Seq<PurgeView>,
    actions: Seq<PurgeAction>,
    k: int,
)
    requires
        succeeds(documents, chunks, views, actions),
        actions.len() <= documents.len() + 1,
        0 <= k < actions.len(),
    ensures
        views[k] == (PurgeView { documents, chunks, done: k as nat, over: k == documents.len() }),
        views[k].is_action(actions[k]),
    decreases k,
{
    if k > 0 {
        lemma_progress(documents, chunks, views, actions, k - 1);
        assert(purge_step(views[k - 1], views[(k - 1) + 1], PurgeEvent::Done, actions[(k - 1) + 1]));
    }
}

/// The first failure ends the run: nothing more is deleted, and nothing is
/// reported.
pub proof fn law_a_failure_ends_the_purge(
    before: PurgeView,
    after: PurgeView,
    event: PurgeEvent,
    r: PurgeAction,
)
    requires
        purge_step(before, after, event, r),
        before.over || event == PurgeEvent::Failed,
    ensures
        after.over,
        after.done == before.done,
        r == PurgeAction::Fail,
{
}

impl PurgeRun {
    /// Begins with the first document; without one there is only a report.
    pub fn begin(documents: Vec<String>, chunks: usize) -> (r: (PurgeRun, PurgeAction))
        ensures
            r.0@.wf(),
            r.0@ == first_view(text::texts(documents@), chunks as nat),
            r.0@.is_action(r.1),
    {
        assert(documents.len() <= usize::MAX);
        let over = documents.len() == 0;
        let run = PurgeRun { documents, chunks, done: 0, over };
        let action = run.action();
        (run, action)
    }

    /// What is done in a run that was not broken off.
    fn action(&self) -> (r: PurgeAction)
        ensures
            self@.is_action(r),
    {
        if self.done < self.documents.len() {
            return PurgeAction::Delete(self.documents[self.done].clone());
        }
        let mut m = "Vector store purged (".to_string();
        let chunks = number::show_usize(self.chunks);
        m.append(chunks.as_str());
        m.append(" chunks across ");
        let documents = number::show_usize(self.documents.len());
        m.append(documents.as_str());
        m.append(" documents).");
        PurgeAction::Report(m)
    }

    /// What is done next, given what became of the last document.
    pub fn next_action(&mut self, event: PurgeEvent) -> (r: PurgeAction)
        requires
            old(self)@.wf(),
        ensures
            final(self)@.wf(),
            purge_step(old(self)@, final(self)@, event, r),
    {
        if self.over || event == PurgeEvent::Failed {
            self.over = true;
            return PurgeAction::Fail;
        }
        self.done = self.done + 1;
        self.over = self.done >= self.documents.len();
        self.action()
    }
}

} // verus!
