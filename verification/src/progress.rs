//! Indexing: the progress line and the report at the end.

use vstd::prelude::*;

use crate::number;
use crate::text;

verus! {

/// What an indexing run has done so far.
#[derive(Debug)]
pub struct EmbedProgress {
    /// The number of files to index.
    pub total: usize,
    /// The number of files begun.
    pub started: usize,
    /// The number of files stored.
    pub done: usize,
    /// The number of chunks embedded.
    pub chunks: usize,
    /// The number of files that failed.
    pub failed: usize,
    /// The file at work.
    pub current: String,
}

/// Something that happens during an indexing run.
#[derive(Debug)]
pub enum ProgressEvent {
    FileStarted { index: usize, total: usize, corpus: String, document: String },
    ChunksEmbedded { done: usize },
    FileStored,
    FileFailed,
    /// Anything else; it changes nothing.
    Other,
}

/// The mathematical value of an [`EmbedProgress`].
pub struct ProgressView {
    pub total: nat,
    pub started: nat,
    pub done: nat,
    pub chunks: nat,
    pub failed: nat,
    pub current: Seq<char>,
}

impl View for EmbedProgress {
    type V = ProgressView;

    open spec fn view(&self) -> ProgressView {
        ProgressView {
            total: self.total as nat,
            started: self.started as nat,
            done: self.done as nat,
            chunks: self.chunks as nat,
            failed: self.failed as nat,
            current: self.current@,
        }
    }
}

/// The progress after an event.
pub open spec fn after_event(p: ProgressView, event: ProgressEvent) -> ProgressView {
    match event {
        ProgressEvent::FileStarted { index, total, corpus, document } => ProgressView {
            total: total as nat,
            started: (index + 1) as nat,
            current: corpus@ + "/"@ + document@,
            ..p
        },
        ProgressEvent::ChunksEmbedded { done } => ProgressView { chunks: done as nat, ..p },
        ProgressEvent::FileStored => ProgressView { done: p.done + 1, ..p },
        ProgressEvent::FileFailed => ProgressView { failed: p.failed + 1, ..p },
        ProgressEvent::Other => p,
    }
}

/// Whether all counters still fit into a machine word after an event.
pub open spec fn countable(p: ProgressView, event: ProgressEvent) -> bool {
    let q = after_event(p, event);
    q.started <= usize::MAX && q.done <= usize::MAX && q.failed <= usize::MAX
}

/// The width of the bar in characters.
pub const WIDTH: usize = 30;

/// The bar, with its first `filled` characters marked.
pub open spec fn bar(filled: nat) -> Seq<char> {
    let empty = if filled < WIDTH {
        (WIDTH - filled) as nat
    } else {
        0
    };
    "["@ + text::repeated('#', filled) + text::repeated('-', empty) + "]"@
}

/// The bar is always equally wide, between its brackets.
pub proof fn law_bar_has_one_width(filled: nat)
    requires
        filled <= WIDTH,
    ensures
        bar(filled).len() == WIDTH + 2,
{
    reveal_strlit("[");
    reveal_strlit("]");
}

/// The progress line, with the first `filled` characters of the bar marked.
pub open spec fn progress_line(p: ProgressView, filled: nat) -> Seq<char> {
    let failed = if p.failed > 0 {
        " | "@ + number::decimal(p.failed) + " failed"@
    } else {
        Seq::empty()
    };
    bar(filled) + " "@ + number::decimal(p.started) + "/"@ + number::decimal(p.total) + " files | "@
        + number::decimal(p.chunks) + " chunks"@ + failed + " | "@ + p.current
        + " (ESC: cancel)"@
}

/// The line shows the bar, how many of the files have begun and how many chunks
/// there are, then how many files failed where any did, and at last the file at
/// work.
pub proof fn law_the_line_shows_the_progress(p: ProgressView, filled: nat)
    ensures
        ({
            let start = bar(filled) + " "@ + number::decimal(p.started) + "/"@ + number::decimal(
                p.total,
            ) + " files | "@ + number::decimal(p.chunks) + " chunks"@;
            let end = " | "@ + p.current + " (ESC: cancel)"@;
            &&& p.failed == 0 ==> progress_line(p, filled) == start + end
            &&& p.failed > 0 ==> progress_line(p, filled) == start + (" | "@ + number::decimal(
                p.failed,
            ) + " failed"@) + end
        }),
{
    let start = bar(filled) + " "@ + number::decimal(p.started) + "/"@ + number::decimal(p.total)
        + " files | "@ + number::decimal(p.chunks) + " chunks"@;
    lemma_line_parts(start, Seq::empty(), p.current);
    lemma_line_parts(start, " | "@ + number::decimal(p.failed) + " failed"@, p.current);
    assert(start + Seq::<char>::empty() =~= start);
}

proof fn lemma_line_parts(start: Seq<char>, middle: Seq<char>, current: Seq<char>)
    ensures
        start + middle + " | "@ + current + " (ESC: cancel)"@ == start + middle + (" | "@ + current
            + " (ESC: cancel)"@),
{
    assert(start + middle + " | "@ + current + " (ESC: cancel)"@ =~= start + middle + (" | "@
        + current + " (ESC: cancel)"@));
}

/// The events of one kind in a run.
pub open spec fn count_of(events: Seq<ProgressEvent>, stored: bool) -> nat
    decreases events.len(),
{
    if events.len() == 0 {
        0
    } else {
        let before = count_of(events.drop_last(), stored);
        match events.last() {
            ProgressEvent::FileStored if stored => before + 1,
            ProgressEvent::FileFailed if !stored => before + 1,
            _ => before,
        }
    }
}

/// The progress after all events of a run.
pub open spec fn after_events(p: ProgressView, events: Seq<ProgressEvent>) -> ProgressView
    decreases events.len(),
{
    if events.len() == 0 {
        p
    } else {
        after_event(after_events(p, events.drop_last()), events.last())
    }
}

/// The counters of stored and of failed files grow by one for each such event
/// and by nothing else.
pub proof fn law_counters_count_their_events(p: ProgressView, events: Seq<ProgressEvent>)
    ensures
        after_events(p, events).done == p.done + count_of(events, true),
        after_events(p, events).failed == p.failed + count_of(events, false),
    decreases events.len(),
{
    if events.len() > 0 {
        law_counters_count_their_events(p, events.drop_last());
    }
}

/// A file that begins is the one at work, under its number and its name within its
/// corpus; embedded chunks are counted as reported. Neither counts as stored or
/// failed, and a file that is stored or fails is counted and nothing else.
pub proof fn law_progress_follows_the_events(
    p: ProgressView,
    index: usize,
    total: usize,
    corpus: String,
    document: String,
    done: usize,
)
    ensures
        ({
            let q = after_event(p, ProgressEvent::FileStarted { index, total, corpus, document });
            &&& q.started == index + 1
            &&& q.total == total
            &&& q.current == corpus@ + "/"@ + document@
            &&& q.done == p.done && q.failed == p.failed && q.chunks == p.chunks
        }),
        ({
            let q = after_event(p, ProgressEvent::ChunksEmbedded { done });
            &&& q.chunks == done
            &&& q.done == p.done && q.failed == p.failed && q.started == p.started && q.total
                == p.total && q.current == p.current
        }),
        ({
            let q = after_event(p, ProgressEvent::FileStored);
            &&& q.done == p.done + 1
            &&& q.failed == p.failed && q.chunks == p.chunks && q.started == p.started && q.total
                == p.total && q.current == p.current
        }),
        ({
            let q = after_event(p, ProgressEvent::FileFailed);
            &&& q.failed == p.failed + 1
            &&& q.done == p.done && q.chunks == p.chunks && q.started == p.started && q.total
                == p.total && q.current == p.current
        }),
        after_event(p, ProgressEvent::Other) == p,
{
}

/// The bar marks as many characters from the left as are filled.
pub proof fn law_the_bar_fills_from_the_left(filled: nat, i: int)
    requires
        filled <= WIDTH,
        0 <= i < WIDTH,
    ensures
        bar(filled)[0] == '[',
        bar(filled)[WIDTH + 1] == ']',
        bar(filled)[i + 1] == if i < filled {
            '#'
        } else {
            '-'
        },
{
    reveal_strlit("[");
    reveal_strlit("]");
}

/// Nothing done yet.
pub open spec fn nothing_done() -> ProgressView {
    ProgressView {
        total: 0,
        started: 0,
        done: 0,
        chunks: 0,
        failed: 0,
        current: Seq::empty(),
    }
}

/// From the beginning on the counters are the numbers of the events.
pub proof fn law_counting_begins_at_zero(events: Seq<ProgressEvent>)
    ensures
        after_events(nothing_done(), events).done == count_of(events, true),
        after_events(nothing_done(), events).failed == count_of(events, false),
        nothing_done().chunks == 0 && nothing_done().started == 0 && nothing_done().total == 0,
{
    law_counters_count_their_events(nothing_done(), events);
}

impl EmbedProgress {
    /// Nothing done yet.
    pub fn new() -> (r: EmbedProgress)
        ensures
            r@ == nothing_done(),
    {
        EmbedProgress {
            total: 0,
            started: 0,
            done: 0,
            chunks: 0,
            failed: 0,
            current: String::new(),
        }
    }

    /// Whether all counters still fit into a machine word after an event.
    pub fn can_apply(&self, event: &ProgressEvent) -> (r: bool)
        ensures
            r == countable(self@, *event),
    {
        match event {
            ProgressEvent::FileStarted { index, .. } => *index < usize::MAX,
            ProgressEvent::ChunksEmbedded { .. } => true,
            ProgressEvent::FileStored => self.done < usize::MAX,
            ProgressEvent::FileFailed => self.failed < usize::MAX,
            ProgressEvent::Other => true,
        }
    }

    /// Takes note of an event.
    pub fn apply(&mut self, event: &ProgressEvent)
        requires
            countable(old(self)@, *event),
        ensures
            final(self)@ == after_event(old(self)@, *event),
    {
        match event {
            ProgressEvent::FileStarted { index, total, corpus, document } => {
                self.total = *total;
                self.started = *index + 1;
                let mut m = corpus.clone();
                m.append("/");
                m.append(document.as_str());
                self.current = m;
            },
            ProgressEvent::ChunksEmbedded { done } => {
                self.chunks = *done;
            },
            ProgressEvent::FileStored => {
                self.done = self.done + 1;
            },
            ProgressEvent::FileFailed => {
                self.failed = self.failed + 1;
            },
            ProgressEvent::Other => {},
        }
    }

    /// The progress line, with the first `filled` characters of the bar marked.
    pub fn render_embed_progress(&self, filled: usize) -> (r: String)
        ensures
            r@ == progress_line(self@, filled as nat),
    {
        let mut m = "[".to_string();
        let marks = text::repeat('#', filled);
        m.append(marks.as_str());
        let empty: usize = if filled < WIDTH {
            WIDTH - filled
        } else {
            0
        };
        let dashes = text::repeat('-', empty);
        m.append(dashes.as_str());
        m.append("]");
        m.append(" ");
        let started = number::show_usize(self.started);
        m.append(started.as_str());
        m.append("/");
        let total = number::show_usize(self.total);
        m.append(total.as_str());
        m.append(" files | ");
        let chunks = number::show_usize(self.chunks);
        m.append(chunks.as_str());
        m.append(" chunks");
        let mut failed = String::new();
        if self.failed > 0 {
            failed = " | ".to_string();
            let n = number::show_usize(self.failed);
            failed.append(n.as_str());
            failed.append(" failed");
        }
        m.append(failed.as_str());
        m.append(" | ");
        m.append(self.current.as_str());
        m.append(" (ESC: cancel)");
        m
    }
}

/// What indexing one file gave.
#[derive(Debug)]
pub struct FileStat {
    pub name: String,
    pub size_kb: u64,
    pub chunks: usize,
    pub chars: usize,
    /// The average number of characters per chunk, rounded to a whole number.
    pub average: String,
    pub ok: bool,
}

/// The number of files that were indexed.
pub open spec fn ok_count(stats: Seq<FileStat>) -> nat
    decreases stats.len(),
{
    if stats.len() == 0 {
        0
    } else {
        ok_count(stats.drop_last()) + (if stats.last().ok {
            1nat
        } else {
            0nat
        })
    }
}

/// The number of chunks of all files.
pub open spec fn chunk_sum(stats: Seq<FileStat>) -> nat
    decreases stats.len(),
{
    if stats.len() == 0 {
        0
    } else {
        chunk_sum(stats.drop_last()) + stats.last().chunks as nat
    }
}

/// The number of characters of all files.
pub open spec fn char_sum(stats: Seq<FileStat>) -> nat
    decreases stats.len(),
{
    if stats.len() == 0 {
        0
    } else {
        char_sum(stats.drop_last()) + stats.last().chars as nat
    }
}

/// The size of all files in kilobytes.
pub open spec fn size_sum(stats: Seq<FileStat>) -> nat
    decreases stats.len(),
{
    if stats.len() == 0 {
        0
    } else {
        size_sum(stats.drop_last()) + stats.last().size_kb as nat
    }
}

/// The sums over all files.
#[derive(Debug, Clone, Copy, PartialEq, Eq, Structural)]
pub struct Totals {
    pub ok: usize,
    pub chunks: usize,
    pub chars: usize,
    pub size_kb: u64,
}

/// Whether all sums fit into machine words.
pub open spec fn summable(stats: Seq<FileStat>) -> bool {
    chunk_sum(stats) <= usize::MAX && char_sum(stats) <= usize::MAX && size_sum(stats) <= u64::MAX
}

proof fn lemma_sums_grow(stats: Seq<FileStat>, k: int)
    requires
        0 <= k <= stats.len(),
    ensures
        ok_count(stats.take(k)) <= k,
        chunk_sum(stats.take(k)) <= chunk_sum(stats),
        char_sum(stats.take(k)) <= char_sum(stats),
        size_sum(stats.take(k)) <= size_sum(stats),
    decreases stats.len(),
{
    if k == stats.len() {
        assert(stats.take(k) =~= stats);
        if k > 0 {
            lemma_sums_grow(stats.drop_last(), k - 1);
            assert(stats.drop_last().take(k - 1) =~= stats.drop_last());
        }
    } else {
        lemma_sums_grow(stats.drop_last(), k);
        assert(stats.drop_last().take(k) =~= stats.take(k));
    }
}

/// One more file adds its chunks, its characters and its size to the sums, and one
/// to the files that were indexed where it was; no files sum up to nothing.
pub proof fn law_sums_add_up(stats: Seq<FileStat>, s: FileStat)
    ensures
        chunk_sum(stats.push(s)) == chunk_sum(stats) + s.chunks,
        char_sum(stats.push(s)) == char_sum(stats) + s.chars,
        size_sum(stats.push(s)) == size_sum(stats) + s.size_kb,
        ok_count(stats.push(s)) == ok_count(stats) + (if s.ok {
            1nat
        } else {
            0
        }),
        ok_count(stats) <= stats.len(),
        chunk_sum(Seq::empty()) == 0 && char_sum(Seq::empty()) == 0 && size_sum(Seq::empty()) == 0
            && ok_count(Seq::empty()) == 0,
{
    assert(stats.push(s).drop_last() =~= stats);
    lemma_sums_grow(stats, stats.len() as int);
    assert(stats.take(stats.len() as int) =~= stats);
}

/// The sums over all files, where they fit into machine words.
pub fn totals(stats: &Vec<FileStat>) -> (r: Option<Totals>)
    ensures
        match r {
            Some(t) => summable(stats@) && t.ok == ok_count(stats@) && t.chunks == chunk_sum(
                stats@,
            ) && t.chars == char_sum(stats@) && t.size_kb == size_sum(stats@),
            None => !summable(stats@),
        },
{
    let mut t = Totals { ok: 0, chunks: 0, chars: 0, size_kb: 0 };
    let mut i: usize = 0;
    assert(stats@.take(0) =~= Seq::<FileStat>::empty());
    while i < stats.len()
        invariant
            i <= stats@.len(),
            t.ok == ok_count(stats@.take(i as int)),
            t.ok <= i,
            t.chunks == chunk_sum(stats@.take(i as int)),
            t.chars == char_sum(stats@.take(i as int)),
            t.size_kb == size_sum(stats@.take(i as int)),
        decreases stats@.len() - i,
    {
        let s = &stats[i];
        assert(stats@.take(i + 1).drop_last() =~= stats@.take(i as int));
        proof {
            lemma_sums_grow(stats@, i + 1);
        }
        if s.chunks > usize::MAX - t.chunks || s.chars > usize::MAX - t.chars || s.size_kb
            > u64::MAX - t.size_kb {
            return None;
        }
        let ok: usize = if s.ok {
            t.ok + 1
        } else {
            t.ok
        };
        t = Totals {
            ok,
            chunks: t.chunks + s.chunks,
            chars: t.chars + s.chars,
            size_kb: t.size_kb + s.size_kb,
        };
        i += 1;
    }
    assert(stats@.take(i as int) =~= stats@);
    Some(t)
}

/// Whether a file name can be shown in the table: where it is longer than 42
/// bytes, its 41st byte must end a character.
pub open spec fn tabular(name: Seq<char>) -> bool {
    text::byte_count(name) > 42 ==> vstd::utf8::is_char_boundary(
        vstd::utf8::encode_utf8(name),
        41,
    )
}

/// A file name in the table: the first 41 bytes and an ellipsis where it is
/// longer than 42 bytes.
pub open spec fn table_name(name: Seq<char>) -> Seq<char> {
    if text::byte_count(name) > 42 {
        vstd::utf8::decode_utf8(vstd::utf8::encode_utf8(name).subrange(0, 41)) + "…"@
    } else {
        name
    }
}

/// Whether a file name can be shown in the table.
pub fn is_tabular(name: &str) -> (r: bool)
    ensures
        r == tabular(name@),
{
    text::byte_len(name) <= 42 || name.is_char_boundary(41)
}

/// A file name in the table.
fn show_name(name: &str) -> (r: String)
    requires
        tabular(name@),
    ensures
        r@ == table_name(name@),
{
    if text::byte_len(name) > 42 {
        let (head, _) = name.split_at(41);
        proof {
            vstd::utf8::encode_utf8_decode_utf8(head@);
            assert(vstd::utf8::encode_utf8(head@) =~= vstd::utf8::encode_utf8(name@).subrange(0, 41));
        }
        let mut m = head.to_owned();
        m.append("…");
        m
    } else {
        name.to_owned()
    }
}

/// One row of the table.
pub open spec fn table_row(s: FileStat) -> Seq<char> {
    let start = text::padded_end(table_name(s.name@), 44) + " "@ + text::padded_start(
        number::decimal(s.size_kb as nat),
        6,
    ) + " "@;
    if s.ok {
        start + text::padded_start(number::decimal(s.chunks as nat), 7) + " "@
            + text::padded_start(number::decimal(s.chars as nat), 8) + " "@ + text::padded_start(
            s.average@,
            6,
        )
    } else {
        start + text::padded_start("—"@, 7) + " "@ + text::padded_start("—"@, 8) + " "@
            + text::padded_start("—"@, 6) + "  FAIL"@
    }
}

/// The report on an indexing run.
pub open spec fn report_lines(stats: Seq<FileStat>) -> Seq<Seq<char>> {
    let head = seq![
        "\n"@ + number::decimal(stats.len()) + " files processed ("@ + number::decimal(
            ok_count(stats),
        ) + " ok, "@ + number::decimal((stats.len() - ok_count(stats)) as nat) + " failed), "@
            + number::decimal(chunk_sum(stats)) + " chunks, "@ + number::decimal(char_sum(stats))
            + " chars, "@ + number::decimal(size_sum(stats)) + " KB total.\n"@,
    ];
    if stats.len() == 0 {
        head
    } else {
        head + seq![
            text::padded_end("File"@, 44) + " "@ + text::padded_start("KB"@, 6) + " "@
                + text::padded_start("Chunks"@, 7) + " "@ + text::padded_start("Chars"@, 8) + " "@
                + text::padded_start("Avg/Ch"@, 6),
            text::repeated('─', 78),
        ] + Seq::new(stats.len(), |i: int| table_row(stats[i]))
    }
}

/// A beginning with five parts behind it begins with the beginning.
proof fn lemma_five_parts(
    start: Seq<char>,
    a: Seq<char>,
    b: Seq<char>,
    c: Seq<char>,
    d: Seq<char>,
    e: Seq<char>,
)
    ensures
        start + a + b + c + d + e == start + (a + b + c + d + e),
        start.is_prefix_of(start + a + b + c + d + e),
{
    let all = start + (a + b + c + d + e);
    assert(start + a + b + c + d + e =~= all);
    assert(all.subrange(0, start.len() as int) =~= start);
}

/// Every file has a row in the table, in their order, behind the summary and the
/// headings. The row begins with its name and its size; it shows the numbers of a
/// file that was indexed and says of one that was not that it failed.
pub proof fn law_every_file_has_a_row(stats: Seq<FileStat>, i: int)
    requires
        0 <= i < stats.len(),
    ensures
        report_lines(stats).len() == stats.len() + 3,
        ({
            let s = stats[i];
            let row = report_lines(stats)[i + 3];
            let start = text::padded_end(table_name(s.name@), 44) + " "@ + text::padded_start(
                number::decimal(s.size_kb as nat),
                6,
            ) + " "@;
            let numbers = text::padded_start(number::decimal(s.chunks as nat), 7) + " "@
                + text::padded_start(number::decimal(s.chars as nat), 8) + " "@
                + text::padded_start(s.average@, 6);
            &&& s.ok ==> row == start + numbers
            &&& !s.ok ==> start.is_prefix_of(row) && row.len() >= 6 && row.skip(row.len() - 6)
                == "  FAIL"@
        }),
{
    let s = stats[i];
    let row = report_lines(stats)[i + 3];
    assert(row == table_row(s));
    let start = text::padded_end(table_name(s.name@), 44) + " "@ + text::padded_start(
        number::decimal(s.size_kb as nat),
        6,
    ) + " "@;
    reveal_strlit("  FAIL");
    if s.ok {
        lemma_five_parts(
            start,
            text::padded_start(number::decimal(s.chunks as nat), 7),
            " "@,
            text::padded_start(number::decimal(s.chars as nat), 8),
            " "@,
            text::padded_start(s.average@, 6),
        );
    } else {
        let a = text::padded_start("—"@, 7);
        let c = text::padded_start("—"@, 8);
        let e = text::padded_start("—"@, 6);
        lemma_five_parts(start, a, " "@, c, " "@, e);
        let front = start + a + " "@ + c + " "@ + e;
        assert(row == front + "  FAIL"@);
        assert(row.skip(row.len() - 6) =~= "  FAIL"@);
        assert(start =~= row.subrange(0, start.len() as int)) by {
            assert(front.subrange(0, start.len() as int) =~= start);
            assert(row.subrange(0, start.len() as int) =~= front.subrange(0, start.len() as int));
        }
    }
}

/// The report begins with the number of files, of those that were indexed and of
/// those that were not.
pub proof fn law_the_report_counts_the_files(stats: Seq<FileStat>)
    ensures
        ("\n"@ + number::decimal(stats.len()) + " files processed ("@ + number::decimal(
            ok_count(stats),
        ) + " ok, "@ + number::decimal((stats.len() - ok_count(stats)) as nat)
            + " failed), "@).is_prefix_of(report_lines(stats)[0]),
{
    let counts = "\n"@ + number::decimal(stats.len()) + " files processed ("@ + number::decimal(
        ok_count(stats),
    ) + " ok, "@ + number::decimal((stats.len() - ok_count(stats)) as nat) + " failed), "@;
    let a = number::decimal(chunk_sum(stats));
    let c = number::decimal(char_sum(stats));
    let e = number::decimal(size_sum(stats));
    lemma_five_parts(counts, a, " chunks, "@, c, " chars, "@, e);
    let front = counts + a + " chunks, "@ + c + " chars, "@ + e;
    let head = report_lines(stats)[0];
    assert(head == front + " KB total.\n"@);
    assert(front.subrange(0, counts.len() as int) =~= counts);
    assert(head.subrange(0, counts.len() as int) =~= front.subrange(0, counts.len() as int));
}

/// A name that is short enough stands in the table as it is.
pub proof fn law_short_names_are_kept(name: Seq<char>)
    requires
        text::byte_count(name) <= 42,
    ensures
        table_name(name) == name,
        tabular(name),
{
}

/// Of a longer name the first 41 bytes are kept, with an ellipsis behind them.
pub proof fn law_long_names_are_cut(name: Seq<char>)
    requires
        text::byte_count(name) > 42,
        tabular(name),
    ensures
        table_name(name).len() > 0,
        table_name(name).last() == '…',
        vstd::utf8::encode_utf8(table_name(name).drop_last()) == vstd::utf8::encode_utf8(
            name,
        ).take(41),
{
    let bytes = vstd::utf8::encode_utf8(name);
    reveal_strlit("…");
    vstd::utf8::encode_utf8_valid_utf8(name);
    vstd::utf8::valid_utf8_split(bytes, 41);
    vstd::utf8::decode_utf8_encode_utf8(bytes.subrange(0, 41));
    let kept = vstd::utf8::decode_utf8(bytes.subrange(0, 41));
    assert(table_name(name).drop_last() =~= kept);
    assert(bytes.take(41) =~= bytes.subrange(0, 41));
}

/// An event can be counted exactly where no counter would pass what fits in a
/// machine word.
pub proof fn law_counters_must_fit(
    p: ProgressView,
    index: usize,
    total: usize,
    corpus: String,
    document: String,
)
    requires
        p.started <= usize::MAX && p.done <= usize::MAX && p.failed <= usize::MAX,
    ensures
        countable(p, ProgressEvent::FileStarted { index, total, corpus, document }) <==> index
            < usize::MAX,
        countable(p, ProgressEvent::FileStored) <==> p.done < usize::MAX,
        countable(p, ProgressEvent::FileFailed) <==> p.failed < usize::MAX,
        countable(p, ProgressEvent::ChunksEmbedded { done: total }),
        countable(p, ProgressEvent::Other),
{
}

/// One row of the table.
fn show_row(s: &FileStat) -> (r: String)
    requires
        tabular(s.name@),
    ensures
        r@ == table_row(*s),
{
    let name = show_name(s.name.as_str());
    let mut m = text::pad_end(name.as_str(), 44);
    m.append(" ");
    let size = number::show(s.size_kb);
    let size = text::pad_start(size.as_str(), 6);
    m.append(size.as_str());
    m.append(" ");
    if s.ok {
        let chunks = number::show_usize(s.chunks);
        let chunks = text::pad_start(chunks.as_str(), 7);
        m.append(chunks.as_str());
        m.append(" ");
        let chars = number::show_usize(s.chars);
        let chars = text::pad_start(chars.as_str(), 8);
        m.append(chars.as_str());
        m.append(" ");
        let average = text::pad_start(s.average.as_str(), 6);
        m.append(average.as_str());
    } else {
        let chunks = text::pad_start("—", 7);
        m.append(chunks.as_str());
        m.append(" ");
        let chars = text::pad_start("—", 8);
        m.append(chars.as_str());
        m.append(" ");
        let average = text::pad_start("—", 6);
        m.append(average.as_str());
        m.append("  FAIL");
    }
    m
}

/// The headings of the table.
fn show_headings() -> (r: String)
    ensures
        r@ == text::padded_end("File"@, 44) + " "@ + text::padded_start("KB"@, 6) + " "@
            + text::padded_start("Chunks"@, 7) + " "@ + text::padded_start("Chars"@, 8) + " "@
            + text::padded_start("Avg/Ch"@, 6),
{
    let mut m = text::pad_end("File", 44);
    m.append(" ");
    let kb = text::pad_start("KB", 6);
    m.append(kb.as_str());
    m.append(" ");
    let chunks = text::pad_start("Chunks", 7);
    m.append(chunks.as_str());
    m.append(" ");
    let chars = text::pad_start("Chars", 8);
    m.append(chars.as_str());
    m.append(" ");
    let average = text::pad_start("Avg/Ch", 6);
    m.append(average.as_str());
    m
}

/// The report on an indexing run, given its sums: how many files were indexed
/// and how many failed, and a table with one row per file.
pub fn index_report(stats: &Vec<FileStat>, t: &Totals) -> (r: Vec<String>)
    requires
        t.ok == ok_count(stats@),
        t.chunks == chunk_sum(stats@),
        t.chars == char_sum(stats@),
        t.size_kb == size_sum(stats@),
        forall|i: int| 0 <= i < stats@.len() ==> tabular((#[trigger] stats@[i]).name@),
    ensures
        text::texts(r@) == report_lines(stats@),
{
    proof {
        lemma_sums_grow(stats@, stats@.len() as int);
        assert(stats@.take(stats@.len() as int) =~= stats@);
    }
    let mut head = "\n".to_string();
    let n = number::show_usize(stats.len());
    head.append(n.as_str());
    head.append(" files processed (");
    let ok = number::show_usize(t.ok);
    head.append(ok.as_str());
    head.append(" ok, ");
    let failed = number::show_usize(stats.len() - t.ok);
    head.append(failed.as_str());
    head.append(" failed), ");
    let chunks = number::show_usize(t.chunks);
    head.append(chunks.as_str());
    head.append(" chunks, ");
    let chars = number::show_usize(t.chars);
    head.append(chars.as_str());
    head.append(" chars, ");
    let size = number::show(t.size_kb);
    head.append(size.as_str());
    head.append(" KB total.\n");
    let mut out: Vec<String> = Vec::new();
    out.push(head);
    if stats.len() == 0 {
        assert(text::texts(out@) =~= report_lines(stats@));
        return out;
    }
    out.push(show_headings());
    out.push(text::repeat('─', 78));
    let ghost want = report_lines(stats@);
    let mut i: usize = 0;
    while i < stats.len()
        invariant
            i <= stats@.len(),
            stats@.len() > 0,
            want == report_lines(stats@),
            out@.len() == i + 3,
            forall|j: int| 0 <= j < out@.len() ==> (#[trigger] out@[j])@ == want[j],
            forall|k: int| 0 <= k < stats@.len() ==> tabular((#[trigger] stats@[k]).name@),
        decreases stats@.len() - i,
    {
        let row = show_row(&stats[i]);
        assert(want[i + 3] == table_row(stats@[i as int]));
        out.push(row);
        i += 1;
    }
    assert(text::texts(out@) =~= want);
    out
}

} // verus!
