//! Document parsers: which of them are used, and whether the documents that
//! they produce are indexed.

use vstd::prelude::*;

use crate::backends;
use crate::backends::ParserInfo;
use crate::backends::ParserView;
use crate::text;

verus! {

/// The engines that can read a PDF file.
#[derive(Debug, Clone, Copy, PartialEq, Eq, Structural)]
pub enum PdfParserBackend {
    Unpdf,
    Sink,
    Extract,
    Internal,
    Vision,
}

/// The engines that can read an EPUB file.
#[derive(Debug, Clone, Copy, PartialEq, Eq, Structural)]
pub enum EpubParserBackend {
    Epub,
}

/// The engines in use.
#[derive(Debug, Clone, Copy, PartialEq, Eq, Structural)]
pub struct ParserState {
    pub pdf: PdfParserBackend,
    pub epub: EpubParserBackend,
}

/// What a `/parser` command leads to.
#[derive(Debug)]
pub enum ParserStep {
    /// These lines are shown.
    Say(Vec<String>),
    /// The PDF engine changed: the parser registry is rebuilt and the pipeline
    /// looked at.
    PdfSwapped { old: PdfParserBackend, new: PdfParserBackend },
    /// The EPUB engine was selected, which is the only one.
    EpubSwapped,
}

/// Whether `r` shows exactly these lines.
pub open spec fn says(r: ParserStep, lines: Seq<Seq<char>>) -> bool {
    r matches ParserStep::Say(v) && text::texts(v@) =~= lines
}

/// The name of a PDF engine in messages.
pub open spec fn pdf_name(b: PdfParserBackend) -> Seq<char> {
    match b {
        PdfParserBackend::Unpdf => "Unpdf"@,
        PdfParserBackend::Sink => "Sink"@,
        PdfParserBackend::Extract => "Extract"@,
        PdfParserBackend::Internal => "Internal"@,
        PdfParserBackend::Vision => "Vision"@,
    }
}

/// The PDF engine of a configuration: an unknown name means the extractor.
pub open spec fn configured_pdf(name: Seq<char>) -> PdfParserBackend {
    if name == "unpdf"@ {
        PdfParserBackend::Unpdf
    } else if name == "sink"@ {
        PdfParserBackend::Sink
    } else if name == "internal"@ {
        PdfParserBackend::Internal
    } else if name == "vision"@ {
        PdfParserBackend::Vision
    } else {
        PdfParserBackend::Extract
    }
}

/// The PDF engine that a name in lower case selects while the session runs.
pub open spec fn selectable_pdf(name: Seq<char>) -> Option<PdfParserBackend> {
    if name == "unpdf"@ {
        Some(PdfParserBackend::Unpdf)
    } else if name == "sink"@ {
        Some(PdfParserBackend::Sink)
    } else if name == "extract"@ {
        Some(PdfParserBackend::Extract)
    } else if name == "internal"@ {
        Some(PdfParserBackend::Internal)
    } else {
        None
    }
}

/// The names of the PDF engines of this build.
pub open spec fn pdf_names() -> Seq<Seq<char>> {
    seq!["unpdf"@, "sink"@, "extract"@, "internal"@]
}

/// The parser that a PDF engine stands for. An engine that is not part of this
/// build is replaced by the extractor.
pub open spec fn selected_parser(b: PdfParserBackend) -> Seq<char> {
    match b {
        PdfParserBackend::Unpdf => "unpdf"@,
        PdfParserBackend::Sink => "pdfsink"@,
        PdfParserBackend::Extract => "pdf-extract"@,
        PdfParserBackend::Internal => "sloppy-pdf"@,
        PdfParserBackend::Vision => "pdf-extract"@,
    }
}

/// The parser that is tried when the selected one fails.
pub open spec fn fallback_parser() -> Seq<char> {
    "sloppy-pdf"@
}

/// Whether a parser stays in the registry: all that read no PDF files, and of
/// the others the selected one and the fallback.
pub open spec fn keeps(b: PdfParserBackend, p: ParserView) -> bool {
    p.extensions.contains("pdf"@) ==> p.name == selected_parser(b) || p.name == fallback_parser()
}

/// The parsers that stay, in their order.
pub open spec fn kept(list: Seq<ParserView>, b: PdfParserBackend) -> Seq<ParserView>
    decreases list.len(),
{
    if list.len() == 0 {
        list
    } else {
        let before = kept(list.drop_last(), b);
        if keeps(b, list.last()) {
            before.push(list.last())
        } else {
            before
        }
    }
}

/// The name of the first parser that reads files with an extension.
pub open spec fn primary(list: Seq<ParserView>, ext: Seq<char>) -> Option<Seq<char>>
    decreases list.len(),
{
    if list.len() == 0 {
        None
    } else if list[0].extensions.contains(ext) {
        Some(list[0].name)
    } else {
        primary(list.drop_first(), ext)
    }
}

/// The name of the first parser that reads files with an extension, empty
/// where there is none.
pub open spec fn primary_or_empty(list: Seq<ParserView>, ext: Seq<char>) -> Seq<char> {
    backends::or_default(primary(list, ext), Seq::empty())
}

/// Selecting a PDF engine takes no parser of another format away.
pub proof fn law_other_formats_are_kept(list: Seq<ParserView>, b: PdfParserBackend, i: int)
    requires
        0 <= i < list.len(),
        !list[i].extensions.contains("pdf"@),
    ensures
        kept(list, b).contains(list[i]),
    decreases list.len(),
{
    let before = list.drop_last();
    if i < before.len() {
        law_other_formats_are_kept(before, b, i);
        let k = choose|k: int| 0 <= k < kept(before, b).len() && kept(before, b)[k] == before[i];
        assert(kept(list, b)[k] == list[i]);
    } else {
        assert(kept(list, b).last() == list[i]);
    }
}

/// Of the parsers of this build the one that was selected is the first to
/// read PDF files.
pub proof fn law_selected_parser_comes_first(b: PdfParserBackend)
    ensures
        primary(kept(backends::parser_list(), b), "pdf"@) == Some(selected_parser(b)),
{
    reveal_strlit("unpdf");
    reveal_strlit("pdfsink");
    reveal_strlit("pdf-extract");
    reveal_strlit("sloppy-pdf");
    reveal_strlit("pdf");
    let list = backends::parser_list();
    let ext = seq!["pdf"@];
    assert(ext[0] == "pdf"@);
    assert(ext.contains("pdf"@));
    let k = kept(list, b);
    lemma_kept_prefix(list, b, 4);
    let four = list.take(4);
    reveal_with_fuel(kept, 5);
    assert(four.drop_last().drop_last().drop_last().drop_last() =~= Seq::<ParserView>::empty());
    assert(four.drop_last().drop_last().drop_last() =~= seq![backends::pdf_parser("unpdf"@)]);
    assert(four.drop_last().drop_last() =~= seq![
        backends::pdf_parser("unpdf"@),
        backends::pdf_parser("pdfsink"@),
    ]);
    assert(four.drop_last() =~= seq![
        backends::pdf_parser("unpdf"@),
        backends::pdf_parser("pdfsink"@),
        backends::pdf_parser("pdf-extract"@),
    ]);
    let first = kept(four, b);
    assert(first.len() > 0);
    assert(first[0].name == selected_parser(b));
    assert(first[0].extensions == ext);
    assert(k[0] == first[0]);
}

/// Each engine is selected under its own name, while the session runs and in a
/// configuration, and then its own parser is the first to read PDF files.
pub proof fn law_engines_have_their_names_and_parsers()
    ensures
        selectable_pdf("unpdf"@) == Some(PdfParserBackend::Unpdf),
        selectable_pdf("sink"@) == Some(PdfParserBackend::Sink),
        selectable_pdf("extract"@) == Some(PdfParserBackend::Extract),
        selectable_pdf("internal"@) == Some(PdfParserBackend::Internal),
        configured_pdf("unpdf"@) == PdfParserBackend::Unpdf,
        configured_pdf("sink"@) == PdfParserBackend::Sink,
        configured_pdf("extract"@) == PdfParserBackend::Extract,
        configured_pdf("internal"@) == PdfParserBackend::Internal,
        configured_pdf("vision"@) == PdfParserBackend::Vision,
        primary(kept(backends::parser_list(), PdfParserBackend::Unpdf), "pdf"@) == Some("unpdf"@),
        primary(kept(backends::parser_list(), PdfParserBackend::Sink), "pdf"@) == Some("pdfsink"@),
        primary(kept(backends::parser_list(), PdfParserBackend::Extract), "pdf"@) == Some(
            "pdf-extract"@,
        ),
        primary(kept(backends::parser_list(), PdfParserBackend::Internal), "pdf"@) == Some(
            "sloppy-pdf"@,
        ),
        primary(kept(backends::parser_list(), PdfParserBackend::Vision), "pdf"@) == Some(
            "pdf-extract"@,
        ),
{
    law_selected_parser_comes_first(PdfParserBackend::Vision);
    reveal_strlit("unpdf");
    reveal_strlit("sink");
    reveal_strlit("extract");
    reveal_strlit("internal");
    reveal_strlit("vision");
    assert("unpdf"@.len() == 5 && "sink"@.len() == 4 && "extract"@.len() == 7 && "internal"@.len()
        == 8 && "vision"@.len() == 6);
    law_selected_parser_comes_first(PdfParserBackend::Unpdf);
    law_selected_parser_comes_first(PdfParserBackend::Sink);
    law_selected_parser_comes_first(PdfParserBackend::Extract);
    law_selected_parser_comes_first(PdfParserBackend::Internal);
}

/// A name means the same engine in a configuration and while the session runs, and
/// no other name selects one then; a configuration with any other name has the
/// extractor, but for the one engine that this build does not have.
pub proof fn law_names_mean_the_same_engine(name: Seq<char>)
    ensures
        selectable_pdf(name) matches Some(b) ==> configured_pdf(name) == b,
        selectable_pdf(name) is None && name != "vision"@ ==> configured_pdf(name)
            == PdfParserBackend::Extract,
        selectable_pdf(name) is Some <==> pdf_names().contains(name),
        selectable_pdf(name) matches Some(b) ==> text::same_ignoring_case(pdf_name(b), name),
{
    reveal_strlit("unpdf");
    reveal_strlit("sink");
    reveal_strlit("extract");
    reveal_strlit("internal");
    reveal_strlit("vision");
    reveal_strlit("Unpdf");
    reveal_strlit("Sink");
    reveal_strlit("Extract");
    reveal_strlit("Internal");
    assert("unpdf"@.len() == 5 && "sink"@.len() == 4 && "extract"@.len() == 7 && "internal"@.len()
        == 8 && "vision"@.len() == 6);
    let names = pdf_names();
    assert(names[0] == "unpdf"@ && names[1] == "sink"@ && names[2] == "extract"@ && names[3]
        == "internal"@);
    assert(names.contains(names[0]) && names.contains(names[1]) && names.contains(names[2])
        && names.contains(names[3]));
    assert(text::ascii_lowered("Unpdf"@) =~= text::ascii_lowered("unpdf"@));
    assert(text::ascii_lowered("Sink"@) =~= text::ascii_lowered("sink"@));
    assert(text::ascii_lowered("Extract"@) =~= text::ascii_lowered("extract"@));
    assert(text::ascii_lowered("Internal"@) =~= text::ascii_lowered("internal"@));
}

/// What stays of the parsers is among them, in the same order, and whatever reads
/// no PDF files stays; of the rest the fallback stays, so that a PDF file can
/// always be read.
pub proof fn law_some_parser_reads_every_format(b: PdfParserBackend, p: ParserView)
    ensures
        kept(backends::parser_list(), b).contains(p) ==> backends::parser_list().contains(p) && (
        p.extensions.contains("pdf"@) ==> p.name == "sloppy-pdf"@ || primary(
            kept(backends::parser_list(), b),
            "pdf"@,
        ) == Some(p.name)),
        kept(backends::parser_list(), b).contains(backends::pdf_parser("sloppy-pdf"@)),
{
    let list = backends::parser_list();
    law_selected_parser_comes_first(b);
    if kept(list, b).contains(p) {
        lemma_kept_is_from(list, b, p);
    }
    lemma_keeps_what_it_keeps(list, b, 3);
}

proof fn lemma_kept_is_from(list: Seq<ParserView>, b: PdfParserBackend, p: ParserView)
    requires
        kept(list, b).contains(p),
    ensures
        list.contains(p),
        keeps(b, p),
    decreases list.len(),
{
    if list.len() > 0 {
        let before = list.drop_last();
        let k = kept(list, b);
        let i = choose|i: int| 0 <= i < k.len() && k[i] == p;
        if i < kept(before, b).len() {
            assert(kept(before, b)[i] == p);
            lemma_kept_is_from(before, b, p);
            let j = choose|j: int| 0 <= j < before.len() && before[j] == p;
            assert(list[j] == p);
        } else {
            assert(list[list.len() - 1] == p);
        }
    }
}

proof fn lemma_keeps_what_it_keeps(list: Seq<ParserView>, b: PdfParserBackend, i: int)
    requires
        0 <= i < list.len(),
        keeps(b, list[i]),
    ensures
        kept(list, b).contains(list[i]),
    decreases list.len(),
{
    let before = list.drop_last();
    if i < before.len() {
        lemma_keeps_what_it_keeps(before, b, i);
        let k = choose|k: int| 0 <= k < kept(before, b).len() && kept(before, b)[k] == before[i];
        assert(kept(list, b)[k] == list[i]);
    } else {
        assert(kept(list, b)[kept(list, b).len() - 1] == list[i]);
    }
}

/// The first parser that reads a format is one that reads it, and no parser before
/// it does; there is one exactly where some parser reads the format.
pub proof fn law_the_first_reader_counts(list: Seq<ParserView>, ext: Seq<char>)
    ensures
        match primary(list, ext) {
            Some(name) => exists|i: int|
                0 <= i < list.len() && (#[trigger] list[i]).name == name
                    && list[i].extensions.contains(ext) && (forall|j: int|
                    0 <= j < i ==> !(#[trigger] list[j]).extensions.contains(ext)),
            None => forall|i: int|
                0 <= i < list.len() ==> !(#[trigger] list[i]).extensions.contains(ext),
        },
    decreases list.len(),
{
    if list.len() > 0 {
        if list[0].extensions.contains(ext) {
            assert(list[0].name == list[0].name);
        } else {
            let rest = list.drop_first();
            law_the_first_reader_counts(rest, ext);
            if let Some(name) = primary(rest, ext) {
                let i = choose|i: int|
                    0 <= i < rest.len() && (#[trigger] rest[i]).name == name
                        && rest[i].extensions.contains(ext) && (forall|j: int|
                        0 <= j < i ==> !(#[trigger] rest[j]).extensions.contains(ext));
                assert(list[i + 1].name == name);
                assert forall|j: int| 0 <= j < i + 1 implies !(
                #[trigger] list[j]).extensions.contains(ext) by {
                    if j > 0 {
                        assert(list[j] == rest[j - 1]);
                    }
                }
            } else {
                assert forall|i: int| 0 <= i < list.len() implies !(
                #[trigger] list[i]).extensions.contains(ext) by {
                    if i > 0 {
                        assert(list[i] == rest[i - 1]);
                    }
                }
            }
        }
    }
}

/// What stays of the first parsers is the beginning of what stays of all.
proof fn lemma_kept_prefix(list: Seq<ParserView>, b: PdfParserBackend, n: int)
    requires
        0 <= n <= list.len(),
    ensures
        kept(list.take(n), b).is_prefix_of(kept(list, b)),
    decreases list.len(),
{
    if n == list.len() {
        assert(list.take(n) =~= list);
    } else {
        lemma_kept_prefix(list.drop_last(), b, n);
        assert(list.drop_last().take(n) =~= list.take(n));
    }
}

/// The names of the PDF engines of this build, for usage messages.
pub fn pdf_backend_names() -> (r: Vec<String>)
    ensures
        text::texts(r@) == pdf_names(),
{
    vec![
        "unpdf".to_string(),
        "sink".to_string(),
        "extract".to_string(),
        "internal".to_string(),
    ]
}

/// The name of a PDF engine in messages.
pub fn pdf_backend_name(b: PdfParserBackend) -> (r: &'static str)
    ensures
        r@ == pdf_name(b),
{
    match b {
        PdfParserBackend::Unpdf => "Unpdf",
        PdfParserBackend::Sink => "Sink",
        PdfParserBackend::Extract => "Extract",
        PdfParserBackend::Internal => "Internal",
        PdfParserBackend::Vision => "Vision",
    }
}

/// The PDF engine of a configuration.
pub fn configured_pdf_parser(name: &str) -> (r: PdfParserBackend)
    ensures
        r == configured_pdf(name@),
{
    if text::same(name, "unpdf") {
        PdfParserBackend::Unpdf
    } else if text::same(name, "sink") {
        PdfParserBackend::Sink
    } else if text::same(name, "internal") {
        PdfParserBackend::Internal
    } else if text::same(name, "vision") {
        PdfParserBackend::Vision
    } else {
        PdfParserBackend::Extract
    }
}

/// Whether a parser stays in the registry when a PDF engine is selected.
pub fn keeps_parser(pdf: PdfParserBackend, parser: &ParserInfo) -> (r: bool)
    ensures
        r == keeps(pdf, parser@),
{
    if !text::contains(&parser.extensions, "pdf") {
        return true;
    }
    let selected = match pdf {
        PdfParserBackend::Unpdf => "unpdf",
        PdfParserBackend::Sink => "pdfsink",
        PdfParserBackend::Extract => "pdf-extract",
        PdfParserBackend::Internal => "sloppy-pdf",
        PdfParserBackend::Vision => "pdf-extract",
    };
    text::same(parser.name.as_str(), selected) || text::same(parser.name.as_str(), "sloppy-pdf")
}

/// The parsers of a registry in which a PDF engine is selected: that engine
/// comes first for PDF files, with the fallback behind it.
pub fn filtered_parsers(pdf: PdfParserBackend) -> (r: Vec<ParserInfo>)
    ensures
        backends::parser_views(r@) == kept(backends::parser_list(), pdf),
{
    let list = backends::built_parsers();
    let ghost all = backends::parser_views(list@);
    let mut out: Vec<ParserInfo> = Vec::new();
    let mut i: usize = 0;
    assert(all.take(0) =~= Seq::<ParserView>::empty());
    assert(backends::parser_views(out@) =~= Seq::<ParserView>::empty());
    while i < list.len()
        invariant
            i <= list@.len(),
            all == backends::parser_views(list@),
            backends::parser_views(out@) == kept(all.take(i as int), pdf),
        decreases list@.len() - i,
    {
        assert(all.take(i + 1).drop_last() =~= all.take(i as int));
        assert(all.take(i + 1).last() == list@[i as int]@);
        if keeps_parser(pdf, &list[i]) {
            let ghost before = backends::parser_views(out@);
            out.push(list[i].copy());
            assert(backends::parser_views(out@) =~= before.push(list@[i as int]@));
        }
        i += 1;
    }
    assert(all.take(i as int) =~= all);
    out
}

/// The name of the first parser of a registry that reads files with an
/// extension.
pub fn primary_name_for(parsers: &Vec<ParserInfo>, ext: &str) -> (r: Option<String>)
    ensures
        text::opt_text(r) == primary(backends::parser_views(parsers@), ext@),
{
    let ghost all = backends::parser_views(parsers@);
    let mut i: usize = 0;
    assert(all.skip(0) =~= all);
    while i < parsers.len()
        invariant
            i <= parsers@.len(),
            all == backends::parser_views(parsers@),
            primary(all, ext@) == primary(all.skip(i as int), ext@),
        decreases parsers@.len() - i,
    {
        assert(all.skip(i as int)[0] == parsers@[i as int]@);
        if text::contains(&parsers[i].extensions, ext) {
            return Some(parsers[i].name.clone());
        }
        assert(all.skip(i as int).drop_first() =~= all.skip(i + 1));
        i += 1;
    }
    assert(all.skip(i as int) =~= Seq::<ParserView>::empty());
    None
}

/// What selecting an engine for a format leads to; format and engine are given
/// in lower case.
pub open spec fn chooses(
    old_state: ParserState,
    new_state: ParserState,
    format: Seq<char>,
    choice: Seq<char>,
    r: ParserStep,
) -> bool {
    if format == "pdf"@ {
        match selectable_pdf(choice) {
            Some(b) => new_state == (ParserState { pdf: b, ..old_state }) && r
                == (ParserStep::PdfSwapped { old: old_state.pdf, new: b }),
            None => new_state == old_state && says(
                r,
                seq![
                    "Unknown PDF parser: "@ + choice + ". Use "@ + text::joined(
                        pdf_names(),
                        ", "@,
                    ) + "."@,
                ],
            ),
        }
    } else if format == "epub"@ {
        if choice == "epub"@ {
            new_state == (ParserState { epub: EpubParserBackend::Epub, ..old_state }) && r
                == ParserStep::EpubSwapped
        } else {
            new_state == old_state && says(
                r,
                seq!["Unknown EPUB parser: "@ + choice + ". The only option is 'epub'."@],
            )
        }
    } else {
        new_state == old_state && says(
            r,
            seq!["Unknown format: "@ + format + ". Use pdf or epub."@],
        )
    }
}

/// What a `/parser` command leads to.
pub open spec fn parser_step(
    old_state: ParserState,
    new_state: ParserState,
    args: Seq<char>,
    r: ParserStep,
) -> bool {
    let w = text::words_of(args);
    let format = text::word_at(w, 0);
    let choice = text::word_at(w, 1);
    if format.len() == 0 {
        new_state == old_state && says(
            r,
            seq![
                "PDF:  "@ + pdf_name(old_state.pdf),
                "EPUB: Epub"@,
                "Usage: /parser pdf "@ + text::joined(pdf_names(), "|"@),
                "       /parser epub epub"@,
            ],
        )
    } else if choice.len() == 0 {
        new_state == old_state && says(r, seq!["Usage: /parser "@ + format + " <backend>"@])
    } else {
        chooses(
            old_state,
            new_state,
            text::lowercase_of(format),
            text::lowercase_of(choice),
            r,
        )
    }
}

/// `/parser pdf` with the name of an engine selects that engine and nothing else;
/// any other name, and any other format but EPUB, changes nothing.
pub proof fn law_parsers_are_selected_as_named(
    old_state: ParserState,
    new_state: ParserState,
    format: Seq<char>,
    choice: Seq<char>,
    r: ParserStep,
)
    requires
        text::is_word(format),
        text::is_word(choice),
        parser_step(old_state, new_state, format + " "@ + choice, r),
    ensures
        new_state.epub == old_state.epub,
        text::lowercase_of(format) != "pdf"@ ==> new_state == old_state,
        text::lowercase_of(format) == "pdf"@ && text::lowercase_of(choice) == "unpdf"@
            ==> new_state.pdf == PdfParserBackend::Unpdf,
        text::lowercase_of(format) == "pdf"@ && text::lowercase_of(choice) == "sink"@
            ==> new_state.pdf == PdfParserBackend::Sink,
        text::lowercase_of(format) == "pdf"@ && text::lowercase_of(choice) == "extract"@
            ==> new_state.pdf == PdfParserBackend::Extract,
        text::lowercase_of(format) == "pdf"@ && text::lowercase_of(choice) == "internal"@
            ==> new_state.pdf == PdfParserBackend::Internal,
        r is Say ==> new_state == old_state,
        r matches ParserStep::PdfSwapped { old, new } ==> old == old_state.pdf && new
            == new_state.pdf && text::lowercase_of(format) == "pdf"@,
        text::lowercase_of(format) == "pdf"@ ==> (r is PdfSwapped <==> pdf_names().contains(
            text::lowercase_of(choice),
        )),
        text::lowercase_of(format) == "epub"@ ==> (r is EpubSwapped <==> text::lowercase_of(choice)
            == "epub"@),
        text::lowercase_of(format) != "pdf"@ && text::lowercase_of(format) != "epub"@ ==> r is Say,
{
    reveal_strlit("pdf");
    reveal_strlit("epub");
    assert("pdf"@.len() != "epub"@.len());
    text::lemma_few_words(format, choice, Seq::empty());
    law_engines_have_their_names_and_parsers();
    law_names_mean_the_same_engine(text::lowercase_of(choice));
}

impl ParserState {
    /// Selects an engine for a format; both are given in lower case.
    pub fn choose_parser(&mut self, format: &str, choice: &str) -> (r: ParserStep)
        ensures
            chooses(*old(self), *final(self), format@, choice@, r),
    {
        if text::same(format, "pdf") {
            let new = if text::same(choice, "unpdf") {
                PdfParserBackend::Unpdf
            } else if text::same(choice, "sink") {
                PdfParserBackend::Sink
            } else if text::same(choice, "extract") {
                PdfParserBackend::Extract
            } else if text::same(choice, "internal") {
                PdfParserBackend::Internal
            } else {
                let mut m = "Unknown PDF parser: ".to_string();
                m.append(choice);
                m.append(". Use ");
                let names = text::join(&pdf_backend_names(), ", ");
                m.append(names.as_str());
                m.append(".");
                return ParserStep::Say(vec![m]);
            };
            let before = self.pdf;
            self.pdf = new;
            ParserStep::PdfSwapped { old: before, new }
        } else if text::same(format, "epub") {
            if text::same(choice, "epub") {
                self.epub = EpubParserBackend::Epub;
                ParserStep::EpubSwapped
            } else {
                let mut m = "Unknown EPUB parser: ".to_string();
                m.append(choice);
                m.append(". The only option is 'epub'.");
                ParserStep::Say(vec![m])
            }
        } else {
            let mut m = "Unknown format: ".to_string();
            m.append(format);
            m.append(". Use pdf or epub.");
            ParserStep::Say(vec![m])
        }
    }

    /// `/parser [pdf|epub] [engine]`: shows the engines or selects one.
    pub fn cmd_parser(&mut self, args: &str) -> (r: ParserStep)
        ensures
            parser_step(*old(self), *final(self), args@, r),
    {
        let w = text::words(args);
        let format = text::word(&w, 0);
        if format.as_str().is_empty() {
            let mut pdf = "PDF:  ".to_string();
            pdf.append(pdf_backend_name(self.pdf));
            let mut usage = "Usage: /parser pdf ".to_string();
            let names = text::join(&pdf_backend_names(), "|");
            usage.append(names.as_str());
            return ParserStep::Say(
                vec![
                    pdf,
                    "EPUB: Epub".to_string(),
                    usage,
                    "       /parser epub epub".to_string(),
                ],
            );
        }
        let choice = text::word(&w, 1);
        if choice.as_str().is_empty() {
            let mut m = "Usage: /parser ".to_string();
            m.append(format.as_str());
            m.append(" <backend>");
            return ParserStep::Say(vec![m]);
        }
        let lower_format = format.as_str().to_lowercase();
        let lower_choice = choice.as_str().to_lowercase();
        self.choose_parser(lower_format.as_str(), lower_choice.as_str())
    }
}

/// The extensions without repetitions, in the order in which they first occur.
pub open spec fn distinct(exts: Seq<Seq<char>>) -> Seq<Seq<char>>
    decreases exts.len(),
{
    if exts.len() == 0 {
        exts
    } else {
        let before = distinct(exts.drop_last());
        if before.contains(exts.last()) {
            before
        } else {
            before.push(exts.last())
        }
    }
}

/// The list of formats names every extension once and no other.
pub proof fn law_formats_are_the_extensions(exts: Seq<Seq<char>>)
    ensures
        distinct(exts).no_duplicates(),
        forall|e: Seq<char>| distinct(exts).contains(e) <==> exts.contains(e),
    decreases exts.len(),
{
    if exts.len() > 0 {
        let before = exts.drop_last();
        law_formats_are_the_extensions(before);
        let d = distinct(before);
        assert forall|e: Seq<char>| distinct(exts).contains(e) <==> exts.contains(e) by {
            if exts.contains(e) {
                let i = choose|i: int| 0 <= i < exts.len() && exts[i] == e;
                if i < before.len() {
                    assert(before[i] == e);
                    assert(before.contains(e));
                    let k = choose|k: int| 0 <= k < d.len() && d[k] == e;
                    assert(distinct(exts)[k] == e);
                } else if !d.contains(e) {
                    assert(distinct(exts).last() == e);
                }
            }
            if distinct(exts).contains(e) {
                let k = choose|k: int| 0 <= k < distinct(exts).len() && distinct(exts)[k] == e;
                if k < d.len() {
                    assert(d[k] == e);
                    assert(before.contains(e));
                    let i = choose|i: int| 0 <= i < before.len() && before[i] == e;
                    assert(exts[i] == e);
                } else {
                    assert(exts[exts.len() - 1] == e);
                }
            }
        }
    }
}

/// The formats come in the order in which their extensions first occur: one more
/// extension stands behind the others where it is new and changes nothing where it
/// is not.
pub proof fn law_formats_come_in_order(exts: Seq<Seq<char>>, e: Seq<char>)
    ensures
        exts.contains(e) ==> distinct(exts.push(e)) == distinct(exts),
        !exts.contains(e) ==> distinct(exts.push(e)) == distinct(exts).push(e),
{
    law_formats_are_the_extensions(exts);
    assert(exts.push(e).drop_last() =~= exts);
}

/// The distinct file formats of a list of extensions.
pub fn distinct_formats(exts: &Vec<String>) -> (r: Vec<String>)
    ensures
        text::texts(r@) == distinct(text::texts(exts@)),
{
    let ghost all = text::texts(exts@);
    let mut out: Vec<String> = Vec::new();
    let mut i: usize = 0;
    assert(all.take(0) =~= Seq::<Seq<char>>::empty());
    assert(text::texts(out@) =~= Seq::<Seq<char>>::empty());
    while i < exts.len()
        invariant
            i <= exts@.len(),
            all == text::texts(exts@),
            text::texts(out@) == distinct(all.take(i as int)),
        decreases exts@.len() - i,
    {
        assert(all.take(i + 1).drop_last() =~= all.take(i as int));
        assert(all.take(i + 1).last() == exts@[i as int]@);
        if !text::contains(&out, exts[i].as_str()) {
            let ghost before = text::texts(out@);
            out.push(exts[i].clone());
            assert(text::texts(out@) =~= before.push(exts@[i as int]@));
        }
        i += 1;
    }
    assert(all.take(i as int) =~= all);
    out
}

/// The parsers of the formats, each the first that reads the format.
pub open spec fn parsers_of(list: Seq<ParserView>, formats: Seq<Seq<char>>) -> Seq<Seq<char>> {
    Seq::new(formats.len(), |i: int| primary_or_empty(list, formats[i]))
}

/// The parser of each format, empty where no parser reads it.
pub fn parsers_for(parsers: &Vec<ParserInfo>, formats: &Vec<String>) -> (r: Vec<String>)
    ensures
        text::texts(r@) == parsers_of(backends::parser_views(parsers@), text::texts(formats@)),
{
    let mut out: Vec<String> = Vec::new();
    let mut i: usize = 0;
    while i < formats.len()
        invariant
            i <= formats@.len(),
            out@.len() == i,
            forall|j: int|
                0 <= j < i ==> (#[trigger] out@[j])@ == primary_or_empty(
                    backends::parser_views(parsers@),
                    formats@[j]@,
                ),
        decreases formats@.len() - i,
    {
        match primary_name_for(parsers, formats[i].as_str()) {
            Some(name) => out.push(name),
            None => out.push(String::new()),
        }
        i += 1;
    }
    assert(text::texts(out@) =~= parsers_of(
        backends::parser_views(parsers@),
        text::texts(formats@),
    ));
    out
}

/// The formats without indexed documents, each with its parser.
pub open spec fn missing(
    formats: Seq<Seq<char>>,
    parsers: Seq<Seq<char>>,
    counts: Seq<usize>,
) -> Seq<Seq<char>>
    decreases formats.len(),
{
    if formats.len() == 0 {
        Seq::empty()
    } else {
        let n = formats.len() - 1;
        let before = missing(formats.drop_last(), parsers, counts);
        if counts[n] == 0 {
            before.push(formats[n] + " ("@ + parsers[n] + ")"@)
        } else {
            before
        }
    }
}

/// The warning about formats without indexed documents, if there is such a
/// format.
pub open spec fn pipeline_warning_of(
    missing: Seq<Seq<char>>,
    chunker: Seq<char>,
    embedder: Seq<char>,
) -> Option<Seq<char>> {
    if missing.len() == 0 {
        None
    } else {
        Some(
            "Warning: no chunks indexed for "@ + text::joined(missing, ", "@) + " with chunker="@
                + chunker + ", embedder="@ + embedder
                + ". Run '/embed index' to build the index."@,
        )
    }
}

/// There is nothing to warn about exactly where every format has indexed
/// documents.
pub proof fn law_no_warning_means_everything_is_indexed(
    formats: Seq<Seq<char>>,
    parsers: Seq<Seq<char>>,
    counts: Seq<usize>,
    chunker: Seq<char>,
    embedder: Seq<char>,
)
    ensures
        pipeline_warning_of(missing(formats, parsers, counts), chunker, embedder) is None <==> (
        forall|i: int| 0 <= i < formats.len() ==> #[trigger] counts[i] > 0),
    decreases formats.len(),
{
    if formats.len() > 0 {
        let n = formats.len() - 1;
        law_no_warning_means_everything_is_indexed(
            formats.drop_last(),
            parsers,
            counts,
            chunker,
            embedder,
        );
        if missing(formats, parsers, counts).len() == 0 {
            assert(counts[n] > 0);
        }
    }
}

/// The warning names the formats without chunks, each with its parser, in their
/// order: one more format is named exactly where it has none.
pub proof fn law_the_warning_names_what_is_missing(
    formats: Seq<Seq<char>>,
    parsers: Seq<Seq<char>>,
    counts: Seq<usize>,
    format: Seq<char>,
    parser: Seq<char>,
    count: usize,
)
    requires
        parsers.len() == formats.len(),
        counts.len() == formats.len(),
    ensures
        count == 0 ==> missing(formats.push(format), parsers.push(parser), counts.push(count))
            == missing(formats, parsers, counts).push(format + " ("@ + parser + ")"@),
        count > 0 ==> missing(formats.push(format), parsers.push(parser), counts.push(count))
            == missing(formats, parsers, counts),
{
    assert(formats.push(format).drop_last() =~= formats);
    lemma_missing_looks_back(formats, parsers, counts, parser, count);
}

/// A warning has all that is missing in it, and the names of the chunking strategy
/// and the embedder that have no chunks of it.
pub proof fn law_the_warning_has_all_that_is_missing(
    formats: Seq<Seq<char>>,
    chunker: Seq<char>,
    embedder: Seq<char>,
)
    ensures
        pipeline_warning_of(formats, chunker, embedder) is Some <==> formats.len() > 0,
        formats.len() > 0 ==> pipeline_warning_of(formats, chunker, embedder) == Some(
            "Warning: no chunks indexed for "@ + text::joined(formats, ", "@) + " with chunker="@
                + chunker + ", embedder="@ + embedder
                + ". Run '/embed index' to build the index."@,
        ),
{
}

proof fn lemma_missing_looks_back(
    formats: Seq<Seq<char>>,
    parsers: Seq<Seq<char>>,
    counts: Seq<usize>,
    parser: Seq<char>,
    count: usize,
)
    requires
        formats.len() <= parsers.len(),
        formats.len() <= counts.len(),
    ensures
        missing(formats, parsers.push(parser), counts.push(count)) == missing(
            formats,
            parsers,
            counts,
        ),
    decreases formats.len(),
{
    if formats.len() > 0 {
        lemma_missing_looks_back(formats.drop_last(), parsers, counts, parser, count);
    }
}

/// Looks whether the documents of every format are indexed, given for each
/// format its parser and the number of chunks that the current pipeline stored:
/// the warning to print, or nothing where all is well.
pub fn pipeline_warning(
    formats: &Vec<String>,
    parsers: &Vec<String>,
    counts: &Vec<usize>,
    chunker: &str,
    embedder: &str,
) -> (r: Option<String>)
    requires
        parsers@.len() == formats@.len(),
        counts@.len() == formats@.len(),
    ensures
        text::opt_text(r) == pipeline_warning_of(
            missing(text::texts(formats@), text::texts(parsers@), counts@),
            chunker@,
            embedder@,
        ),
{
    let ghost fs = text::texts(formats@);
    let ghost ps = text::texts(parsers@);
    let mut out: Vec<String> = Vec::new();
    let mut i: usize = 0;
    assert(fs.take(0) =~= Seq::<Seq<char>>::empty());
    assert(text::texts(out@) =~= Seq::<Seq<char>>::empty());
    while i < formats.len()
        invariant
            i <= formats@.len(),
            parsers@.len() == formats@.len(),
            counts@.len() == formats@.len(),
            fs == text::texts(formats@),
            ps == text::texts(parsers@),
            text::texts(out@) == missing(fs.take(i as int), ps, counts@),
        decreases formats@.len() - i,
    {
        assert(fs.take(i + 1).drop_last() =~= fs.take(i as int));
        if counts[i] == 0 {
            let ghost before = text::texts(out@);
            let mut m = formats[i].clone();
            m.append(" (");
            m.append(parsers[i].as_str());
            m.append(")");
            let ghost v = m@;
            out.push(m);
            assert(text::texts(out@) =~= before.push(v));
        }
        i += 1;
    }
    assert(fs.take(i as int) =~= fs);
    if out.len() == 0 {
        return None;
    }
    let mut m = "Warning: no chunks indexed for ".to_string();
    let list = text::join(&out, ", ");
    m.append(list.as_str());
    m.append(" with chunker=");
    m.append(chunker);
    m.append(", embedder=");
    m.append(embedder);
    m.append(". Run '/embed index' to build the index.");
    Some(m)
}

/// Each format is given the first parser that reads it, and an empty name where
/// none does.
pub proof fn law_each_format_has_its_parser(
    list: Seq<ParserView>,
    formats: Seq<Seq<char>>,
    k: int,
    i: int,
)
    requires
        0 <= k < formats.len(),
    ensures
        parsers_of(list, formats).len() == formats.len(),
        0 <= i < list.len() && list[i].extensions.contains(formats[k]) && (forall|j: int|
            0 <= j < i ==> !(#[trigger] list[j]).extensions.contains(formats[k])) ==> parsers_of(
            list,
            formats,
        )[k] == list[i].name,
        (forall|j: int|
            0 <= j < list.len() ==> !(#[trigger] list[j]).extensions.contains(formats[k]))
            ==> parsers_of(list, formats)[k].len() == 0,
{
    law_the_first_reader_counts(list, formats[k]);
}

/// `/parser` alone shows the engine in use and changes nothing.
pub proof fn law_the_engine_in_use_is_shown(
    old_state: ParserState,
    new_state: ParserState,
    r: ParserStep,
)
    requires
        parser_step(old_state, new_state, Seq::empty(), r),
    ensures
        new_state == old_state,
        r matches ParserStep::Say(v) && v@.len() == 4 && v@[0]@ == "PDF:  "@ + pdf_name(
            old_state.pdf,
        ),
        pdf_name(PdfParserBackend::Unpdf) == "Unpdf"@,
        pdf_name(PdfParserBackend::Sink) == "Sink"@,
        pdf_name(PdfParserBackend::Extract) == "Extract"@,
        pdf_name(PdfParserBackend::Internal) == "Internal"@,
        pdf_name(PdfParserBackend::Vision) == "Vision"@,
{
    text::law_words_are_read_back(Seq::empty());
    assert(text::joined(Seq::<Seq<char>>::empty(), " "@) =~= Seq::<char>::empty());
    if let ParserStep::Say(v) = r {
        assert(text::texts(v@).len() == 4);
        assert(text::texts(v@)[0] == v@[0]@);
    }
}

/// The parser that reads a format, or what is said where none does.
pub open spec fn guarded(list: Seq<ParserView>, ext: Seq<char>) -> Result<Seq<char>, Seq<char>> {
    match primary(list, ext) {
        Some(name) => Ok(name),
        None => Err("No parser registered for ."@ + ext + " files"@),
    }
}

/// Documents of a format come under the first parser that reads it, and are
/// refused where no parser does.
pub proof fn law_a_format_needs_a_parser(list: Seq<ParserView>, ext: Seq<char>, i: int)
    requires
        0 <= i < list.len(),
    ensures
        list[i].extensions.contains(ext) && (forall|j: int|
            0 <= j < i ==> !(#[trigger] list[j]).extensions.contains(ext)) ==> guarded(list, ext)
            == Ok::<Seq<char>, Seq<char>>(list[i].name),
        guarded(list, ext) is Err ==> forall|j: int|
            0 <= j < list.len() ==> !(#[trigger] list[j]).extensions.contains(ext),
{
    law_the_first_reader_counts(list, ext);
}

/// Before documents of a format are added: the parser whose pipeline must
/// already have stored chunks, or the error where no parser reads the format.
pub fn guard_parser(parsers: &Vec<ParserInfo>, ext: &str) -> (r: Result<String, String>)
    ensures
        match guarded(backends::parser_views(parsers@), ext@) {
            Ok(name) => r matches Ok(p) && p@ == name,
            Err(m) => r matches Err(e) && e@ == m,
        },
{
    match primary_name_for(parsers, ext) {
        Some(name) => Ok(name),
        None => {
            let mut m = "No parser registered for .".to_string();
            m.append(ext);
            m.append(" files");
            Err(m)
        },
    }
}

/// A pipeline: parser, chunking strategy and embedder, with the number of chunks
/// that it has stored.
#[derive(Debug)]
pub struct Pipeline {
    pub parser: String,
    pub chunker: String,
    pub embedder: String,
    pub stored: usize,
}

/// The error where documents may not be added.
pub open spec fn not_indexed(
    what: Seq<char>,
    parser: Seq<char>,
    chunker: Seq<char>,
    embedder: Seq<char>,
) -> Seq<char> {
    "Cannot add "@ + what + ": no index exists for the current pipeline (parser="@ + parser
        + ", chunker="@ + chunker + ", embedder="@ + embedder + "). Run '/embed index' first."@
}

/// What the guard before new documents says, for that pipeline.
pub open spec fn verdict(what: Seq<char>, p: Pipeline) -> Result<(), Seq<char>> {
    if p.stored > 0 {
        Ok(())
    } else {
        Err(not_indexed(what, p.parser@, p.chunker@, p.embedder@))
    }
}

/// Whether documents may be added: only where the current pipeline has already
/// stored chunks.
pub fn guard_verdict(
    stored: usize,
    what: &str,
    parser: &str,
    chunker: &str,
    embedder: &str,
) -> (r: Result<(), String>)
    ensures
        if stored > 0 {
            r is Ok
        } else {
            r matches Err(e) && e@ == not_indexed(what@, parser@, chunker@, embedder@)
        },
{
    if stored > 0 {
        return Ok(());
    }
    let mut m = "Cannot add ".to_string();
    m.append(what);
    m.append(": no index exists for the current pipeline (parser=");
    m.append(parser);
    m.append(", chunker=");
    m.append(chunker);
    m.append(", embedder=");
    m.append(embedder);
    m.append("). Run '/embed index' first.");
    Err(m)
}

/// Documents may be added exactly where the pipeline has stored chunks.
pub proof fn law_documents_need_stored_chunks(what: Seq<char>, p: Pipeline)
    ensures
        verdict(what, p) is Ok <==> p.stored > 0,
{
}

/// Where documents are refused, what is said names them and the pipeline that has
/// no index.
pub proof fn law_refusals_name_the_pipeline(what: Seq<char>, p: Pipeline)
    requires
        p.stored == 0,
    ensures
        verdict(what, p) == Err::<(), Seq<char>>(
            "Cannot add "@ + what + ": no index exists for the current pipeline (parser="@
                + p.parser@ + ", chunker="@ + p.chunker@ + ", embedder="@ + p.embedder@
                + "). Run '/embed index' first."@,
        ),
{
}

impl Pipeline {
    /// Whether documents may be added under this pipeline.
    pub fn guard(&self, what: &str) -> (r: Result<(), String>)
        ensures
            match verdict(what@, *self) {
                Ok(()) => r is Ok,
                Err(e) => r matches Err(m) && m@ == e,
            },
    {
        guard_verdict(
            self.stored,
            what,
            self.parser.as_str(),
            self.chunker.as_str(),
            self.embedder.as_str(),
        )
    }
}

} // verus!
