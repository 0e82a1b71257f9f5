//! Academic papers: the results of a search, and how they are fetched.

use vstd::prelude::*;

use ragrig::PaperResult;

use crate::ansi;
use crate::number;
use crate::parsers;
use crate::parsers::Pipeline;
use crate::query::FoundChunk;
use crate::ranges;
use crate::text;

verus! {

/// A result of a search: a paper, or a document that is like another one.
#[derive(Debug)]
pub struct Paper {
    pub title: String,
    pub authors: Vec<String>,
    pub year: Option<i32>,
    pub arxiv_id: Option<String>,
    pub doi: Option<String>,
    pub pdf_url: Option<String>,
}

/// The authors of a paper for display: the first one and `et al.` where there
/// are more than three.
pub open spec fn authors_text(p: Paper) -> Seq<char> {
    let all = text::texts(p.authors@);
    if all.len() > 3 {
        all[0] + ", et al."@
    } else {
        text::joined(all, ", "@)
    }
}

/// The year of a paper for display.
pub open spec fn year_text(p: Paper) -> Seq<char> {
    match p.year {
        Some(y) => " ("@ + number::signed_decimal(y as int) + ")"@,
        None => Seq::empty(),
    }
}

/// Where a paper can be had: its own address, else the one that belongs to its
/// arXiv number, else nowhere.
pub open spec fn best_url(p: Paper) -> Seq<char> {
    match p.pdf_url {
        Some(url) => url@,
        None => match p.arxiv_id {
            Some(id) => "https://arxiv.org/pdf/"@ + id@ + ".pdf"@,
            None => Seq::empty(),
        },
    }
}

/// Whether a document is known by its address on the web.
pub open spec fn is_web_address(document: Seq<char>) -> bool {
    "http://"@.is_prefix_of(document) || "https://"@.is_prefix_of(document)
}

/// Whether `p` stands for the document of a chunk in the results of a search: it
/// has the name of the document as its title, and an address where that name is
/// one.
pub open spec fn stands_for(p: Paper, c: FoundChunk) -> bool {
    &&& p.title@ == c.document@
    &&& p.authors@.len() == 0
    &&& p.year is None
    &&& p.arxiv_id is None
    &&& p.doi is None
    &&& text::opt_text(p.pdf_url) == (if is_web_address(c.document@) {
        Some(c.document@)
    } else {
        None
    })
}

/// Whether `papers` stand for the chunks at the same positions.
pub open spec fn stand_for(papers: Seq<Paper>, chunks: Seq<FoundChunk>) -> bool {
    &&& papers.len() == chunks.len()
    &&& forall|i: int| 0 <= i < chunks.len() ==> stands_for(#[trigger] papers[i], chunks[i])
}

/// The results that stand for chunks.
pub fn results_of(chunks: &Vec<FoundChunk>) -> (r: Vec<Paper>)
    ensures
        stand_for(r@, chunks@),
{
    let mut out: Vec<Paper> = Vec::new();
    let mut i: usize = 0;
    while i < chunks.len()
        invariant
            i <= chunks@.len(),
            stand_for(out@, chunks@.take(i as int)),
        decreases chunks@.len() - i,
    {
        let document = &chunks[i].document;
        let on_the_web = text::starts_with(document.as_str(), "http://") || text::starts_with(
            document.as_str(),
            "https://",
        );
        let pdf_url = if on_the_web {
            Some(document.clone())
        } else {
            None
        };
        out.push(
            Paper {
                title: document.clone(),
                authors: Vec::new(),
                year: None,
                arxiv_id: None,
                doi: None,
                pdf_url,
            },
        );
        i += 1;
    }
    assert(chunks@.take(i as int) =~= chunks@);
    out
}

/// The short author list that `ragrig::PaperResult::format_authors` gives:
/// all names with commas between them, or the first one and `et al.` where
/// there are more than three.
#[verifier::external_body]
pub(crate) fn format_authors(p: &Paper) -> (r: String)
    ensures
        r@ == authors_text(*p),
{
    PaperResult {
        title: p.title.clone(),
        authors: p.authors.clone(),
        year: p.year,
        arxiv_id: p.arxiv_id.clone(),
        doi: p.doi.clone(),
        pdf_url: p.pdf_url.clone(),
    }.format_authors()
}

/// The year in brackets with a blank before it, or nothing, as
/// `ragrig::PaperResult::format_year` gives it.
#[verifier::external_body]
pub(crate) fn format_year(p: &Paper) -> (r: String)
    ensures
        r@ == year_text(*p),
{
    PaperResult {
        title: p.title.clone(),
        authors: p.authors.clone(),
        year: p.year,
        arxiv_id: p.arxiv_id.clone(),
        doi: p.doi.clone(),
        pdf_url: p.pdf_url.clone(),
    }.format_year()
}

/// The address that `ragrig::PaperResult::best_pdf_url` gives: the one of the
/// paper, else the one made of the arXiv number, else an empty one.
#[verifier::external_body]
pub(crate) fn best_pdf_url(p: &Paper) -> (r: String)
    ensures
        r@ == best_url(*p),
{
    PaperResult {
        title: p.title.clone(),
        authors: p.authors.clone(),
        year: p.year,
        arxiv_id: p.arxiv_id.clone(),
        doi: p.doi.clone(),
        pdf_url: p.pdf_url.clone(),
    }.best_pdf_url()
}

/// A number in brackets, at least two columns wide.
pub open spec fn bracketed(n: nat) -> Seq<char> {
    "  ["@ + text::padded_start(number::decimal(n), 2) + "] "@
}

/// The lines that list one paper.
pub open spec fn paper_lines(p: Paper, n: nat) -> Seq<Seq<char>> {
    let head = seq![bracketed(n) + p.title@ + " — "@ + authors_text(p) + year_text(p)];
    if best_url(p).len() > 0 {
        head.push("       /download "@ + best_url(p))
    } else {
        head
    }
}

/// The lines that list papers, numbered from one.
pub open spec fn listing(papers: Seq<Paper>) -> Seq<Seq<char>>
    decreases papers.len(),
{
    if papers.len() == 0 {
        Seq::empty()
    } else {
        listing(papers.drop_last()) + paper_lines(papers.last(), papers.len())
    }
}

/// What is shown after a search for papers.
pub open spec fn result_lines(papers: Seq<Paper>, heading: Seq<char>) -> Seq<Seq<char>> {
    if papers.len() == 0 {
        seq!["No papers found."@]
    } else {
        seq![heading] + listing(papers) + seq!["\nUse /download <url> to ingest any paper."@]
    }
}

/// One more paper is listed behind the others under the next number, with its
/// title, and with its address where it has one.
pub proof fn law_papers_are_listed_by_number(papers: Seq<Paper>, p: Paper)
    ensures
        listing(papers.push(p)).take(listing(papers).len() as int) == listing(papers),
        ({
            let line = listing(papers.push(p))[listing(papers).len() as int];
            ("  ["@ + text::padded_start(number::decimal(papers.len() + 1), 2) + "] "@ + p.title@
                + " — "@).is_prefix_of(line)
        }),
        listing(papers.push(p)).len() == listing(papers).len() + (if best_url(p).len() > 0 {
            2int
        } else {
            1
        }),
        best_url(p).len() > 0 ==> listing(papers.push(p))[(listing(papers).len() + 1) as int]
            == "       /download "@ + best_url(p),
        p.pdf_url matches Some(u) ==> best_url(p) == u@,
        p.pdf_url is None && p.arxiv_id is None ==> best_url(p).len() == 0,
        p.pdf_url is None ==> (p.arxiv_id matches Some(id) ==> best_url(p)
            == "https://arxiv.org/pdf/"@ + id@ + ".pdf"@),
{
    let more = papers.push(p);
    let n = listing(papers).len() as int;
    assert(more.drop_last() =~= papers);
    let lines = paper_lines(p, papers.len() + 1);
    assert(listing(more) == listing(papers) + lines);
    assert(listing(more).take(n) =~= listing(papers));
    let line = listing(more)[n];
    assert(line == lines[0]);
    let start = "  ["@ + text::padded_start(number::decimal(papers.len() + 1), 2) + "] "@ + p.title@
        + " — "@;
    assert(line =~= start + (authors_text(p) + year_text(p)));
    assert(line.subrange(0, start.len() as int) =~= start);
}

/// Every search that finds papers lists them all between a heading and a closing
/// line.
pub proof fn law_all_results_are_shown(papers: Seq<Paper>, heading: Seq<char>)
    requires
        papers.len() > 0,
    ensures
        result_lines(papers, heading).len() == listing(papers).len() + 2,
        result_lines(papers, heading)[0] == heading,
        result_lines(papers, heading).subrange(1, (listing(papers).len() + 1) as int) == listing(papers),
{
    assert(result_lines(papers, heading).subrange(1, (listing(papers).len() + 1) as int) =~= listing(
        papers,
    ));
}

/// More than three authors are the first one and a hint; up to three are all of
/// them.
pub proof fn law_long_author_lists_are_cut(p: Paper)
    ensures
        p.authors@.len() == 0 ==> authors_text(p).len() == 0,
        p.authors@.len() == 1 ==> authors_text(p) == p.authors@[0]@,
        p.authors@.len() == 2 ==> authors_text(p) == p.authors@[0]@ + ", "@ + p.authors@[1]@,
        p.authors@.len() == 3 ==> authors_text(p) == p.authors@[0]@ + ", "@ + p.authors@[1]@ + ", "@
            + p.authors@[2]@,
        p.authors@.len() > 3 ==> authors_text(p) == p.authors@[0]@ + ", et al."@,
        p.year is None ==> year_text(p).len() == 0,
        p.year matches Some(y) ==> (y >= 0 ==> year_text(p) == " ("@ + number::decimal(y as nat)
            + ")"@),
{
    let all = text::texts(p.authors@);
    if all.len() == 2 || all.len() == 3 {
        let two = seq![all[0], all[1]];
        assert(two.drop_last() =~= seq![all[0]]);
        assert(text::joined(seq![all[0]], ", "@) == all[0]);
        assert(text::joined(two, ", "@) == all[0] + ", "@ + all[1]);
        if all.len() == 2 {
            assert(all =~= two);
        } else {
            assert(all.drop_last() =~= two);
        }
    }
}

/// Lists the papers that a search found.
fn list_papers(papers: &Vec<Paper>, heading: &str) -> (r: Vec<String>)
    ensures
        text::texts(r@) == result_lines(papers@, heading@),
{
    let mut out: Vec<String> = Vec::new();
    if papers.len() == 0 {
        out.push("No papers found.".to_string());
        assert(text::texts(out@) =~= result_lines(papers@, heading@));
        return out;
    }
    out.push(heading.to_owned());
    let mut i: usize = 0;
    assert(papers@.take(0) =~= Seq::<Paper>::empty());
    assert(text::texts(out@) =~= seq![heading@] + listing(papers@.take(0)));
    while i < papers.len()
        invariant
            i <= papers@.len(),
            text::texts(out@) == seq![heading@] + listing(papers@.take(i as int)),
        decreases papers@.len() - i,
    {
        let p = &papers[i];
        let ghost upto = papers@.take(i + 1);
        assert(upto.drop_last() =~= papers@.take(i as int));
        let ghost before = text::texts(out@);
        let mut m = "  [".to_string();
        let digits = number::show(i as u64 + 1);
        let padded = text::pad_start(digits.as_str(), 2);
        m.append(padded.as_str());
        m.append("] ");
        m.append(p.title.as_str());
        m.append(" — ");
        let authors = format_authors(p);
        m.append(authors.as_str());
        let year = format_year(p);
        m.append(year.as_str());
        let ghost first = m@;
        out.push(m);
        assert(text::texts(out@) =~= before.push(first));
        let url = best_pdf_url(p);
        if !url.as_str().is_empty() {
            let mut d = "       /download ".to_string();
            d.append(url.as_str());
            let ghost second = d@;
            out.push(d);
            assert(text::texts(out@) =~= before.push(first).push(second));
        }
        assert(text::texts(out@) =~= before + paper_lines(*p, (i + 1) as nat));
        assert(text::texts(out@) =~= seq![heading@] + listing(upto));
        i += 1;
    }
    assert(papers@.take(i as int) =~= papers@);
    let ghost before = text::texts(out@);
    out.push("\nUse /download <url> to ingest any paper.".to_string());
    assert(text::texts(out@) =~= before + seq!["\nUse /download <url> to ingest any paper."@]);
    out
}

/// What is shown after a search at Semantic Scholar.
pub fn show_scholar_results(papers: &Vec<Paper>) -> (r: Vec<String>)
    ensures
        text::texts(r@) == result_lines(papers@, "\nResults:"@),
{
    list_papers(papers, "\nResults:")
}

/// What is shown after a search at arXiv.
pub fn show_arxiv_results(papers: &Vec<Paper>) -> (r: Vec<String>)
    ensures
        text::texts(r@) == result_lines(papers@, "\nResults (arXiv):"@),
{
    list_papers(papers, "\nResults (arXiv):")
}

/// What a `/scholar` or an `/arxiv` command leads to.
#[derive(Debug)]
pub enum PaperSearchStep {
    /// These lines are shown.
    Say(Vec<String>),
    /// Papers are searched for.
    Search(String),
}

/// What a `/scholar` command leads to.
pub open spec fn scholar_step(query: Seq<char>, r: PaperSearchStep) -> bool {
    if query.len() == 0 {
        r matches PaperSearchStep::Say(v) && text::texts(v@) =~= seq!["Usage: /scholar <query>"@]
    } else {
        r matches PaperSearchStep::Search(q) && q@ == query
    }
}

/// What an `/arxiv` command leads to.
pub open spec fn arxiv_step(query: Seq<char>, r: PaperSearchStep) -> bool {
    if query.len() == 0 {
        r matches PaperSearchStep::Say(v) && text::texts(v@) =~= seq!["Usage: /arxiv <query>"@]
    } else {
        r matches PaperSearchStep::Search(q) && q@ == query
    }
}

/// `/scholar <query>`.
pub fn cmd_search_scholar(query: &str) -> (r: PaperSearchStep)
    ensures
        scholar_step(query@, r),
{
    if query.is_empty() {
        PaperSearchStep::Say(vec!["Usage: /scholar <query>".to_string()])
    } else {
        PaperSearchStep::Search(query.to_owned())
    }
}

/// `/arxiv <query>`.
pub fn cmd_search_arxiv(query: &str) -> (r: PaperSearchStep)
    ensures
        arxiv_step(query@, r),
{
    if query.is_empty() {
        PaperSearchStep::Say(vec!["Usage: /arxiv <query>".to_string()])
    } else {
        PaperSearchStep::Search(query.to_owned())
    }
}

/// What a `/get` command leads to.
#[derive(Debug)]
pub enum GetStep {
    /// These lines are shown.
    Say(Vec<String>),
    /// The papers with these indices are fetched, provided that PDF files are
    /// indexed already.
    Fetch(Vec<usize>),
}

/// What a `/get` command leads to, after a search that found so many papers.
pub open spec fn get_step(range: Seq<char>, found: nat, r: GetStep) -> bool {
    if found == 0 {
        r matches GetStep::Say(v) && text::texts(v@) =~= seq![
            "No search results available. Run /scholar or /arxiv first."@,
        ]
    } else if range.len() == 0 {
        r matches GetStep::Say(v) && text::texts(v@) =~= seq!["Usage: /get 1,2,3-4,8"@]
    } else {
        match ranges::selection(range) {
            Ok(indices) => r matches GetStep::Fetch(v) && v@ == indices,
            Err(e) => r matches GetStep::Say(v) && text::texts(v@) =~= seq![
                "Invalid range: "@ + e,
            ],
        }
    }
}

/// After a search, a range selects the papers from its first to its last number,
/// one number the paper that is listed under it, and both with a comma between
/// them select the one and then the other. Without results nothing is selected.
pub proof fn law_papers_are_selected_by_number(a: nat, b: nat, n: nat, found: nat, r: GetStep)
    requires
        1 <= a <= b <= usize::MAX,
        1 <= n <= usize::MAX,
    ensures
        found > 0 && get_step(number::decimal(a) + seq!['-'] + number::decimal(b), found, r) ==> (
        r matches GetStep::Fetch(v) && v@.len() == b - a + 1 && (forall|i: int|
            0 <= i < v@.len() ==> #[trigger] v@[i] + 1 == a + i)),
        found > 0 && get_step(number::decimal(n), found, r) ==> (r matches GetStep::Fetch(v)
            && v@.len() == 1 && v@[0] + 1 == n),
        found > 0 && get_step(number::decimal(a) + seq![','] + number::decimal(n), found, r) ==> (
        r matches GetStep::Fetch(v) && v@.len() == 2 && v@[0] + 1 == a && v@[1] + 1 == n),
        found == 0 && get_step(number::decimal(n), found, r) ==> r is Say,
        found > 0 && get_step(number::decimal(0), found, r) ==> r is Say,
{
    let x = number::decimal(a);
    let y = number::decimal(n);
    ranges::law_hyphen_selects_all_between(a, b);
    ranges::law_listed_number_selects_its_entry((n - 1) as usize);
    ranges::law_listed_number_selects_its_entry((a - 1) as usize);
    ranges::law_comma_joins_selections(x, y);
    ranges::law_impossible_ranges_are_refused(0, 0);
    assert(x.push(',') + y =~= x + seq![','] + y);
    number::lemma_decimal_reads_back(n);
    number::lemma_decimal_reads_back(a);
    number::lemma_decimal_reads_back(0);
}

/// A search is for exactly what was asked, and for nothing where nothing was.
pub proof fn law_papers_are_searched_as_asked(query: Seq<char>, r: PaperSearchStep)
    ensures
        query.len() > 0 && (scholar_step(query, r) || arxiv_step(query, r)) ==> (
        r matches PaperSearchStep::Search(q) && q@ == query),
        query.len() == 0 && (scholar_step(query, r) || arxiv_step(query, r)) ==> r is Say,
{
}

/// `/get <numbers>`.
pub fn cmd_get_papers(range: &str, found: usize) -> (r: GetStep)
    ensures
        get_step(range@, found as nat, r),
        r matches GetStep::Fetch(v) ==> ranges::all_numbered(v@),
{
    if found == 0 {
        return GetStep::Say(
            vec!["No search results available. Run /scholar or /arxiv first.".to_string()],
        );
    }
    if range.is_empty() {
        return GetStep::Say(vec!["Usage: /get 1,2,3-4,8".to_string()]);
    }
    match ranges::parse_number_range(range) {
        Ok(indices) => GetStep::Fetch(indices),
        Err(e) => {
            let mut m = "Invalid range: ".to_string();
            m.append(e.as_str());
            GetStep::Say(vec![m])
        },
    }
}

/// The fetching of selected papers, one after the other.
#[derive(Debug)]
pub struct GetRun {
    indices: Vec<usize>,
    position: usize,
    downloaded: usize,
    failed: usize,
}

/// The mathematical value of a [`GetRun`].
pub struct RunView {
    /// The papers to fetch.
    pub indices: Seq<usize>,
    /// How many of them are dealt with.
    pub position: nat,
    pub downloaded: nat,
    pub failed: nat,
}

impl View for GetRun {
    type V = RunView;

    closed spec fn view(&self) -> RunView {
        RunView {
            indices: self.indices@,
            position: self.position as nat,
            downloaded: self.downloaded as nat,
            failed: self.failed as nat,
        }
    }
}

impl RunView {
    /// Every paper that was dealt with was downloaded or failed.
    pub open spec fn wf(self) -> bool {
        &&& ranges::all_numbered(self.indices)
        &&& self.position <= self.indices.len() <= usize::MAX
        &&& self.downloaded + self.failed == self.position
    }

    /// The run after the paper at its position failed.
    pub open spec fn after_failure(self) -> RunView {
        RunView { position: self.position + 1, failed: self.failed + 1, ..self }
    }

    /// The run after the paper at its position was downloaded.
    pub open spec fn after_download(self) -> RunView {
        RunView { position: self.position + 1, downloaded: self.downloaded + 1, ..self }
    }

    /// Whether papers are left.
    pub open spec fn is_open(self) -> bool {
        self.position < self.indices.len()
    }
}

/// What comes next in the fetching of papers.
#[derive(Debug)]
pub enum GetAction {
    /// The paper cannot be fetched, and this line says why.
    Say(String),
    /// The beginning of a line is shown, and the address is fetched.
    Fetch { label: String, url: String },
    /// All papers are dealt with, and this line sums up.
    Finished(String),
}

/// What comes next in the fetching of papers, and the run after it.
pub open spec fn get_action(
    before: RunView,
    after: RunView,
    papers: Seq<Paper>,
    r: GetAction,
) -> bool {
    if before.is_open() {
        let i = before.indices[before.position as int];
        let n = (i + 1) as nat;
        if i >= papers.len() {
            after == before.after_failure() && (r matches GetAction::Say(m) && m@
                == "  Skipping ["@ + number::decimal(n) + "]: out of range (max "@
                + number::decimal(papers.len()) + ")"@)
        } else {
            let p = papers[i as int];
            let url = ansi::stripped(best_url(p));
            if url.len() == 0 {
                after == before.after_failure() && (r matches GetAction::Say(m) && m@
                    == bracketed(n) + p.title@ + " — no download URL available"@)
            } else {
                after == before && (r matches GetAction::Fetch { label, url: u } && label@
                    == bracketed(n) + p.title@ + " ... "@ && u@ == url)
            }
        }
    } else {
        after == before && (r matches GetAction::Finished(m) && m@ == "Download complete: "@
            + number::decimal(before.downloaded) + " added, "@ + number::decimal(before.failed)
            + " failed, "@ + number::decimal(
            (before.indices.len() - before.downloaded - before.failed) as nat,
        ) + " skipped."@)
    }
}

/// The paper whose turn it is, is the one with the next selected number; its own
/// address is fetched, else the one of its arXiv number. A paper without an
/// address, and a number without a paper, count as failed at once.
pub proof fn law_the_next_paper_is_fetched(
    before: RunView,
    after: RunView,
    papers: Seq<Paper>,
    r: GetAction,
)
    requires
        before.is_open(),
        get_action(before, after, papers, r),
    ensures
        ({
            let i = before.indices[before.position as int] as int;
            &&& i >= papers.len() ==> (r matches GetAction::Say(m) && m@ == "  Skipping ["@
                + number::decimal((i + 1) as nat) + "]: out of range (max "@ + number::decimal(
                papers.len(),
            ) + ")"@)
            &&& i < papers.len() ==> (papers[i].pdf_url matches Some(u) ==> (u@.len() > 0
                && !u@.contains('\u{1b}') ==> (r matches GetAction::Fetch { url, .. } && url@
                == u@)))
            &&& i < papers.len() && papers[i].pdf_url is None ==> (papers[i].arxiv_id matches Some(
                id,
            ) ==> (!id@.contains('\u{1b}') ==> (r matches GetAction::Fetch { url, .. } && url@
                == "https://arxiv.org/pdf/"@ + id@ + ".pdf"@)))
            &&& i < papers.len() && papers[i].pdf_url is None && papers[i].arxiv_id is None ==> (
            r matches GetAction::Say(m) && m@ == bracketed((i + 1) as nat) + papers[i].title@
                + " — no download URL available"@)
        }),
        r is Fetch ==> after == before,
        r matches GetAction::Fetch { label, .. } ==> label@ == bracketed(
            (before.indices[before.position as int] + 1) as nat,
        ) + papers[before.indices[before.position as int] as int].title@ + " ... "@,
        r is Say ==> after.position == before.position + 1 && after.failed == before.failed + 1
            && after.downloaded == before.downloaded && after.indices == before.indices,
        !(r is Finished),
{
    let i = before.indices[before.position as int] as int;
    if i < papers.len() {
        let p = papers[i];
        if let Some(u) = p.pdf_url {
            if !u@.contains('\u{1b}') {
                lemma_plain(u@);
            }
        } else if let Some(id) = p.arxiv_id {
            if !id@.contains('\u{1b}') {
                let u = "https://arxiv.org/pdf/"@ + id@ + ".pdf"@;
                reveal_strlit("https://arxiv.org/pdf/");
                reveal_strlit(".pdf");
                if u.contains('\u{1b}') {
                    let k = choose|k: int| 0 <= k < u.len() && u[k] == '\u{1b}';
                    let n = "https://arxiv.org/pdf/"@.len() as int;
                    if k < n {
                        assert(u[k] == "https://arxiv.org/pdf/"@[k]);
                    } else if k < n + id@.len() {
                        assert(id@[k - n] == '\u{1b}');
                    } else {
                        assert(u[k] == ".pdf"@[k - n - id@.len()]);
                    }
                }
                lemma_plain(u);
            }
        } else {
            lemma_plain(best_url(p));
        }
    }
}

proof fn lemma_plain(s: Seq<char>)
    requires
        !s.contains('\u{1b}'),
    ensures
        ansi::stripped(s) == s,
{
    assert forall|i: int| !ansi::opens_at(s, i) by {
        if ansi::opens_at(s, i) {
            assert(s.contains(s[i]));
        }
    }
    ansi::law_plain_text_is_kept(s);
}

/// A paper that was fetched counts as added or as failed, once, and the next one
/// has its turn; what was selected stays.
pub proof fn law_each_paper_is_counted_once(run: RunView)
    ensures
        run.after_download().downloaded == run.downloaded + 1,
        run.after_download().failed == run.failed,
        run.after_download().position == run.position + 1,
        run.after_download().indices == run.indices,
        run.after_failure().failed == run.failed + 1,
        run.after_failure().downloaded == run.downloaded,
        run.after_failure().position == run.position + 1,
        run.after_failure().indices == run.indices,
{
}

/// The run ends when every selected paper had its turn, and the closing line says
/// how many were added and how many failed.
pub proof fn law_the_run_ends_with_the_counts(
    before: RunView,
    after: RunView,
    papers: Seq<Paper>,
    r: GetAction,
)
    requires
        get_action(before, after, papers, r),
    ensures
        r is Finished <==> before.position >= before.indices.len(),
        r matches GetAction::Finished(m) ==> ("Download complete: "@ + number::decimal(
            before.downloaded,
        ) + " added, "@ + number::decimal(before.failed) + " failed, "@).is_prefix_of(m@),
        r is Finished ==> after == before,
        r matches GetAction::Finished(m) ==> (before.wf() ==> m@ == "Download complete: "@
            + number::decimal(before.downloaded) + " added, "@ + number::decimal(before.failed)
            + " failed, "@ + number::decimal(0) + " skipped."@),
{
    if let GetAction::Finished(m) = r {
        let start = "Download complete: "@ + number::decimal(before.downloaded) + " added, "@
            + number::decimal(before.failed) + " failed, "@;
        assert(m@.subrange(0, start.len() as int) =~= start);
    }
}

/// When the run is over no paper was passed over: each one was downloaded or
/// failed.
pub proof fn law_no_paper_is_passed_over(run: RunView)
    requires
        run.wf(),
        !run.is_open(),
    ensures
        run.downloaded + run.failed == run.indices.len(),
{
}

/// A run that has not begun to fetch.
pub open spec fn first_run(indices: Seq<usize>) -> RunView {
    RunView { indices, position: 0, downloaded: 0, failed: 0 }
}

/// The run once it is known what became of the paper that was fetched.
pub open spec fn recorded(run: RunView, ok: bool) -> RunView {
    if ok {
        run.after_download()
    } else {
        run.after_failure()
    }
}

/// A run begins with the first selected paper, and nothing is counted yet.
pub proof fn law_a_run_begins_with_the_first_paper(
    indices: Seq<usize>,
    after: RunView,
    papers: Seq<Paper>,
    r: GetAction,
)
    requires
        get_action(first_run(indices), after, papers, r),
    ensures
        indices.len() == 0 ==> r is Finished,
        indices.len() > 0 && indices[0] < papers.len() ==> (papers[indices[0] as int].pdf_url
            matches Some(u) ==> (u@.len() > 0 && !u@.contains('\u{1b}') ==> (
        r matches GetAction::Fetch { url, .. } && url@ == u@))),
        first_run(indices).indices == indices,
        first_run(indices).downloaded == 0 && first_run(indices).failed == 0,
{
    if indices.len() > 0 {
        law_the_next_paper_is_fetched(first_run(indices), after, papers, r);
    }
}

/// What was fetched counts as added, what was not as failed; either way the next
/// paper has its turn.
pub proof fn law_success_counts_as_added(run: RunView)
    ensures
        recorded(run, true).downloaded == run.downloaded + 1,
        recorded(run, true).failed == run.failed,
        recorded(run, false).downloaded == run.downloaded,
        recorded(run, false).failed == run.failed + 1,
        forall|ok: bool| #[trigger]
            recorded(run, ok).position == run.position + 1 && recorded(run, ok).indices
                == run.indices,
{
}

impl GetRun {
    /// The fetching of the papers with these indices, where the pipeline has
    /// stored chunks already.
    pub fn begin(indices: Vec<usize>, pipeline: &Pipeline) -> (r: Result<GetRun, String>)
        requires
            ranges::all_numbered(indices@),
        ensures
            match parsers::verdict("papers"@, *pipeline) {
                Ok(()) => r matches Ok(run) && run@.wf() && run@ == first_run(indices@),
                Err(e) => r matches Err(m) && m@ == e,
            },
    {
        match pipeline.guard("papers") {
            Ok(()) => {
                assert(indices.len() <= usize::MAX);
                Ok(GetRun { indices, position: 0, downloaded: 0, failed: 0 })
            },
            Err(e) => Err(e),
        }
    }

    /// What comes next. A paper that cannot be fetched is counted as failed at
    /// once; of one that can, [`GetRun::record`] says what became of it.
    pub fn next_action(&mut self, papers: &Vec<Paper>) -> (r: GetAction)
        requires
            old(self)@.wf(),
        ensures
            final(self)@.wf(),
            get_action(old(self)@, final(self)@, papers@, r),
            r is Fetch ==> final(self)@.is_open(),
    {
        if self.position < self.indices.len() {
            let i: usize = self.indices[self.position];
            assert(self@.indices[self@.position as int] < usize::MAX);
            let digits = number::show_usize(i + 1);
            if i >= papers.len() {
                let mut m = "  Skipping [".to_string();
                m.append(digits.as_str());
                m.append("]: out of range (max ");
                let max = number::show_usize(papers.len());
                m.append(max.as_str());
                m.append(")");
                self.position = self.position + 1;
                self.failed = self.failed + 1;
                return GetAction::Say(m);
            }
            let p = &papers[i];
            let mut label = "  [".to_string();
            let padded = text::pad_start(digits.as_str(), 2);
            label.append(padded.as_str());
            label.append("] ");
            label.append(p.title.as_str());
            let raw = best_pdf_url(p);
            let url = ansi::strip_ansi(raw.as_str());
            if url.as_str().is_empty() {
                label.append(" — no download URL available");
                self.position = self.position + 1;
                self.failed = self.failed + 1;
                return GetAction::Say(label);
            }
            label.append(" ... ");
            return GetAction::Fetch { label, url };
        }
        let mut m = "Download complete: ".to_string();
        let added = number::show_usize(self.downloaded);
        m.append(added.as_str());
        m.append(" added, ");
        let failed = number::show_usize(self.failed);
        m.append(failed.as_str());
        m.append(" failed, ");
        let skipped = number::show_usize(self.indices.len() - self.downloaded - self.failed);
        m.append(skipped.as_str());
        m.append(" skipped.");
        GetAction::Finished(m)
    }

    /// Whether papers are left.
    pub fn is_open(&self) -> (r: bool)
        ensures
            r == self@.is_open(),
    {
        self.position < self.indices.len()
    }

    /// Takes note of what became of the paper that was fetched.
    pub fn record(&mut self, ok: bool)
        requires
            old(self)@.wf(),
            old(self)@.is_open(),
        ensures
            final(self)@.wf(),
            final(self)@ == recorded(old(self)@, ok),
    {
        self.position = self.position + 1;
        if ok {
            self.downloaded = self.downloaded + 1;
        } else {
            self.failed = self.failed + 1;
        }
    }
}

/// What a `/download` command leads to.
#[derive(Debug)]
pub enum DownloadStep {
    /// These lines are shown.
    Say(Vec<String>),
    /// The address is fetched, provided that files with this extension are
    /// indexed already.
    Fetch { extension: String },
}

/// Whether a path component names a file or a directory: it is neither empty
/// nor a single dot.
pub open spec fn is_named(component: Seq<char>) -> bool {
    component.len() > 0 && component != "."@
}

/// The last component of a path that names something.
pub open spec fn last_named(components: Seq<Seq<char>>) -> Option<Seq<char>>
    decreases components.len(),
{
    if components.len() == 0 {
        None
    } else if is_named(components.last()) {
        Some(components.last())
    } else {
        last_named(components.drop_last())
    }
}

/// The position of the last dot, or minus one where there is none.
pub open spec fn last_dot(s: Seq<char>) -> int
    decreases s.len(),
{
    if s.len() == 0 {
        -1
    } else if s.last() == '.' {
        s.len() - 1
    } else {
        last_dot(s.drop_last())
    }
}

/// The extension of a file name: what follows its last dot, unless that dot is
/// the first character. The parent directory has none.
pub open spec fn extension_of_name(name: Seq<char>) -> Option<Seq<char>> {
    let i = last_dot(name);
    if name == ".."@ || i <= 0 {
        None
    } else {
        Some(name.skip(i + 1))
    }
}

/// The extension of the document behind an address, which is `pdf` where the
/// address shows none. What follows a question mark does not count.
pub open spec fn extension_of(url: Seq<char>) -> Seq<char> {
    let path = url.take(text::index_of(url, '?'));
    match last_named(text::pieces_of(path, '/')) {
        Some(name) => match extension_of_name(name) {
            Some(e) => e,
            None => "pdf"@,
        },
        None => "pdf"@,
    }
}

/// The last component of a path decides: what follows its last dot is the
/// extension, and without a dot it is `pdf`.
pub proof fn law_the_last_dot_shows_the_extension(
    dir: Seq<char>,
    stem: Seq<char>,
    ext: Seq<char>,
)
    requires
        stem.len() > 0,
        ext.len() > 0,
        !dir.contains('?') && !stem.contains('?') && !ext.contains('?'),
        !stem.contains('/') && !ext.contains('/'),
        !ext.contains('.'),
    ensures
        extension_of(dir + seq!['/'] + (stem + seq!['.'] + ext)) == ext,
        !stem.contains('.') ==> extension_of(dir + seq!['/'] + stem) == "pdf"@,
{
    let name = stem + seq!['.'] + ext;
    reveal_strlit(".");
    reveal_strlit("..");
    assert(name.len() >= 3);
    lemma_last_component(dir, name);
    lemma_last_dot(stem, ext);
    assert(name.skip((stem.len() + 1) as int) =~= ext);
    if !stem.contains('.') {
        assert(stem.contains(stem[0]));
        assert(stem != "."@);
        lemma_last_component(dir, stem);
        lemma_no_dot(stem);
    }
}

/// The same holds of a name alone, and a name that begins with its only dot shows
/// no extension.
pub proof fn law_names_alone_show_their_extension(
    dir: Seq<char>,
    stem: Seq<char>,
    ext: Seq<char>,
)
    requires
        stem.len() > 0,
        ext.len() > 0,
        !dir.contains('?') && !stem.contains('?') && !ext.contains('?'),
        !stem.contains('/') && !ext.contains('/'),
        !ext.contains('.'),
    ensures
        extension_of(stem + seq!['.'] + ext) == ext,
        extension_of(dir + seq!['/'] + (seq!['.'] + ext)) == "pdf"@,
{
    let name = stem + seq!['.'] + ext;
    reveal_strlit(".");
    reveal_strlit("..");
    assert(name.len() >= 3);
    text::lemma_index_of(name, '?');
    let q = text::index_of(name, '?');
    if q < name.len() {
        if q < stem.len() {
            assert(stem[q] == '?');
        } else if q > stem.len() {
            assert(ext[q - stem.len() - 1] == '?');
        }
    }
    assert(name.take(q) =~= name);
    text::lemma_index_of(name, '/');
    let p = text::index_of(name, '/');
    if p < name.len() {
        if p < stem.len() {
            assert(stem[p] == '/');
        } else if p > stem.len() {
            assert(ext[p - stem.len() - 1] == '/');
        }
    }
    assert(text::pieces_of(name, '/') =~= seq![name]);
    lemma_last_dot(stem, ext);
    assert(name.skip((stem.len() + 1) as int) =~= ext);
    let hidden = seq!['.'] + ext;
    assert(hidden =~= Seq::<char>::empty() + seq!['.'] + ext);
    lemma_last_dot(Seq::empty(), ext);
    assert forall|i: int| 0 <= i < hidden.len() implies #[trigger] hidden[i] != '/' && hidden[i]
        != '?' by {
        if i > 0 {
            assert(ext.contains(ext[i - 1]));
        }
    }
    assert(hidden.len() >= 2);
    lemma_last_component(dir, hidden);
}

/// A slash at the end of an address does not change its extension.
pub proof fn law_a_final_slash_is_ignored(address: Seq<char>)
    requires
        !address.contains('?'),
    ensures
        extension_of(address.push('/')) == extension_of(address),
{
    let url = address.push('/');
    text::lemma_index_of(address, '?');
    text::lemma_index_of(url, '?');
    let i = text::index_of(address, '?');
    let j = text::index_of(url, '?');
    if i < address.len() {
        assert(address[i] == '?');
    }
    if j < url.len() {
        if j < address.len() {
            assert(address[j] == '?');
        }
    }
    assert(address.take(i) =~= address);
    assert(url.take(j) =~= url);
    ranges::lemma_pieces_of_joined(address, '/', Seq::empty());
    assert(url + Seq::<char>::empty() =~= url);
    let none = Seq::<char>::empty();
    assert(text::pieces_of(none, '/') =~= seq![none]);
    let ps = text::pieces_of(address, '/');
    assert(text::pieces_of(url, '/') =~= ps.push(none));
    assert(ps.push(none).drop_last() =~= ps);
}

proof fn lemma_last_component(dir: Seq<char>, name: Seq<char>)
    requires
        !dir.contains('?'),
        name.len() > 0,
        forall|i: int| 0 <= i < name.len() ==> #[trigger] name[i] != '/' && name[i] != '?',
        name != "."@,
    ensures
        extension_of(dir + seq!['/'] + name) == match extension_of_name(name) {
            Some(e) => e,
            None => "pdf"@,
        },
{
    let url = dir + seq!['/'] + name;
    text::lemma_index_of(url, '?');
    let q = text::index_of(url, '?');
    if q < url.len() {
        if q < dir.len() {
            assert(dir[q] == '?');
        } else if q > dir.len() {
            assert(name[q - dir.len() - 1] == '?');
        }
    }
    assert(url.take(q) =~= url);
    assert(url =~= dir.push('/') + name);
    ranges::lemma_pieces_of_joined(dir, '/', name);
    text::lemma_index_of(name, '/');
    assert(text::pieces_of(name, '/') =~= seq![name]);
    let ps = text::pieces_of(url, '/');
    assert(ps.last() == name);
}

proof fn lemma_last_dot(stem: Seq<char>, ext: Seq<char>)
    requires
        !ext.contains('.'),
    ensures
        last_dot(stem + seq!['.'] + ext) == stem.len(),
    decreases ext.len(),
{
    let name = stem + seq!['.'] + ext;
    if ext.len() > 0 {
        assert(ext.contains(ext[ext.len() - 1]));
        let shorter = ext.drop_last();
        if shorter.contains('.') {
            let i = choose|i: int| 0 <= i < shorter.len() && shorter[i] == '.';
            assert(ext[i] == '.');
        }
        lemma_last_dot(stem, shorter);
        assert(name.drop_last() =~= stem + seq!['.'] + shorter);
        assert(name.last() == ext[ext.len() - 1]);
    } else {
        assert(name.last() == '.');
    }
}

proof fn lemma_no_dot(s: Seq<char>)
    requires
        !s.contains('.'),
    ensures
        last_dot(s) == -1,
    decreases s.len(),
{
    if s.len() > 0 {
        assert(s.contains(s[s.len() - 1]));
        let shorter = s.drop_last();
        if shorter.contains('.') {
            let i = choose|i: int| 0 <= i < shorter.len() && shorter[i] == '.';
            assert(s[i] == '.');
        }
        lemma_no_dot(shorter);
    }
}

/// The extension of a file name.
fn read_extension(name: &str) -> (r: Option<String>)
    ensures
        text::opt_text(r) == extension_of_name(name@),
{
    let v = text::chars_of(name);
    let n: usize = v.len();
    let mut i: usize = n;
    assert(v@.take(n as int) =~= v@);
    while i > 0 && v[i - 1] != '.'
        invariant
            i <= n == v.len(),
            v@ == name@,
            last_dot(name@) == last_dot(v@.take(i as int)),
        decreases i,
    {
        assert(v@.take(i as int).drop_last() =~= v@.take(i - 1));
        i -= 1;
    }
    if text::same(name, "..") || i <= 1 {
        return None;
    }
    assert(v@.take(i as int).last() == '.');
    let r = text::string_of(&v, i, n);
    assert(r@ =~= name@.skip(i as int));
    Some(r)
}

/// The extension of the document behind an address.
pub fn url_extension(url: &str) -> (r: String)
    ensures
        r@ == extension_of(url@),
{
    let path = match text::split_once(url, '?') {
        Some((before, _)) => before,
        None => {
            proof {
                text::lemma_index_of(url@, '?');
                assert(url@.take(url@.len() as int) =~= url@);
            }
            url.to_owned()
        },
    };
    let components = text::pieces(path.as_str(), '/');
    let ghost all = text::texts(components@);
    let mut i: usize = components.len();
    assert(all.take(i as int) =~= all);
    while i > 0
        invariant
            i <= components@.len(),
            all == text::texts(components@),
            all == text::pieces_of(url@.take(text::index_of(url@, '?')), '/'),
            last_named(all) == last_named(all.take(i as int)),
        decreases i,
    {
        assert(all.take(i as int).last() == components@[i - 1]@);
        assert(all.take(i as int).drop_last() =~= all.take(i - 1));
        let c = &components[i - 1];
        if !c.as_str().is_empty() && !text::same(c.as_str(), ".") {
            return match read_extension(c.as_str()) {
                Some(e) => e,
                None => "pdf".to_string(),
            };
        }
        i -= 1;
    }
    "pdf".to_string()
}

/// What a `/download` command leads to.
pub open spec fn download_step(url: Seq<char>, r: DownloadStep) -> bool {
    if url.len() == 0 {
        r matches DownloadStep::Say(v) && text::texts(v@) =~= seq!["Usage: /download <url>"@]
    } else {
        r matches DownloadStep::Fetch { extension } && extension@ == extension_of(url)
    }
}

/// What follows a question mark in an address does not change its extension.
pub proof fn law_query_string_is_ignored(address: Seq<char>, question: Seq<char>)
    ensures
        extension_of(address.push('?') + question) == extension_of(address),
{
    let url = address.push('?') + question;
    text::lemma_index_of(address, '?');
    text::lemma_index_of(url, '?');
    let i = text::index_of(address, '?');
    let j = text::index_of(url, '?');
    assert(url[address.len() as int] == '?');
    if i < address.len() {
        assert(url[i] == '?');
    }
    if j < i {
        assert(url[j] == address[j]);
    }
    assert(i == j);
    assert(url.take(i) =~= address.take(i));
}

/// `/download <url>`.
pub fn cmd_download(url: &str) -> (r: DownloadStep)
    ensures
        download_step(url@, r),
{
    if url.is_empty() {
        DownloadStep::Say(vec!["Usage: /download <url>".to_string()])
    } else {
        DownloadStep::Fetch { extension: url_extension(url) }
    }
}

} // verus!
