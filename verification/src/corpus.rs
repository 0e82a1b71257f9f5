//! Named document corpora: what they hold, how they are read from the command
//! line, and where a document from the web goes.

use vstd::prelude::*;

use crate::text;

verus! {

/// A directory whose files are the documents.
#[derive(Debug, Clone)]
pub struct FolderCorpus {
    pub name: String,
    pub folder: String,
}

/// A curated list of addresses whose contents are the documents.
#[derive(Debug, Clone)]
pub struct UrlCorpus {
    pub name: String,
    pub urls: Vec<String>,
}

/// Where the documents of a corpus come from.
#[derive(Debug, Clone)]
pub enum CorpusKind {
    Dir(FolderCorpus),
    Urls(UrlCorpus),
}

/// A named corpus with its on/off state.
#[derive(Debug, Clone)]
pub struct CorpusEntry {
    pub name: String,
    pub kind: CorpusKind,
    pub active: bool,
}

/// Where a document from the web is put.
#[derive(Debug, Clone)]
pub enum WebRoute {
    /// An address corpus: the address joins its curated list.
    Url { name: String },
    /// A directory corpus: the file is saved into its directory.
    Dir { name: String },
    /// The main folder.
    Folder,
}

/// The mathematical value of a [`CorpusKind`].
pub enum KindView {
    Dir { name: Seq<char>, folder: Seq<char> },
    Urls { name: Seq<char>, urls: Seq<Seq<char>> },
}

/// The mathematical value of a [`CorpusEntry`].
pub struct EntryView {
    pub name: Seq<char>,
    pub kind: KindView,
    pub active: bool,
}

/// The mathematical value of a [`WebRoute`].
pub enum RouteView {
    Url { name: Seq<char> },
    Dir { name: Seq<char> },
    Folder,
}

impl View for CorpusKind {
    type V = KindView;

    open spec fn view(&self) -> KindView {
        match self {
            CorpusKind::Dir(c) => KindView::Dir { name: c.name@, folder: c.folder@ },
            CorpusKind::Urls(c) => KindView::Urls { name: c.name@, urls: text::texts(c.urls@) },
        }
    }
}

impl View for CorpusEntry {
    type V = EntryView;

    open spec fn view(&self) -> EntryView {
        EntryView { name: self.name@, kind: self.kind@, active: self.active }
    }
}

impl View for WebRoute {
    type V = RouteView;

    open spec fn view(&self) -> RouteView {
        match self {
            WebRoute::Url { name } => RouteView::Url { name: name@ },
            WebRoute::Dir { name } => RouteView::Dir { name: name@ },
            WebRoute::Folder => RouteView::Folder,
        }
    }
}

impl KindView {
    /// The word for this kind of corpus.
    pub open spec fn label(self) -> Seq<char> {
        match self {
            KindView::Dir { .. } => "dir"@,
            KindView::Urls { .. } => "urls"@,
        }
    }

    /// The name under which documents of this corpus are stored.
    pub open spec fn name(self) -> Seq<char> {
        match self {
            KindView::Dir { name, .. } => name,
            KindView::Urls { name, .. } => name,
        }
    }
}

/// The values of a list of corpora.
pub open spec fn entries(v: Seq<CorpusEntry>) -> Seq<EntryView> {
    Seq::new(v.len(), |i: int| v[i]@)
}

/// The position of the first corpus with that name, or the number of corpora
/// where there is none.
pub open spec fn position(es: Seq<EntryView>, name: Seq<char>) -> int
    decreases es.len(),
{
    if es.len() == 0 || es[0].name == name {
        0
    } else {
        1 + position(es.drop_first(), name)
    }
}

/// Whether a corpus has that name.
pub open spec fn has_name(es: Seq<EntryView>, name: Seq<char>) -> bool {
    exists|i: int| 0 <= i < es.len() && #[trigger] es[i].name == name
}

/// Whether no two corpora have the same name.
pub open spec fn names_are_unique(es: Seq<EntryView>) -> bool {
    forall|i: int, j: int|
        0 <= i < j < es.len() ==> #[trigger] es[i].name != #[trigger] es[j].name
}

/// Whether every corpus stores its documents under its own name.
pub open spec fn names_agree(es: Seq<EntryView>) -> bool {
    forall|i: int| 0 <= i < es.len() ==> (#[trigger] es[i]).kind.name() == es[i].name
}

/// The name and the value of a `NAME=VALUE` argument: neither may be blank.
pub open spec fn named_value(arg: Seq<char>) -> Option<(Seq<char>, Seq<char>)> {
    match text::split_once_of(arg, '=') {
        Some((n, v)) => {
            let name = text::trimmed(n);
            let value = text::trimmed(v);
            if name.len() == 0 || value.len() == 0 {
                None
            } else {
                Some((name, value))
            }
        },
        None => None,
    }
}

/// An active directory corpus.
pub open spec fn dir_entry(name: Seq<char>, folder: Seq<char>) -> EntryView {
    EntryView { name, kind: KindView::Dir { name, folder }, active: true }
}

/// An active address corpus.
pub open spec fn url_entry(name: Seq<char>, urls: Seq<Seq<char>>) -> EntryView {
    EntryView { name, kind: KindView::Urls { name, urls }, active: true }
}

/// `e` with one more address, where it is an address corpus.
pub open spec fn with_url(e: EntryView, url: Seq<char>) -> EntryView {
    match e.kind {
        KindView::Urls { name, urls } => EntryView {
            kind: KindView::Urls { name, urls: urls.push(url) },
            ..e
        },
        KindView::Dir { .. } => e,
    }
}

/// One directory argument after the corpora that the earlier ones gave.
pub open spec fn add_dir(
    es: Seq<EntryView>,
    arg: Seq<char>,
) -> Result<Seq<EntryView>, Seq<char>> {
    match named_value(arg) {
        None => Err("Invalid --corpus-dir '"@ + arg + "': expected NAME=/path/to/dir"@),
        Some((name, folder)) => if has_name(es, name) {
            Err("Duplicate corpus name '"@ + name + "'"@)
        } else {
            Ok(es.push(dir_entry(name, folder)))
        },
    }
}

/// One address argument after the corpora that the earlier ones gave.
pub open spec fn add_url(
    dirs: Seq<EntryView>,
    es: Seq<EntryView>,
    arg: Seq<char>,
) -> Result<Seq<EntryView>, Seq<char>> {
    match named_value(arg) {
        None => Err("Invalid --corpus-urls '"@ + arg + "': expected NAME=URL"@),
        Some((name, url)) => if has_name(es, name) {
            let i = position(es, name);
            Ok(es.update(i, with_url(es[i], url)))
        } else if has_name(dirs, name) {
            Err("Duplicate corpus name '"@ + name + "' (already a --corpus-dir corpus)"@)
        } else {
            Ok(es.push(url_entry(name, seq![url])))
        },
    }
}

/// The directory corpora that the arguments give, or the complaint about the
/// first argument that has one.
pub open spec fn dir_corpora(args: Seq<Seq<char>>) -> Result<Seq<EntryView>, Seq<char>>
    decreases args.len(),
{
    if args.len() == 0 {
        Ok(Seq::empty())
    } else {
        match dir_corpora(args.drop_last()) {
            Err(e) => Err(e),
            Ok(es) => add_dir(es, args.last()),
        }
    }
}

/// The address corpora that the arguments give beside the directory corpora,
/// or the complaint about the first argument that has one.
pub open spec fn url_corpora(
    dirs: Seq<EntryView>,
    args: Seq<Seq<char>>,
) -> Result<Seq<EntryView>, Seq<char>>
    decreases args.len(),
{
    if args.len() == 0 {
        Ok(Seq::empty())
    } else {
        match url_corpora(dirs, args.drop_last()) {
            Err(e) => Err(e),
            Ok(es) => add_url(dirs, es, args.last()),
        }
    }
}

/// All corpora of a command line: the directories in the order of their
/// arguments, then the address lists in the order in which their names first
/// occur.
pub open spec fn corpora_of(
    dir_args: Seq<Seq<char>>,
    url_args: Seq<Seq<char>>,
) -> Result<Seq<EntryView>, Seq<char>> {
    match dir_corpora(dir_args) {
        Err(e) => Err(e),
        Ok(dirs) => match url_corpora(dirs, url_args) {
            Err(e) => Err(e),
            Ok(urls) => Ok(dirs + urls),
        },
    }
}

/// The position of the first active corpus of a kind, or the number of corpora
/// where there is none.
pub open spec fn first_active(es: Seq<EntryView>, urls: bool) -> int
    decreases es.len(),
{
    if es.len() == 0 || (es[0].active && (es[0].kind is Urls) == urls) {
        0
    } else {
        1 + first_active(es.drop_first(), urls)
    }
}

/// Where a document from the web goes: with dynamic routing the first active
/// address corpus, else the first active directory corpus; without it, or
/// where no corpus is active, the main folder.
pub open spec fn web_route(dynamic: bool, es: Seq<EntryView>) -> RouteView {
    let u = first_active(es, true);
    let d = first_active(es, false);
    if dynamic && u < es.len() {
        RouteView::Url { name: es[u].name }
    } else if dynamic && d < es.len() {
        RouteView::Dir { name: es[d].name }
    } else {
        RouteView::Folder
    }
}

pub proof fn lemma_position(es: Seq<EntryView>, name: Seq<char>)
    ensures
        0 <= position(es, name) <= es.len(),
        has_name(es, name) == (position(es, name) < es.len()),
        position(es, name) < es.len() ==> es[position(es, name)].name == name,
        forall|i: int| 0 <= i < position(es, name) ==> (#[trigger] es[i]).name != name,
    decreases es.len(),
{
    if es.len() > 0 && es[0].name != name {
        let t = es.drop_first();
        lemma_position(t, name);
        assert forall|i: int| 0 <= i < position(es, name) implies (#[trigger] es[i]).name
            != name by {
            if i > 0 {
                assert(t[i - 1] == es[i]);
            }
        }
        if has_name(es, name) {
            let i = choose|i: int| 0 <= i < es.len() && #[trigger] es[i].name == name;
            assert(t[i - 1].name == name);
        }
        if position(es, name) < es.len() {
            assert(t[position(t, name)] == es[position(es, name)]);
        }
    }
}

pub proof fn lemma_first_active(es: Seq<EntryView>, urls: bool)
    ensures
        0 <= first_active(es, urls) <= es.len(),
        first_active(es, urls) < es.len() ==> es[first_active(es, urls)].active && (es[first_active(
            es,
            urls,
        )].kind is Urls) == urls,
        forall|i: int|
            0 <= i < first_active(es, urls) ==> !((#[trigger] es[i]).active && (es[i].kind is Urls)
                == urls),
    decreases es.len(),
{
    if es.len() > 0 && !(es[0].active && (es[0].kind is Urls) == urls) {
        let t = es.drop_first();
        lemma_first_active(t, urls);
        assert forall|i: int| 0 <= i < first_active(es, urls) implies !((#[trigger] es[i]).active
            && (es[i].kind is Urls) == urls) by {
            if i > 0 {
                assert(t[i - 1] == es[i]);
            }
        }
        if first_active(es, urls) < es.len() {
            assert(t[first_active(t, urls)] == es[first_active(es, urls)]);
        }
    }
}

/// The corpora of the directory arguments keep their invariants.
proof fn lemma_dir_corpora(args: Seq<Seq<char>>)
    ensures
        dir_corpora(args) matches Ok(es) ==> names_are_unique(es) && names_agree(es) && (forall|
            i: int,
        |
            0 <= i < es.len() ==> (#[trigger] es[i]).active && es[i].kind is Dir),
    decreases args.len(),
{
    if args.len() > 0 {
        lemma_dir_corpora(args.drop_last());
        if let Ok(es) = dir_corpora(args.drop_last()) {
            if let Some((name, folder)) = named_value(args.last()) {
                if !has_name(es, name) {
                    let next = es.push(dir_entry(name, folder));
                    assert forall|i: int, j: int| 0 <= i < j < next.len() implies #[trigger] next[i].name
                        != #[trigger] next[j].name by {
                        if j == es.len() {
                            assert(es[i].name != name);
                        }
                    }
                }
            }
        }
    }
}

/// The corpora of the address arguments keep their invariants.
proof fn lemma_url_corpora(dirs: Seq<EntryView>, args: Seq<Seq<char>>)
    ensures
        url_corpora(dirs, args) matches Ok(es) ==> names_are_unique(es) && names_agree(es) && (
        forall|i: int|
            0 <= i < es.len() ==> (#[trigger] es[i]).active && es[i].kind is Urls && !has_name(
                dirs,
                es[i].name,
            )),
    decreases args.len(),
{
    if args.len() > 0 {
        lemma_url_corpora(dirs, args.drop_last());
        if let Ok(es) = url_corpora(dirs, args.drop_last()) {
            if let Some((name, url)) = named_value(args.last()) {
                lemma_position(es, name);
                if has_name(es, name) {
                    let k = position(es, name);
                    let next = es.update(k, with_url(es[k], url));
                    assert forall|i: int, j: int| 0 <= i < j < next.len() implies #[trigger] next[i].name
                        != #[trigger] next[j].name by {
                        assert(es[i].name != es[j].name);
                    }
                    assert forall|i: int| 0 <= i < next.len() implies (#[trigger] next[i]).active
                        && next[i].kind is Urls && !has_name(dirs, next[i].name)
                        && next[i].kind.name() == next[i].name by {
                        assert(es[i].active);
                    }
                } else if !has_name(dirs, name) {
                    let next = es.push(url_entry(name, seq![url]));
                    assert forall|i: int, j: int| 0 <= i < j < next.len() implies #[trigger] next[i].name
                        != #[trigger] next[j].name by {
                        if j == es.len() {
                            assert(es[i].name != name);
                        }
                    }
                }
            }
        }
    }
}

/// The corpora of an accepted command line have distinct names, store their
/// documents under their own names and are all active.
pub proof fn law_accepted_corpora_are_distinct_and_active(
    dir_args: Seq<Seq<char>>,
    url_args: Seq<Seq<char>>,
)
    ensures
        corpora_of(dir_args, url_args) matches Ok(es) ==> names_are_unique(es) && names_agree(es)
            && (forall|i: int| 0 <= i < es.len() ==> (#[trigger] es[i]).active),
{
    lemma_dir_corpora(dir_args);
    if let Ok(dirs) = dir_corpora(dir_args) {
        lemma_url_corpora(dirs, url_args);
        if let Ok(urls) = url_corpora(dirs, url_args) {
            let es = dirs + urls;
            assert forall|i: int, j: int| 0 <= i < j < es.len() implies #[trigger] es[i].name
                != #[trigger] es[j].name by {
                if i < dirs.len() && j >= dirs.len() {
                    assert(urls[j - dirs.len()] == es[j]);
                    assert(dirs[i].name == es[i].name);
                } else if i >= dirs.len() {
                    assert(urls[i - dirs.len()] == es[i]);
                    assert(urls[j - dirs.len()] == es[j]);
                } else {
                    assert(dirs[i] == es[i]);
                    assert(dirs[j] == es[j]);
                }
            }
            assert forall|i: int| 0 <= i < es.len() implies (#[trigger] es[i]).active
                && es[i].kind.name() == es[i].name by {
                if i < dirs.len() {
                    assert(dirs[i] == es[i]);
                } else {
                    assert(urls[i - dirs.len()] == es[i]);
                }
            }
        }
    }
}

/// The addresses that the arguments give under a name, in their order.
pub open spec fn addresses_of(args: Seq<Seq<char>>, name: Seq<char>) -> Seq<Seq<char>>
    decreases args.len(),
{
    if args.len() == 0 {
        Seq::empty()
    } else {
        let before = addresses_of(args.drop_last(), name);
        match named_value(args.last()) {
            Some((n, url)) if n == name => before.push(url),
            _ => before,
        }
    }
}

/// Repeating a name accumulates its addresses into one list: every address
/// corpus holds all addresses given under its name, in order.
pub proof fn law_repeated_names_accumulate(dirs: Seq<EntryView>, args: Seq<Seq<char>>, i: int)
    requires
        url_corpora(dirs, args) is Ok,
        0 <= i < url_corpora(dirs, args)->Ok_0.len(),
    ensures
        url_corpora(dirs, args)->Ok_0[i] == url_entry(
            url_corpora(dirs, args)->Ok_0[i].name,
            addresses_of(args, url_corpora(dirs, args)->Ok_0[i].name),
        ),
    decreases args.len(),
{
    let es = url_corpora(dirs, args)->Ok_0;
    let before = args.drop_last();
    let old_es = url_corpora(dirs, before)->Ok_0;
    let (name, url) = named_value(args.last())->Some_0;
    lemma_position(old_es, name);
    lemma_url_corpora(dirs, before);
    if i < old_es.len() {
        law_repeated_names_accumulate(dirs, before, i);
        if has_name(old_es, name) {
            let k = position(old_es, name);
            if i != k {
                assert(old_es[i].name != old_es[k].name);
            }
        } else {
            assert(old_es[i].name != name);
        }
    } else {
        lemma_no_addresses(dirs, before, name);
        assert(addresses_of(args, name) =~= seq![url]);
    }
}

/// A name that no corpus has was never given an address.
proof fn lemma_no_addresses(dirs: Seq<EntryView>, args: Seq<Seq<char>>, name: Seq<char>)
    requires
        url_corpora(dirs, args) is Ok,
        !has_name(url_corpora(dirs, args)->Ok_0, name),
    ensures
        addresses_of(args, name) == Seq::<Seq<char>>::empty(),
    decreases args.len(),
{
    if args.len() > 0 {
        let es = url_corpora(dirs, args)->Ok_0;
        let before = args.drop_last();
        let old_es = url_corpora(dirs, before)->Ok_0;
        let (n, url) = named_value(args.last())->Some_0;
        lemma_position(old_es, n);
        if has_name(old_es, name) {
            let i = choose|i: int| 0 <= i < old_es.len() && #[trigger] old_es[i].name == name;
            assert(es[i].name == name);
        }
        lemma_no_addresses(dirs, before, name);
        if n == name {
            if has_name(old_es, n) {
                assert(es[position(old_es, n)].name == name);
            } else {
                assert(es[old_es.len() as int].name == name);
            }
        }
    }
}

/// Whether every argument has a name and a value.
pub open spec fn all_named(args: Seq<Seq<char>>) -> bool {
    forall|i: int| 0 <= i < args.len() ==> named_value(#[trigger] args[i]) is Some
}

/// The name in a `NAME=VALUE` argument.
pub open spec fn name_in(arg: Seq<char>) -> Seq<char> {
    named_value(arg)->Some_0.0
}

/// Whether the arguments have names of their own.
pub open spec fn distinctly_named(args: Seq<Seq<char>>) -> bool {
    forall|i: int, j: int|
        0 <= i < j < args.len() ==> name_in(#[trigger] args[i]) != name_in(#[trigger] args[j])
}

/// Whether no name stands in both lists of arguments.
pub open spec fn disjointly_named(a: Seq<Seq<char>>, b: Seq<Seq<char>>) -> bool {
    forall|i: int, j: int|
        0 <= i < a.len() && 0 <= j < b.len() ==> name_in(#[trigger] a[i]) != name_in(
            #[trigger] b[j],
        )
}

proof fn lemma_dirs_accepted(args: Seq<Seq<char>>)
    ensures
        dir_corpora(args) is Ok <==> all_named(args) && distinctly_named(args),
        dir_corpora(args) matches Ok(es) ==> es.len() == args.len() && (forall|i: int|
            0 <= i < args.len() ==> (#[trigger] es[i]).name == name_in(args[i])),
    decreases args.len(),
{
    if args.len() > 0 {
        let before = args.drop_last();
        let last = args.last();
        let n = args.len() - 1;
        lemma_dirs_accepted(before);
        assert(forall|i: int| 0 <= i < n ==> before[i] == args[i]);
        if all_named(args) && distinctly_named(args) {
            assert(all_named(before)) by {
                assert forall|i: int| 0 <= i < before.len() implies named_value(
                    #[trigger] before[i],
                ) is Some by {
                    assert(named_value(args[i]) is Some);
                }
            }
            assert(distinctly_named(before)) by {
                assert forall|i: int, j: int| 0 <= i < j < before.len() implies name_in(
                    #[trigger] before[i],
                ) != name_in(#[trigger] before[j]) by {
                    assert(name_in(args[i]) != name_in(args[j]));
                }
            }
            let es = dir_corpora(before)->Ok_0;
            assert(named_value(args[n]) is Some);
            if has_name(es, name_in(last)) {
                let i = choose|i: int|
                    0 <= i < es.len() && #[trigger] es[i].name == name_in(last);
                assert(name_in(args[i]) != name_in(args[n]));
            }
        }
        if let Ok(es) = dir_corpora(args) {
            let old_es = dir_corpora(before)->Ok_0;
            assert forall|i: int| 0 <= i < args.len() implies named_value(
                #[trigger] args[i],
            ) is Some by {
                if i < n {
                    assert(named_value(before[i]) is Some);
                }
            }
            assert forall|i: int, j: int| 0 <= i < j < args.len() implies name_in(
                #[trigger] args[i],
            ) != name_in(#[trigger] args[j]) by {
                if j < n {
                    assert(name_in(before[i]) != name_in(before[j]));
                } else {
                    assert(old_es[i].name == name_in(args[i]));
                }
            }
        }
    }
}

proof fn lemma_urls_accepted(dirs: Seq<EntryView>, args: Seq<Seq<char>>)
    ensures
        url_corpora(dirs, args) is Ok <==> all_named(args) && (forall|j: int|
            0 <= j < args.len() ==> !has_name(dirs, name_in(#[trigger] args[j]))),
    decreases args.len(),
{
    if args.len() > 0 {
        let before = args.drop_last();
        let n = args.len() - 1;
        lemma_urls_accepted(dirs, before);
        lemma_url_corpora(dirs, before);
        assert(forall|i: int| 0 <= i < n ==> before[i] == args[i]);
        if all_named(args) && (forall|j: int|
            0 <= j < args.len() ==> !has_name(dirs, name_in(#[trigger] args[j]))) {
            assert forall|i: int| 0 <= i < before.len() implies named_value(
                #[trigger] before[i],
            ) is Some by {
                assert(named_value(args[i]) is Some);
            }
            assert forall|i: int| 0 <= i < before.len() implies !has_name(
                dirs,
                name_in(#[trigger] before[i]),
            ) by {
                assert(!has_name(dirs, name_in(args[i])));
            }
            assert(named_value(args[n]) is Some);
            assert(!has_name(dirs, name_in(args[n])));
        }
        if url_corpora(dirs, args) is Ok {
            let old_es = url_corpora(dirs, before)->Ok_0;
            let name = name_in(args.last());
            lemma_position(old_es, name);
            if has_name(old_es, name) {
                assert(old_es[position(old_es, name)].name == name);
            }
            assert forall|i: int| 0 <= i < args.len() implies named_value(
                #[trigger] args[i],
            ) is Some by {
                if i < n {
                    assert(named_value(before[i]) is Some);
                }
            }
            assert forall|j: int| 0 <= j < args.len() implies !has_name(
                dirs,
                name_in(#[trigger] args[j]),
            ) by {
                if j < n {
                    assert(!has_name(dirs, name_in(before[j])));
                }
            }
        }
    }
}

/// A command line is accepted exactly where every argument has a name and a
/// value, no two directories share a name, and no name is given both to a
/// directory and to an address list.
pub proof fn law_when_corpora_are_accepted(dir_args: Seq<Seq<char>>, url_args: Seq<Seq<char>>)
    ensures
        corpora_of(dir_args, url_args) is Ok <==> all_named(dir_args) && distinctly_named(dir_args)
            && all_named(url_args) && disjointly_named(dir_args, url_args),
{
    lemma_dirs_accepted(dir_args);
    if let Ok(dirs) = dir_corpora(dir_args) {
        lemma_urls_accepted(dirs, url_args);
        if disjointly_named(dir_args, url_args) {
            assert forall|j: int| 0 <= j < url_args.len() implies !has_name(
                dirs,
                name_in(#[trigger] url_args[j]),
            ) by {
                if has_name(dirs, name_in(url_args[j])) {
                    let i = choose|i: int|
                        0 <= i < dirs.len() && #[trigger] dirs[i].name == name_in(url_args[j]);
                    assert(name_in(dir_args[i]) != name_in(url_args[j]));
                }
            }
        }
        if url_corpora(dirs, url_args) is Ok {
            assert forall|i: int, j: int|
                0 <= i < dir_args.len() && 0 <= j < url_args.len() implies name_in(
                #[trigger] dir_args[i],
            ) != name_in(#[trigger] url_args[j]) by {
                assert(!has_name(dirs, name_in(url_args[j])));
                assert(dirs[i].name == name_in(dir_args[i]));
            }
        }
    }
}

/// An argument is read at its first equals sign: what stands before it is the
/// name, what stands behind it the value, both without the white space around
/// them; one without an equals sign, a name or a value is none.
pub proof fn law_arguments_are_read_at_the_equals_sign(
    a: Seq<char>,
    name: Seq<char>,
    b: Seq<char>,
    c: Seq<char>,
    value: Seq<char>,
    d: Seq<char>,
)
    requires
        text::is_blank(a) && text::is_blank(b) && text::is_blank(c) && text::is_blank(d),
        name.len() == 0 || text::is_tight(name),
        value.len() == 0 || text::is_tight(value),
        !name.contains('='),
    ensures
        ({
            let left = a + name + b;
            let right = c + value + d;
            named_value(left + seq!['='] + right) == if name.len() == 0 || value.len() == 0 {
                None
            } else {
                Some((name, value))
            }
        }),
        named_value(name) is None,
{
    let left = a + name + b;
    let right = c + value + d;
    text::law_trimming_removes_what_surrounds(a, name, b);
    text::law_trimming_removes_what_surrounds(c, value, d);
    if left.contains('=') {
        let i = choose|i: int| 0 <= i < left.len() && left[i] == '=';
        if i < a.len() {
            assert(text::is_space(a[i]));
        } else if i < a.len() + name.len() {
            assert(name[i - a.len()] == '=');
            assert(name.contains('='));
        } else {
            assert(text::is_space(b[i - a.len() - name.len()]));
        }
    }
    text::law_split_finds_its_separator(left, '=', right);
    text::law_split_is_at_the_first_separator(name, '=');
    if let Some((x, y)) = text::split_once_of(name, '=') {
        assert((x + seq!['='] + y)[x.len() as int] == '=');
        assert(name.contains('='));
    }
}

/// Each directory argument gives one directory corpus, at its place, with the name
/// and the folder of the argument, and switched on; address corpora stand behind
/// all of them.
pub proof fn law_directories_keep_their_order(
    dir_args: Seq<Seq<char>>,
    url_args: Seq<Seq<char>>,
    i: int,
)
    requires
        corpora_of(dir_args, url_args) is Ok,
    ensures
        ({
            let es = corpora_of(dir_args, url_args)->Ok_0;
            &&& es.len() >= dir_args.len()
            &&& 0 <= i < dir_args.len() ==> {
                &&& named_value(dir_args[i]) is Some
                &&& es[i].name == named_value(dir_args[i])->Some_0.0
                &&& es[i].kind == (KindView::Dir {
                    name: named_value(dir_args[i])->Some_0.0,
                    folder: named_value(dir_args[i])->Some_0.1,
                })
                &&& es[i].active
            }
            &&& dir_args.len() <= i < es.len() ==> es[i].kind is Urls
        }),
{
    let dirs = dir_corpora(dir_args)->Ok_0;
    let urls = url_corpora(dirs, url_args)->Ok_0;
    let es = dirs + urls;
    lemma_dirs_accepted(dir_args);
    lemma_url_corpora(dirs, url_args);
    if 0 <= i < dir_args.len() {
        lemma_dir_at(dir_args, i);
        assert(es[i] == dirs[i]);
    } else if dir_args.len() <= i < es.len() {
        assert(es[i] == urls[i - dirs.len()]);
    }
}

proof fn lemma_dir_at(args: Seq<Seq<char>>, i: int)
    requires
        dir_corpora(args) is Ok,
        0 <= i < args.len(),
    ensures
        dir_corpora(args)->Ok_0.len() == args.len(),
        named_value(args[i]) is Some,
        dir_corpora(args)->Ok_0[i] == dir_entry(
            named_value(args[i])->Some_0.0,
            named_value(args[i])->Some_0.1,
        ),
    decreases args.len(),
{
    let before = args.drop_last();
    lemma_dirs_accepted(args);
    lemma_dirs_accepted(before);
    if i < before.len() {
        lemma_dir_at(before, i);
        assert(before[i] == args[i]);
    }
}

/// One more address under a name that is already an address corpus is one more
/// address at the end of that corpus, and every other corpus stays; under a new
/// name it is a corpus of its own, behind the others, with that address alone.
pub proof fn law_one_more_address(
    dirs: Seq<EntryView>,
    args: Seq<Seq<char>>,
    name: Seq<char>,
    url: Seq<char>,
    arg: Seq<char>,
    i: int,
)
    requires
        url_corpora(dirs, args) is Ok,
        named_value(arg) == Some((name, url)),
        !has_name(dirs, name),
    ensures
        url_corpora(dirs, args.push(arg)) is Ok,
        ({
            let was = url_corpora(dirs, args)->Ok_0;
            let is = url_corpora(dirs, args.push(arg))->Ok_0;
            &&& is.len() == was.len() + (if has_name(was, name) {
                0int
            } else {
                1
            })
            &&& 0 <= i < was.len() && was[i].name != name ==> is[i] == was[i]
            &&& 0 <= i < was.len() && was[i].name == name ==> is[i].name == name && is[i].active
                && is[i].kind == (KindView::Urls { name, urls: was[i].kind->urls.push(url) })
            &&& !has_name(was, name) ==> is[was.len() as int] == (EntryView {
                name,
                kind: KindView::Urls { name, urls: seq![url] },
                active: true,
            })
        }),
{
    let was = url_corpora(dirs, args)->Ok_0;
    assert(args.push(arg).drop_last() =~= args);
    lemma_position(was, name);
    lemma_url_corpora(dirs, args);
    let p = position(was, name);
    if 0 <= i < was.len() && was[i].name == name && p != i {
        assert(was[p].name == name);
    }
    if 0 <= i < was.len() {
        assert(was[i].active && was[i].kind is Urls);
        assert(was[i].kind.name() == was[i].name);
    }
}

/// Without dynamic routing everything from the web goes to the main folder.
pub proof fn law_routing_off_means_main_folder(es: Seq<EntryView>)
    ensures
        web_route(false, es) == RouteView::Folder,
{
}

/// A route never leads to a corpus that is off, and where names are unique the
/// corpus found under the route's name is of the kind that the route says.
pub proof fn law_route_leads_to_an_active_corpus(es: Seq<EntryView>, dynamic: bool)
    requires
        names_are_unique(es),
    ensures
        match web_route(dynamic, es) {
            RouteView::Url { name } => position(es, name) < es.len() && es[position(
                es,
                name,
            )].active && es[position(es, name)].kind is Urls,
            RouteView::Dir { name } => position(es, name) < es.len() && es[position(
                es,
                name,
            )].active && es[position(es, name)].kind is Dir,
            RouteView::Folder => true,
        },
{
    lemma_first_active(es, true);
    lemma_first_active(es, false);
    let u = first_active(es, true);
    let d = first_active(es, false);
    if dynamic && u < es.len() {
        lemma_position(es, es[u].name);
        let p = position(es, es[u].name);
        if p != u {
            assert(es[p].name == es[u].name);
        }
    } else if dynamic && d < es.len() {
        lemma_position(es, es[d].name);
        let p = position(es, es[d].name);
        if p != d {
            assert(es[p].name == es[d].name);
        }
    }
}

/// With dynamic routing the main folder is the destination only where no
/// corpus is active, and a directory only where no address corpus is.
pub proof fn law_active_corpora_come_first(es: Seq<EntryView>)
    ensures
        web_route(true, es) is Folder <==> (forall|i: int|
            0 <= i < es.len() ==> !(#[trigger] es[i]).active),
        web_route(true, es) is Dir ==> (forall|i: int|
            0 <= i < es.len() && (#[trigger] es[i]).active ==> es[i].kind is Dir),
{
    lemma_first_active(es, true);
    lemma_first_active(es, false);
    let u = first_active(es, true);
    let d = first_active(es, false);
    if u == es.len() && d == es.len() {
        assert forall|i: int| 0 <= i < es.len() implies !(#[trigger] es[i]).active by {
            assert(0 <= i < u);
        }
    }
}

impl FolderCorpus {
    /// A directory corpus with that name.
    pub fn named(name: &str, folder: &str) -> (r: FolderCorpus)
        ensures
            r.name@ == name@,
            r.folder@ == folder@,
    {
        FolderCorpus { name: name.to_owned(), folder: folder.to_owned() }
    }
}

impl UrlCorpus {
    /// An address corpus with that name and no addresses yet.
    pub fn new(name: &str) -> (r: UrlCorpus)
        ensures
            r.name@ == name@,
            r.urls@ == Seq::<String>::empty(),
    {
        UrlCorpus { name: name.to_owned(), urls: Vec::new() }
    }

    /// Adds an address at the end of the list.
    pub fn add_url(&mut self, url: &str)
        ensures
            final(self).name == old(self).name,
            text::texts(final(self).urls@) == text::texts(old(self).urls@).push(url@),
    {
        let ghost before = self.urls@;
        self.urls.push(url.to_owned());
        assert(text::texts(self.urls@) =~= text::texts(before).push(url@));
    }
}

impl CorpusKind {
    /// `dir` or `urls`, for display.
    pub fn label(&self) -> (r: &'static str)
        ensures
            r@ == self@.label(),
    {
        match self {
            CorpusKind::Dir(_) => "dir",
            CorpusKind::Urls(_) => "urls",
        }
    }

    /// The name under which documents of this corpus are stored.
    pub fn name(&self) -> (r: &str)
        ensures
            r@ == self@.name(),
    {
        match self {
            CorpusKind::Dir(c) => c.name.as_str(),
            CorpusKind::Urls(c) => c.name.as_str(),
        }
    }
}

impl CorpusEntry {
    /// The corpus itself, for ingestion.
    pub fn as_corpus(&self) -> (r: &CorpusKind)
        ensures
            *r == self.kind,
    {
        &self.kind
    }
}

/// The position of the corpus with that name, if there is one.
pub fn find(corpora: &[CorpusEntry], name: &str) -> (r: Option<usize>)
    ensures
        match r {
            Some(i) => i == position(entries(corpora@), name@) && i < corpora@.len(),
            None => position(entries(corpora@), name@) == corpora@.len(),
        },
{
    let ghost es = entries(corpora@);
    let mut i: usize = 0;
    assert(es.skip(0) =~= es);
    while i < corpora.len()
        invariant
            i <= corpora@.len(),
            es == entries(corpora@),
            position(es, name@) == i + position(es.skip(i as int), name@),
        decreases corpora@.len() - i,
    {
        assert(es.skip(i as int)[0] == corpora@[i as int]@);
        if text::same(corpora[i].name.as_str(), name) {
            return Some(i);
        }
        assert(es.skip(i as int).drop_first() =~= es.skip(i + 1));
        i += 1;
    }
    None
}

/// The name and the value of a `NAME=VALUE` argument.
fn read_named(arg: &str) -> (r: Option<(String, String)>)
    ensures
        match r {
            Some(p) => named_value(arg@) == Some((p.0@, p.1@)),
            None => named_value(arg@) is None,
        },
{
    match text::split_once(arg, '=') {
        Some((n, v)) => {
            let name = text::trim(n.as_str());
            let value = text::trim(v.as_str());
            if name.as_str().is_empty() || value.as_str().is_empty() {
                None
            } else {
                Some((name, value))
            }
        },
        None => None,
    }
}

/// Reads the `NAME=VALUE` arguments of the command line into corpora.
///
/// A directory argument gives a directory corpus. An address argument adds its
/// address to the corpus of that name, so that repeating a name builds one
/// curated list. Duplicate names are rejected: every corpus keeps a name of
/// its own in the store. All corpora start active.
pub fn parse_corpora(corpus_dirs: &[String], corpus_urls: &[String]) -> (r: Result<
    Vec<CorpusEntry>,
    String,
>)
    ensures
        match r {
            Ok(v) => corpora_of(text::texts(corpus_dirs@), text::texts(corpus_urls@)) == Ok::<
                Seq<EntryView>,
                Seq<char>,
            >(entries(v@)),
            Err(e) => corpora_of(text::texts(corpus_dirs@), text::texts(corpus_urls@)) == Err::<
                Seq<EntryView>,
                Seq<char>,
            >(e@),
        },
        r matches Ok(v) ==> names_are_unique(entries(v@)) && names_agree(entries(v@)),
{
    let ghost dir_args = text::texts(corpus_dirs@);
    let ghost url_args = text::texts(corpus_urls@);
    let mut dirs: Vec<CorpusEntry> = Vec::new();
    let mut i: usize = 0;
    assert(dir_args.take(0) =~= Seq::<Seq<char>>::empty());
    assert(entries(dirs@) =~= Seq::<EntryView>::empty());
    while i < corpus_dirs.len()
        invariant
            i <= corpus_dirs@.len(),
            dir_args == text::texts(corpus_dirs@),
            url_args == text::texts(corpus_urls@),
            dir_corpora(dir_args.take(i as int)) == Ok::<Seq<EntryView>, Seq<char>>(
                entries(dirs@),
            ),
        decreases corpus_dirs@.len() - i,
    {
        let ghost upto = dir_args.take(i + 1);
        assert(upto.drop_last() =~= dir_args.take(i as int));
        assert(upto.last() == corpus_dirs@[i as int]@);
        proof {
            lemma_arguments_stay_refused(Seq::empty(), dir_args, i + 1);
        }
        match read_named(corpus_dirs[i].as_str()) {
            None => {
                let mut m = "Invalid --corpus-dir '".to_string();
                m.append(corpus_dirs[i].as_str());
                m.append("': expected NAME=/path/to/dir");
                return Err(m);
            },
            Some((name, folder)) => {
                proof {
                    lemma_position(entries(dirs@), name@);
                }
                if let Some(_) = find(dirs.as_slice(), name.as_str()) {
                    let mut m = "Duplicate corpus name '".to_string();
                    m.append(name.as_str());
                    m.append("'");
                    return Err(m);
                }
                let ghost before = dirs@;
                let entry = CorpusEntry {
                    kind: CorpusKind::Dir(FolderCorpus::named(name.as_str(), folder.as_str())),
                    name,
                    active: true,
                };
                dirs.push(entry);
                assert(entries(dirs@) =~= entries(before).push(dir_entry(name@, folder@)));
            },
        }
        i += 1;
    }
    assert(dir_args.take(i as int) =~= dir_args);

    let ghost fixed = entries(dirs@);
    let mut urls: Vec<CorpusEntry> = Vec::new();
    let mut j: usize = 0;
    assert(url_args.take(0) =~= Seq::<Seq<char>>::empty());
    assert(entries(urls@) =~= Seq::<EntryView>::empty());
    while j < corpus_urls.len()
        invariant
            j <= corpus_urls@.len(),
            dir_args == text::texts(corpus_dirs@),
            url_args == text::texts(corpus_urls@),
            dir_corpora(dir_args) == Ok::<Seq<EntryView>, Seq<char>>(fixed),
            fixed == entries(dirs@),
            url_corpora(fixed, url_args.take(j as int)) == Ok::<Seq<EntryView>, Seq<char>>(
                entries(urls@),
            ),
        decreases corpus_urls@.len() - j,
    {
        let ghost upto = url_args.take(j + 1);
        assert(upto.drop_last() =~= url_args.take(j as int));
        assert(upto.last() == corpus_urls@[j as int]@);
        proof {
            lemma_arguments_stay_refused(fixed, url_args, j + 1);
        }
        match read_named(corpus_urls[j].as_str()) {
            None => {
                let mut m = "Invalid --corpus-urls '".to_string();
                m.append(corpus_urls[j].as_str());
                m.append("': expected NAME=URL");
                return Err(m);
            },
            Some((name, url)) => {
                let ghost before = urls@;
                proof {
                    lemma_position(entries(urls@), name@);
                    lemma_position(fixed, name@);
                    lemma_url_corpora(fixed, url_args.take(j as int));
                }
                if let Some(k) = find(urls.as_slice(), name.as_str()) {
                    let mut entry = urls.remove(k);
                    add_address(&mut entry, url.as_str());
                    urls.insert(k, entry);
                    assert(entries(urls@) =~= entries(before).update(
                        k as int,
                        with_url(before[k as int]@, url@),
                    ));
                } else {
                    if let Some(_) = find(dirs.as_slice(), name.as_str()) {
                        let mut m = "Duplicate corpus name '".to_string();
                        m.append(name.as_str());
                        m.append("' (already a --corpus-dir corpus)");
                        return Err(m);
                    }
                    let mut corpus = UrlCorpus::new(name.as_str());
                    assert(text::texts(corpus.urls@) =~= Seq::<Seq<char>>::empty());
                    corpus.add_url(url.as_str());
                    assert(text::texts(corpus.urls@) =~= seq![url@]);
                    let ghost n = name@;
                    urls.push(CorpusEntry { name, kind: CorpusKind::Urls(corpus), active: true });
                    assert(entries(urls@) =~= entries(before).push(url_entry(n, seq![url@])));
                }
            },
        }
        j += 1;
    }
    assert(url_args.take(j as int) =~= url_args);

    let ghost a = dirs@;
    let ghost b = urls@;
    dirs.append(&mut urls);
    assert(entries(dirs@) =~= entries(a) + entries(b));
    proof {
        law_accepted_corpora_are_distinct_and_active(dir_args, url_args);
    }
    Ok(dirs)
}

/// Adds an address to an address corpus; a directory corpus is left alone.
pub fn add_address(entry: &mut CorpusEntry, url: &str)
    ensures
        final(entry)@ == with_url(old(entry)@, url@),
{
    match &mut entry.kind {
        CorpusKind::Urls(c) => {
            c.add_url(url);
        },
        CorpusKind::Dir(_) => {},
    }
}

/// Once the first arguments are refused, all of them are, for the same reason,
/// be they directories or, behind the directories `dirs`, addresses.
proof fn lemma_arguments_stay_refused(dirs: Seq<EntryView>, args: Seq<Seq<char>>, k: int)
    requires
        0 <= k <= args.len(),
    ensures
        dir_corpora(args.take(k)) is Err ==> dir_corpora(args) == dir_corpora(args.take(k)),
        url_corpora(dirs, args.take(k)) is Err ==> url_corpora(dirs, args) == url_corpora(
            dirs,
            args.take(k),
        ),
    decreases args.len() - k,
{
    if k == args.len() {
        assert(args.take(k) =~= args);
    } else {
        assert(args.take(k + 1).drop_last() =~= args.take(k));
        lemma_arguments_stay_refused(dirs, args, k + 1);
    }
}

/// The position of the first active corpus of a kind, if there is one.
fn find_active(corpora: &[CorpusEntry], urls: bool) -> (r: Option<usize>)
    ensures
        match r {
            Some(i) => i == first_active(entries(corpora@), urls) && i < corpora@.len(),
            None => first_active(entries(corpora@), urls) == corpora@.len(),
        },
{
    let ghost es = entries(corpora@);
    let mut i: usize = 0;
    assert(es.skip(0) =~= es);
    while i < corpora.len()
        invariant
            i <= corpora@.len(),
            es == entries(corpora@),
            first_active(es, urls) == i + first_active(es.skip(i as int), urls),
        decreases corpora@.len() - i,
    {
        assert(es.skip(i as int)[0] == corpora@[i as int]@);
        let is_urls = match &corpora[i].kind {
            CorpusKind::Urls(_) => true,
            CorpusKind::Dir(_) => false,
        };
        if corpora[i].active && is_urls == urls {
            return Some(i);
        }
        assert(es.skip(i as int).drop_first() =~= es.skip(i + 1));
        i += 1;
    }
    None
}

/// Chooses where a document from the web goes.
pub fn pick_web_route(dyn_corpora: bool, corpora: &[CorpusEntry]) -> (r: WebRoute)
    ensures
        r@ == web_route(dyn_corpora, entries(corpora@)),
{
    if dyn_corpora {
        if let Some(i) = find_active(corpora, true) {
            return WebRoute::Url { name: corpora[i].name.clone() };
        }
        if let Some(i) = find_active(corpora, false) {
            return WebRoute::Dir { name: corpora[i].name.clone() };
        }
    }
    WebRoute::Folder
}

} // verus!
