//! Text primitives on sequences of characters: trimming, splitting, joining,
//! padding and comparing.

use vstd::prelude::*;

verus! {

/// Appending one character to a `String` adds that character at the end
/// (`String::push`).
pub assume_specification[ String::push ](s: &mut String, c: char)
    ensures
        final(s)@ == old(s)@.push(c),
;

/// The lowercase form of a text, as `str::to_lowercase` gives it.
pub uninterp spec fn lowercase_of(s: Seq<char>) -> Seq<char>;

/// `str::to_lowercase` depends on the characters alone. On ASCII text it
/// replaces each capital letter by the small one.
pub assume_specification[ str::to_lowercase ](s: &str) -> (r: String)
    ensures
        r@ == lowercase_of(s@),
        is_ascii_text(s@) ==> r@ == ascii_lowered(s@),
;

/// Whether all characters are ASCII characters.
pub open spec fn is_ascii_text(s: Seq<char>) -> bool {
    forall|i: int| 0 <= i < s.len() ==> #[trigger] s[i] <= '\u{7f}'
}

/// The contents of a list of strings.
pub open spec fn texts(v: Seq<String>) -> Seq<Seq<char>> {
    Seq::new(v.len(), |i: int| v[i]@)
}

/// The contents of an optional string.
pub open spec fn opt_text(o: Option<String>) -> Option<Seq<char>> {
    match o {
        Some(s) => Some(s@),
        None => None,
    }
}

/// The contents of an optional string slice.
pub open spec fn opt_str(o: Option<&str>) -> Option<Seq<char>> {
    match o {
        Some(s) => Some(s@),
        None => None,
    }
}

/// An optional string as an optional slice.
pub fn as_opt_str(o: &Option<String>) -> (r: Option<&str>)
    ensures
        opt_str(r) == opt_text(*o),
{
    match o {
        Some(s) => Some(s.as_str()),
        None => None,
    }
}

/// Characters with the Unicode `White_Space` property.
pub open spec fn is_space(c: char) -> bool {
    ||| '\u{9}' <= c && c <= '\u{d}'
    ||| c == '\u{20}'
    ||| c == '\u{85}'
    ||| c == '\u{a0}'
    ||| c == '\u{1680}'
    ||| '\u{2000}' <= c && c <= '\u{200a}'
    ||| c == '\u{2028}'
    ||| c == '\u{2029}'
    ||| c == '\u{202f}'
    ||| c == '\u{205f}'
    ||| c == '\u{3000}'
}

/// Whether `c` is white space.
pub fn space(c: char) -> (r: bool)
    ensures
        r == is_space(c),
{
    ('\u{9}' <= c && c <= '\u{d}') || c == '\u{20}' || c == '\u{85}' || c == '\u{a0}' || c
        == '\u{1680}' || ('\u{2000}' <= c && c <= '\u{200a}') || c == '\u{2028}' || c == '\u{2029}'
        || c == '\u{202f}' || c == '\u{205f}' || c == '\u{3000}'
}

/// `s` without its leading white space.
pub open spec fn trim_start(s: Seq<char>) -> Seq<char>
    decreases s.len(),
{
    if s.len() > 0 && is_space(s[0]) {
        trim_start(s.drop_first())
    } else {
        s
    }
}

/// `s` without its trailing white space.
pub open spec fn trim_end(s: Seq<char>) -> Seq<char>
    decreases s.len(),
{
    if s.len() > 0 && is_space(s.last()) {
        trim_end(s.drop_last())
    } else {
        s
    }
}

/// `s` without leading and trailing white space.
pub open spec fn trimmed(s: Seq<char>) -> Seq<char> {
    trim_end(trim_start(s))
}

/// The number of characters before the first white space.
pub open spec fn word_len(s: Seq<char>) -> int
    decreases s.len(),
{
    if s.len() == 0 || is_space(s[0]) {
        0
    } else {
        1 + word_len(s.drop_first())
    }
}

/// What trimming at the front leaves: a suffix that is empty or starts with a
/// visible character.
pub proof fn lemma_trim_start(s: Seq<char>)
    ensures
        trim_start(s).len() <= s.len(),
        trim_start(s) == s.skip(s.len() - trim_start(s).len()),
        trim_start(s).len() > 0 ==> !is_space(trim_start(s)[0]),
    decreases s.len(),
{
    if s.len() > 0 && is_space(s[0]) {
        lemma_trim_start(s.drop_first());
        let n = trim_start(s).len() as int;
        assert(s.drop_first().skip(s.drop_first().len() - n) =~= s.skip(s.len() - n));
    } else {
        assert(s.skip(0) =~= s);
    }
}

/// What trimming at the end leaves: a prefix that is empty or ends with a
/// visible character.
pub proof fn lemma_trim_end(s: Seq<char>)
    ensures
        trim_end(s).len() <= s.len(),
        trim_end(s) == s.take(trim_end(s).len() as int),
        trim_end(s).len() > 0 ==> !is_space(trim_end(s).last()),
    decreases s.len(),
{
    if s.len() > 0 && is_space(s.last()) {
        lemma_trim_end(s.drop_last());
        let n = trim_end(s).len() as int;
        assert(s.drop_last().take(n) =~= s.take(n));
    } else {
        assert(s.take(s.len() as int) =~= s);
    }
}

/// Trimming a second time changes nothing.
pub proof fn lemma_trimmed_is_stable(s: Seq<char>)
    ensures
        trimmed(trimmed(s)) == trimmed(s),
{
    let u = trim_start(s);
    let t = trim_end(u);
    lemma_trim_start(s);
    lemma_trim_end(u);
    if t.len() > 0 {
        assert(t[0] == u[0]);
    }
    assert(trim_start(t) == t);
    assert(trim_end(t) == t);
}

pub proof fn lemma_word_len(s: Seq<char>)
    ensures
        0 <= word_len(s) <= s.len(),
        s.len() > 0 && !is_space(s[0]) ==> word_len(s) > 0,
    decreases s.len(),
{
    if s.len() > 0 && !is_space(s[0]) {
        lemma_word_len(s.drop_first());
    }
}

/// The words of `s`: its longest runs without white space, in order.
pub open spec fn words_of(s: Seq<char>) -> Seq<Seq<char>>
    decreases s.len(),
{
    let t = trim_start(s);
    if t.len() == 0 {
        Seq::empty()
    } else {
        proof {
            lemma_trim_start(s);
            lemma_word_len(t);
        }
        seq![t.take(word_len(t))] + words_of(t.skip(word_len(t)))
    }
}

/// The `i`-th word of a list of words, empty where there is none.
pub open spec fn word_at(ws: Seq<Seq<char>>, i: int) -> Seq<char> {
    if 0 <= i < ws.len() {
        ws[i]
    } else {
        Seq::empty()
    }
}

/// The `i`-th word of a list of words, if there is one.
pub open spec fn word_get(ws: Seq<Seq<char>>, i: int) -> Option<Seq<char>> {
    if 0 <= i < ws.len() {
        Some(ws[i])
    } else {
        None
    }
}

/// The position of the first `c` in `s`, or the length of `s` where there is
/// none.
pub open spec fn index_of(s: Seq<char>, c: char) -> int
    decreases s.len(),
{
    if s.len() == 0 || s[0] == c {
        0
    } else {
        1 + index_of(s.drop_first(), c)
    }
}

/// What stands before and after the first `c` in `s`.
pub open spec fn split_once_of(s: Seq<char>, c: char) -> Option<(Seq<char>, Seq<char>)> {
    let i = index_of(s, c);
    if i < s.len() {
        Some((s.take(i), s.skip(i + 1)))
    } else {
        None
    }
}

pub proof fn lemma_index_of(s: Seq<char>, c: char)
    ensures
        0 <= index_of(s, c) <= s.len(),
        index_of(s, c) < s.len() ==> s[index_of(s, c)] == c,
        forall|i: int| 0 <= i < index_of(s, c) ==> s[i] != c,
    decreases s.len(),
{
    if s.len() > 0 && s[0] != c {
        let t = s.drop_first();
        lemma_index_of(t, c);
        assert forall|i: int| 0 <= i < index_of(s, c) implies s[i] != c by {
            if i > 0 {
                assert(t[i - 1] == s[i]);
            }
        }
    }
}

/// The pieces of `s` between the separators `c`.
pub open spec fn pieces_of(s: Seq<char>, c: char) -> Seq<Seq<char>>
    decreases s.len(),
{
    let i = index_of(s, c);
    if i >= s.len() {
        seq![s]
    } else {
        proof {
            lemma_index_of(s, c);
        }
        seq![s.take(i)] + pieces_of(s.skip(i + 1), c)
    }
}

/// The parts put together, with `sep` between neighbours.
pub open spec fn joined(parts: Seq<Seq<char>>, sep: Seq<char>) -> Seq<char>
    decreases parts.len(),
{
    if parts.len() == 0 {
        Seq::empty()
    } else if parts.len() == 1 {
        parts[0]
    } else {
        joined(parts.drop_last(), sep) + sep + parts.last()
    }
}

/// `c` with an ASCII capital letter replaced by the small one.
pub open spec fn ascii_lower(c: char) -> char {
    if 'A' <= c && c <= 'Z' {
        ((c as u8) + 32) as u8 as char
    } else {
        c
    }
}

/// `s` with its ASCII capital letters replaced by small ones.
pub open spec fn ascii_lowered(s: Seq<char>) -> Seq<char> {
    Seq::new(s.len(), |i: int| ascii_lower(s[i]))
}

/// Equality up to the case of ASCII letters.
pub open spec fn same_ignoring_case(a: Seq<char>, b: Seq<char>) -> bool {
    ascii_lowered(a) == ascii_lowered(b)
}

/// `n` times the character `c`.
pub open spec fn repeated(c: char, n: nat) -> Seq<char> {
    Seq::new(n, |i: int| c)
}

/// `s` followed by as many blanks as it takes to fill `width` columns.
pub open spec fn padded_end(s: Seq<char>, width: nat) -> Seq<char> {
    if s.len() < width {
        s + repeated(' ', (width - s.len()) as nat)
    } else {
        s
    }
}

/// `s` preceded by as many blanks as it takes to fill `width` columns.
pub open spec fn padded_start(s: Seq<char>, width: nat) -> Seq<char> {
    if s.len() < width {
        repeated(' ', (width - s.len()) as nat) + s
    } else {
        s
    }
}

/// At most the first `n` characters of `s`.
pub open spec fn truncated(s: Seq<char>, n: nat) -> Seq<char> {
    if s.len() <= n {
        s
    } else {
        s.take(n as int)
    }
}

/// Whether `w` is a word: not empty, and without white space.
pub open spec fn is_word(w: Seq<char>) -> bool {
    w.len() > 0 && forall|i: int| 0 <= i < w.len() ==> !is_space(#[trigger] w[i])
}

/// Whether `s` is made of white space alone.
pub open spec fn is_blank(s: Seq<char>) -> bool {
    forall|i: int| 0 <= i < s.len() ==> is_space(#[trigger] s[i])
}

/// Whether `s` begins and ends with a visible character.
pub open spec fn is_tight(s: Seq<char>) -> bool {
    s.len() > 0 && !is_space(s[0]) && !is_space(s[s.len() - 1])
}

/// Blank, tab and the line ends are white space; the printable ASCII characters
/// are not.
pub proof fn law_printable_characters_are_no_space(c: char)
    ensures
        c == ' ' || c == '\t' || c == '\n' || c == '\r' ==> is_space(c),
        '!' <= c && c <= '~' ==> !is_space(c),
{
}

proof fn lemma_trim_start_skips(a: Seq<char>, t: Seq<char>)
    requires
        is_blank(a),
    ensures
        trim_start(a + t) == trim_start(t),
    decreases a.len(),
{
    if a.len() == 0 {
        assert(a + t =~= t);
    } else {
        assert(is_space(a[0]));
        let b = a.drop_first();
        assert forall|i: int| 0 <= i < b.len() implies is_space(#[trigger] b[i]) by {
            assert(b[i] == a[i + 1]);
        }
        lemma_trim_start_skips(b, t);
        assert((a + t).drop_first() =~= b + t);
    }
}

proof fn lemma_trim_end_skips(t: Seq<char>, b: Seq<char>)
    requires
        is_blank(b),
    ensures
        trim_end(t + b) == trim_end(t),
    decreases b.len(),
{
    if b.len() == 0 {
        assert(t + b =~= t);
    } else {
        assert(is_space(b[b.len() - 1]));
        let a = b.drop_last();
        assert forall|i: int| 0 <= i < a.len() implies is_space(#[trigger] a[i]) by {
            assert(a[i] == b[i]);
        }
        lemma_trim_end_skips(t, a);
        assert((t + b).drop_last() =~= t + a);
    }
}

/// White space is the tabulator, the characters that end a line or a page, and the
/// blanks of every width.
pub proof fn law_white_space_is_what_separates(c: char)
    ensures
        c == '\t' || c == '\n' || c == '\r' || c == ' ' ==> is_space(c),
        c == '\u{b}' || c == '\u{c}' || c == '\u{85}' || c == '\u{2028}' || c == '\u{2029}'
            ==> is_space(c),
        c == '\u{a0}' || c == '\u{1680}' || c == '\u{202f}' || c == '\u{205f}' || c == '\u{3000}'
            ==> is_space(c),
        '\u{2000}' <= c && c <= '\u{200a}' ==> is_space(c),
        is_space(c) && c > '\u{3000}' ==> false,
        is_space(c) && c < '\u{9}' ==> false,
        '\u{d}' < c && c < ' ' ==> !is_space(c),
        '\u{200a}' < c && c < '\u{2028}' ==> !is_space(c),
        '\u{a0}' < c && c < '\u{1680}' ==> !is_space(c),
{
}

/// Trimming takes away the white space around a text and nothing else.
pub proof fn law_trimming_removes_what_surrounds(a: Seq<char>, s: Seq<char>, b: Seq<char>)
    requires
        is_blank(a),
        is_blank(b),
        s.len() == 0 || is_tight(s),
    ensures
        trimmed(a + s + b) == s,
{
    assert(a + s + b =~= a + (s + b));
    lemma_trim_start_skips(a, s + b);
    if s.len() == 0 {
        lemma_trim_start_skips(b, Seq::empty());
        assert(s + b =~= b + Seq::<char>::empty());
        assert(trim_start(Seq::<char>::empty()) =~= Seq::<char>::empty());
        assert(trim_end(Seq::<char>::empty()) =~= s);
    } else {
        assert((s + b)[0] == s[0]);
        assert(trim_start(s + b) == s + b);
        lemma_trim_end_skips(s, b);
        assert(s.last() == s[s.len() - 1]);
    }
}

/// A text that begins and ends with visible characters is left as it is.
pub proof fn lemma_tight_is_trimmed(s: Seq<char>)
    requires
        s.len() == 0 || is_tight(s),
    ensures
        trimmed(s) == s,
{
    law_trimming_removes_what_surrounds(Seq::empty(), s, Seq::empty());
    assert(Seq::<char>::empty() + s + Seq::<char>::empty() =~= s);
}

/// A word begins and ends with visible characters.
pub proof fn lemma_word_is_tight(w: Seq<char>)
    requires
        is_word(w),
    ensures
        is_tight(w),
        trimmed(w) == w,
{
    lemma_tight_is_trimmed(w);
}

proof fn lemma_word_ends(w: Seq<char>, rest: Seq<char>)
    requires
        forall|i: int| 0 <= i < w.len() ==> !is_space(#[trigger] w[i]),
        rest.len() == 0 || is_space(rest[0]),
    ensures
        word_len(w + rest) == w.len(),
    decreases w.len(),
{
    if w.len() == 0 {
        assert(w + rest =~= rest);
    } else {
        let v = w.drop_first();
        assert forall|i: int| 0 <= i < v.len() implies !is_space(#[trigger] v[i]) by {
            assert(v[i] == w[i + 1]);
        }
        lemma_word_ends(v, rest);
        assert((w + rest).drop_first() =~= v + rest);
        assert((w + rest)[0] == w[0]);
    }
}

/// A word at the beginning is the first word, and the others follow.
pub proof fn lemma_first_word(w: Seq<char>, rest: Seq<char>)
    requires
        is_word(w),
        rest.len() == 0 || is_space(rest[0]),
    ensures
        words_of(w + rest) == seq![w] + words_of(rest),
{
    let s = w + rest;
    assert(s[0] == w[0]);
    assert(trim_start(s) == s);
    lemma_word_ends(w, rest);
    assert(s.take(w.len() as int) =~= w);
    assert(s.skip(w.len() as int) =~= rest);
}

/// White space at the beginning is no part of a word.
pub proof fn lemma_words_skip(a: Seq<char>, rest: Seq<char>)
    requires
        is_blank(a),
    ensures
        words_of(a + rest) == words_of(rest),
{
    lemma_trim_start_skips(a, rest);
}

/// The words of a line with single blanks between its words are these words, in
/// their order.
pub proof fn law_words_are_read_back(ws: Seq<Seq<char>>)
    requires
        forall|i: int| 0 <= i < ws.len() ==> is_word(#[trigger] ws[i]),
    ensures
        words_of(joined(ws, " "@)) == ws,
    decreases ws.len(),
{
    lemma_words_before(ws, Seq::empty());
    assert(joined(ws, " "@) + Seq::<char>::empty() =~= joined(ws, " "@));
    assert(trim_start(Seq::<char>::empty()) =~= Seq::<char>::empty());
    assert(words_of(Seq::<char>::empty()) =~= Seq::<Seq<char>>::empty());
    assert(ws + Seq::<Seq<char>>::empty() =~= ws);
}

proof fn lemma_words_before(ws: Seq<Seq<char>>, rest: Seq<char>)
    requires
        forall|i: int| 0 <= i < ws.len() ==> is_word(#[trigger] ws[i]),
        rest.len() == 0 || is_space(rest[0]),
    ensures
        words_of(joined(ws, " "@) + rest) == ws + words_of(rest),
    decreases ws.len(),
{
    reveal_strlit(" ");
    if ws.len() == 0 {
        assert(joined(ws, " "@) + rest =~= rest);
        assert(ws + words_of(rest) =~= words_of(rest));
    } else if ws.len() == 1 {
        assert(is_word(ws[0]));
        lemma_first_word(ws[0], rest);
        assert(ws =~= seq![ws[0]]);
    } else {
        let before = ws.drop_last();
        let last = ws[ws.len() - 1];
        assert(is_word(last));
        assert forall|i: int| 0 <= i < before.len() implies is_word(#[trigger] before[i]) by {
            assert(is_word(ws[i]));
        }
        let tail = " "@ + last + rest;
        lemma_words_before(before, tail);
        assert(joined(ws, " "@) + rest =~= joined(before, " "@) + tail);
        assert(tail =~= " "@ + (last + rest));
        lemma_words_skip(" "@, last + rest);
        lemma_first_word(last, rest);
        assert(before + (seq![last] + words_of(rest)) =~= ws + words_of(rest));
    }
}

/// The words of a line of one, two or three words.
pub proof fn lemma_few_words(a: Seq<char>, b: Seq<char>, c: Seq<char>)
    requires
        is_word(a),
    ensures
        words_of(a) == seq![a],
        is_word(b) ==> words_of(a + " "@ + b) == seq![a, b],
        is_word(b) && is_word(c) ==> words_of(a + " "@ + b + " "@ + c) == seq![a, b, c],
        is_tight(a),
        is_word(b) ==> is_tight(a + " "@ + b),
        is_word(b) && is_word(c) ==> is_tight(a + " "@ + b + " "@ + c),
{
    reveal_strlit(" ");
    let one = seq![a];
    law_words_are_read_back(one);
    if is_word(b) {
        let two = seq![a, b];
        assert(two.drop_last() =~= one);
        law_words_are_read_back(two);
        assert((a + " "@ + b)[0] == a[0]);
        assert((a + " "@ + b)[(a + " "@ + b).len() - 1] == b[b.len() - 1]);
        if is_word(c) {
            let three = seq![a, b, c];
            assert(three.drop_last() =~= two);
            law_words_are_read_back(three);
            let s = a + " "@ + b + " "@ + c;
            assert(s[0] == a[0]);
            assert(s[s.len() - 1] == c[c.len() - 1]);
        }
    }
}

/// Splitting at a separator loses nothing but the separators: the pieces, put
/// together with the separator between them, are the text, and no piece holds a
/// separator.
pub proof fn law_pieces_are_what_lies_between(s: Seq<char>, c: char)
    ensures
        joined(pieces_of(s, c), seq![c]) == s,
        forall|i: int| 0 <= i < pieces_of(s, c).len() ==> !(#[trigger] pieces_of(s, c)[i]).contains(c),
    decreases s.len(),
{
    lemma_index_of(s, c);
    let i = index_of(s, c);
    let ps = pieces_of(s, c);
    if i >= s.len() {
        assert(ps =~= seq![s]);
    } else {
        let rest = s.skip(i + 1);
        let qs = pieces_of(rest, c);
        law_pieces_are_what_lies_between(rest, c);
        assert(ps =~= seq![s.take(i)] + qs);
        lemma_pieces_exist(rest, c);
        lemma_joined_front(s.take(i), qs, seq![c]);
        assert(s.take(i) + seq![c] + rest =~= s);
        assert forall|k: int| 0 <= k < ps.len() implies !(#[trigger] ps[k]).contains(c) by {
            if k > 0 {
                assert(ps[k] == qs[k - 1]);
            }
        }
    }
}

proof fn lemma_pieces_exist(s: Seq<char>, c: char)
    ensures
        pieces_of(s, c).len() > 0,
{
    lemma_index_of(s, c);
}

/// The parts with one more in front.
pub proof fn lemma_joined_front(first: Seq<char>, parts: Seq<Seq<char>>, sep: Seq<char>)
    requires
        parts.len() > 0,
    ensures
        joined(seq![first] + parts, sep) == first + sep + joined(parts, sep),
    decreases parts.len(),
{
    let all = seq![first] + parts;
    if parts.len() == 1 {
        assert(all.drop_last() =~= seq![first]);
        assert(joined(all.drop_last(), sep) == first);
    } else {
        lemma_joined_front(first, parts.drop_last(), sep);
        assert(all.drop_last() =~= seq![first] + parts.drop_last());
        assert(first + sep + joined(parts.drop_last(), sep) + sep + parts.last() =~= first + sep + (
        joined(parts.drop_last(), sep) + sep + parts.last()));
    }
}

/// A text is split at the first separator: nothing before it holds one, and both
/// halves with the separator between them are the text.
pub proof fn law_split_is_at_the_first_separator(s: Seq<char>, c: char)
    ensures
        match split_once_of(s, c) {
            Some((before, after)) => s == before + seq![c] + after && !before.contains(c),
            None => !s.contains(c),
        },
{
    lemma_index_of(s, c);
    let i = index_of(s, c);
    if i < s.len() {
        assert(s =~= s.take(i) + seq![c] + s.skip(i + 1));
    }
}

/// A text with a separator behind a part without one is split there.
pub proof fn law_split_finds_its_separator(before: Seq<char>, c: char, after: Seq<char>)
    requires
        !before.contains(c),
    ensures
        split_once_of(before + seq![c] + after, c) == Some((before, after)),
{
    let s = before + seq![c] + after;
    lemma_index_of(s, c);
    let i = index_of(s, c);
    assert(s[before.len() as int] == c);
    if i < before.len() {
        assert(before[i] == s[i]);
    }
    assert(s.take(i) =~= before);
    assert(s.skip(i + 1) =~= after);
}

/// Two texts are the same up to case exactly where they are equally long and
/// differ in nothing but whether an ASCII letter is a capital one.
pub proof fn law_case_is_what_is_ignored(a: Seq<char>, b: Seq<char>)
    ensures
        same_ignoring_case(a, b) <==> a.len() == b.len() && (forall|i: int|
            0 <= i < a.len() ==> (#[trigger] a[i] == b[i] || ('A' <= a[i] && a[i] <= 'Z' && b[i] as u32
                == a[i] as u32 + 32) || ('A' <= b[i] && b[i] <= 'Z' && a[i] as u32 == b[i] as u32
                + 32))),
{
    let x = ascii_lowered(a);
    let y = ascii_lowered(b);
    if same_ignoring_case(a, b) {
        assert(x.len() == y.len());
        assert forall|i: int| 0 <= i < a.len() implies (#[trigger] a[i] == b[i] || ('A' <= a[i]
            && a[i] <= 'Z' && b[i] as u32 == a[i] as u32 + 32) || ('A' <= b[i] && b[i] <= 'Z'
            && a[i] as u32 == b[i] as u32 + 32)) by {
            assert(x[i] == y[i]);
        }
    }
    if a.len() == b.len() && (forall|i: int|
        0 <= i < a.len() ==> (#[trigger] a[i] == b[i] || ('A' <= a[i] && a[i] <= 'Z' && b[i] as u32
            == a[i] as u32 + 32) || ('A' <= b[i] && b[i] <= 'Z' && a[i] as u32 == b[i] as u32
            + 32))) {
        assert forall|i: int| 0 <= i < a.len() implies x[i] == y[i] by {
            assert(a[i] == b[i] || a[i] != b[i]);
        }
        assert(x =~= y);
    }
}

/// Padding fills up to the width with blanks on its side and changes nothing
/// else.
pub proof fn law_padding_adds_blanks_alone(s: Seq<char>, width: nat)
    ensures
        padded_end(s, width).len() == if s.len() < width {
            width
        } else {
            s.len()
        },
        padded_end(s, width).take(s.len() as int) == s,
        forall|i: int|
            s.len() <= i < padded_end(s, width).len() ==> #[trigger] padded_end(s, width)[i] == ' ',
        padded_start(s, width).len() == padded_end(s, width).len(),
        padded_start(s, width).skip(padded_start(s, width).len() - s.len()) == s,
        forall|i: int|
            0 <= i < padded_start(s, width).len() - s.len() ==> #[trigger] padded_start(s, width)[i]
                == ' ',
{
    assert(padded_end(s, width).take(s.len() as int) =~= s);
    assert(padded_start(s, width).skip(padded_start(s, width).len() - s.len()) =~= s);
}

/// Cutting a text short keeps its beginning, as much of it as there is room for.
pub proof fn law_cutting_keeps_the_beginning(s: Seq<char>, n: nat)
    ensures
        truncated(s, n).is_prefix_of(s),
        truncated(s, n).len() == if s.len() < n {
            s.len()
        } else {
            n
        },
{
}

/// The parts of a joined text follow each other with the separator between them.
pub proof fn law_joining_keeps_all_parts(parts: Seq<Seq<char>>, last: Seq<char>, sep: Seq<char>)
    ensures
        joined(Seq::<Seq<char>>::empty(), sep).len() == 0,
        joined(seq![last], sep) == last,
        parts.len() > 0 ==> joined(parts.push(last), sep) == joined(parts, sep) + sep + last,
{
    assert(parts.push(last).drop_last() =~= parts);
}

/// The characters of `s`.
pub fn chars_of(s: &str) -> (v: Vec<char>)
    ensures
        v@ == s@,
{
    let mut v: Vec<char> = Vec::new();
    for c in it: s.chars()
        invariant
            v@ == it.seq().take(it.index() as int),
            it.seq() == s@,
    {
        v.push(c);
    }
    v
}

/// The number of bytes of a text in UTF-8.
pub open spec fn byte_count(s: Seq<char>) -> nat {
    vstd::utf8::encode_utf8(s).len()
}

/// The number of bytes of `s`.
pub fn byte_len(s: &str) -> (n: usize)
    ensures
        n == byte_count(s@),
{
    s.as_bytes().len()
}

/// The string of the characters of `v` from `from` up to `to`.
pub fn string_of(v: &Vec<char>, from: usize, to: usize) -> (s: String)
    requires
        from <= to <= v.len(),
    ensures
        s@ == v@.subrange(from as int, to as int),
{
    let mut s = String::new();
    let mut i: usize = from;
    while i < to
        invariant
            from <= i <= to <= v.len(),
            s@ == v@.subrange(from as int, i as int),
        decreases to - i,
    {
        s.push(v[i]);
        i += 1;
        assert(v@.subrange(from as int, i as int) =~= v@.subrange(from as int, i - 1).push(
            v@[i - 1],
        ));
    }
    s
}

/// Whether two strings hold the same characters.
pub fn same(a: &str, b: &str) -> (r: bool)
    ensures
        r == (a@ == b@),
{
    let x = chars_of(a);
    let y = chars_of(b);
    if x.len() != y.len() {
        return false;
    }
    let mut i: usize = 0;
    while i < x.len()
        invariant
            i <= x.len(),
            x.len() == y.len(),
            x@ == a@,
            y@ == b@,
            forall|j: int| 0 <= j < i ==> x@[j] == y@[j],
        decreases x.len() - i,
    {
        if x[i] != y[i] {
            assert(a@[i as int] != b@[i as int]);
            return false;
        }
        i += 1;
    }
    assert(a@ =~= b@);
    true
}

/// `s` without leading and trailing white space.
pub fn trim(s: &str) -> (r: String)
    ensures
        r@ == trimmed(s@),
{
    let v = chars_of(s);
    let n: usize = v.len();
    let mut i: usize = 0;
    assert(v@.skip(0) =~= v@);
    while i < n && space(v[i])
        invariant
            i <= n == v.len(),
            v@ == s@,
            trim_start(v@.skip(i as int)) == trim_start(s@),
        decreases n - i,
    {
        assert(v@.skip(i as int).drop_first() =~= v@.skip(i + 1));
        i += 1;
    }
    let mut j: usize = n;
    assert(v@.subrange(i as int, j as int) =~= v@.skip(i as int));
    while i < j && space(v[j - 1])
        invariant
            i <= j <= n == v.len(),
            trim_end(v@.subrange(i as int, j as int)) == trimmed(s@),
        decreases j,
    {
        assert(v@.subrange(i as int, j as int).drop_last() =~= v@.subrange(i as int, j - 1));
        j -= 1;
    }
    string_of(&v, i, j)
}

/// The words of `s`, separated by white space.
pub fn words(s: &str) -> (r: Vec<String>)
    ensures
        texts(r@) == words_of(s@),
{
    let v = chars_of(s);
    let n: usize = v.len();
    let mut out: Vec<String> = Vec::new();
    let mut i: usize = 0;
    assert(v@.skip(0) =~= v@);
    assert(texts(out@) + words_of(s@) =~= words_of(s@));
    while i < n
        invariant
            i <= n == v.len(),
            v@ == s@,
            texts(out@) + words_of(v@.skip(i as int)) == words_of(s@),
        decreases n - i,
    {
        if space(v[i]) {
            assert(v@.skip(i as int).drop_first() =~= v@.skip(i + 1));
            proof {
                lemma_words_of_space(v@.skip(i as int));
            }
            i += 1;
        } else {
            let start: usize = i;
            let ghost rest = v@.skip(i as int);
            while i < n && !space(v[i])
                invariant
                    start <= i <= n == v.len(),
                    v@ == s@,
                    rest == v@.skip(start as int),
                    word_len(rest) == (i - start) + word_len(v@.skip(i as int)),
                decreases n - i,
            {
                assert(v@.skip(i as int).drop_first() =~= v@.skip(i + 1));
                i += 1;
            }
            assert(word_len(rest) == i - start);
            let w = string_of(&v, start, i);
            let ghost before = texts(out@);
            out.push(w);
            assert(rest.take(i - start) =~= w@);
            assert(rest.skip(i - start) =~= v@.skip(i as int));
            assert(texts(out@) =~= before.push(w@));
            assert(words_of(rest) == seq![w@] + words_of(v@.skip(i as int)));
            assert(texts(out@) + words_of(v@.skip(i as int)) =~= before + (seq![w@] + words_of(
                v@.skip(i as int),
            )));
        }
    }
    assert(v@.skip(i as int) =~= Seq::<char>::empty());
    assert(texts(out@) + words_of(v@.skip(i as int)) =~= texts(out@));
    out
}

proof fn lemma_words_of_space(s: Seq<char>)
    requires
        s.len() > 0,
        is_space(s[0]),
    ensures
        words_of(s) == words_of(s.drop_first()),
{
    assert(trim_start(s) == trim_start(s.drop_first()));
}

/// The `i`-th of `ws`, or the empty string.
pub fn word(ws: &Vec<String>, i: usize) -> (r: String)
    ensures
        r@ == word_at(texts(ws@), i as int),
{
    if i < ws.len() {
        ws[i].clone()
    } else {
        String::new()
    }
}

/// The `i`-th of `ws`, if there is one.
pub fn word_opt(ws: &Vec<String>, i: usize) -> (r: Option<String>)
    ensures
        opt_text(r) == word_get(texts(ws@), i as int),
{
    if i < ws.len() {
        Some(ws[i].clone())
    } else {
        None
    }
}

/// Whether `s` begins with `prefix`.
pub fn starts_with(s: &str, prefix: &str) -> (r: bool)
    ensures
        r == prefix@.is_prefix_of(s@),
{
    let x = chars_of(s);
    let p = chars_of(prefix);
    if x.len() < p.len() {
        return false;
    }
    let mut i: usize = 0;
    while i < p.len()
        invariant
            i <= p.len() <= x.len(),
            x@ == s@,
            p@ == prefix@,
            forall|j: int| 0 <= j < i ==> x@[j] == p@[j],
        decreases p.len() - i,
    {
        if x[i] != p[i] {
            assert(s@.subrange(0, prefix@.len() as int)[i as int] != prefix@[i as int]);
            return false;
        }
        i += 1;
    }
    assert(prefix@ =~= s@.subrange(0, prefix@.len() as int));
    true
}

/// What follows `prefix` in `s`, where `s` begins with it.
pub fn strip_prefix(s: &str, prefix: &str) -> (r: Option<String>)
    ensures
        match r {
            Some(t) => prefix@.is_prefix_of(s@) && t@ == s@.skip(prefix@.len() as int),
            None => !prefix@.is_prefix_of(s@),
        },
{
    if starts_with(s, prefix) {
        Some(skip(s, prefix.unicode_len()))
    } else {
        None
    }
}

/// What follows the first `n` characters of `s`.
pub fn skip(s: &str, n: usize) -> (r: String)
    requires
        n <= s@.len(),
    ensures
        r@ == s@.skip(n as int),
{
    let v = chars_of(s);
    let r = string_of(&v, n, v.len());
    assert(v@.subrange(n as int, v@.len() as int) =~= s@.skip(n as int));
    r
}

/// What stands before and after the first `c` in `s`, if there is one.
pub fn split_once(s: &str, c: char) -> (r: Option<(String, String)>)
    ensures
        match r {
            Some(p) => split_once_of(s@, c) == Some((p.0@, p.1@)),
            None => split_once_of(s@, c) is None,
        },
{
    let v = chars_of(s);
    let n: usize = v.len();
    let mut i: usize = 0;
    assert(v@.skip(0) =~= v@);
    while i < n && v[i] != c
        invariant
            i <= n == v.len(),
            v@ == s@,
            index_of(s@, c) == i + index_of(v@.skip(i as int), c),
        decreases n - i,
    {
        assert(v@.skip(i as int).drop_first() =~= v@.skip(i + 1));
        i += 1;
    }
    if i < n {
        assert(v@.skip(i as int)[0] == c);
        let a = string_of(&v, 0, i);
        let b = string_of(&v, i + 1, n);
        assert(a@ =~= s@.take(i as int));
        assert(b@ =~= s@.skip(i + 1));
        Some((a, b))
    } else {
        None
    }
}

/// The pieces of `s` between the separators `c`.
pub fn pieces(s: &str, c: char) -> (r: Vec<String>)
    ensures
        texts(r@) == pieces_of(s@, c),
{
    let mut out: Vec<String> = Vec::new();
    let mut rest: String = s.to_owned();
    assert(texts(out@) + pieces_of(rest@, c) =~= pieces_of(s@, c));
    loop
        invariant
            texts(out@) + pieces_of(rest@, c) == pieces_of(s@, c),
        decreases rest@.len(),
    {
        proof {
            lemma_index_of(rest@, c);
        }
        let ghost before = texts(out@);
        match split_once(rest.as_str(), c) {
            Some((head, tail)) => {
                let ghost h = head@;
                out.push(head);
                assert(texts(out@) =~= before.push(h));
                assert(texts(out@) + pieces_of(tail@, c) =~= before + (seq![h] + pieces_of(
                    tail@,
                    c,
                )));
                rest = tail;
            },
            None => {
                let ghost h = rest@;
                out.push(rest);
                assert(texts(out@) =~= before + seq![h]);
                return out;
            },
        }
    }
}

/// The parts put together, with `sep` between neighbours.
pub fn join(parts: &Vec<String>, sep: &str) -> (r: String)
    ensures
        r@ == joined(texts(parts@), sep@),
{
    let mut out = String::new();
    let mut i: usize = 0;
    let ghost all = texts(parts@);
    assert(all.take(0) =~= Seq::<Seq<char>>::empty());
    while i < parts.len()
        invariant
            i <= parts.len(),
            all == texts(parts@),
            out@ == joined(all.take(i as int), sep@),
        decreases parts.len() - i,
    {
        let ghost next = all.take(i + 1);
        assert(next.drop_last() =~= all.take(i as int));
        assert(next.last() == parts@[i as int]@);
        if i > 0 {
            out.append(sep);
        }
        out.append(parts[i].as_str());
        if i == 0 {
            assert(out@ =~= next[0]);
        }
        i += 1;
    }
    assert(all.take(i as int) =~= all);
    out
}

/// The same strings once more.
pub fn copy_all(v: &Vec<String>) -> (r: Vec<String>)
    ensures
        texts(r@) == texts(v@),
{
    let mut out: Vec<String> = Vec::new();
    let mut i: usize = 0;
    while i < v.len()
        invariant
            i <= v@.len(),
            out@.len() == i,
            forall|j: int| 0 <= j < i ==> (#[trigger] out@[j])@ == v@[j]@,
        decreases v@.len() - i,
    {
        out.push(v[i].clone());
        i += 1;
    }
    assert(texts(out@) =~= texts(v@));
    out
}

/// Whether `v` holds the string `s`.
pub fn contains(v: &Vec<String>, s: &str) -> (r: bool)
    ensures
        r == texts(v@).contains(s@),
{
    let mut i: usize = 0;
    while i < v.len()
        invariant
            i <= v.len(),
            forall|j: int| 0 <= j < i ==> texts(v@)[j] != s@,
        decreases v.len() - i,
    {
        if same(v[i].as_str(), s) {
            assert(texts(v@)[i as int] == s@);
            return true;
        }
        i += 1;
    }
    false
}

/// `c` with an ASCII capital letter replaced by the small one.
pub fn lower_char(c: char) -> (r: char)
    ensures
        r == ascii_lower(c),
{
    if 'A' <= c && c <= 'Z' {
        ((c as u8) + 32) as char
    } else {
        c
    }
}

/// Equality up to the case of ASCII letters.
pub fn eq_ignore_ascii_case(a: &str, b: &str) -> (r: bool)
    ensures
        r == same_ignoring_case(a@, b@),
{
    let x = chars_of(a);
    let y = chars_of(b);
    if x.len() != y.len() {
        assert(ascii_lowered(a@).len() != ascii_lowered(b@).len());
        return false;
    }
    let mut i: usize = 0;
    while i < x.len()
        invariant
            i <= x.len(),
            x.len() == y.len(),
            x@ == a@,
            y@ == b@,
            forall|j: int| 0 <= j < i ==> ascii_lower(x@[j]) == ascii_lower(y@[j]),
        decreases x.len() - i,
    {
        if lower_char(x[i]) != lower_char(y[i]) {
            assert(ascii_lowered(a@)[i as int] != ascii_lowered(b@)[i as int]);
            return false;
        }
        i += 1;
    }
    assert(ascii_lowered(a@) =~= ascii_lowered(b@));
    true
}

/// `n` times the character `c`.
pub fn repeat(c: char, n: usize) -> (r: String)
    ensures
        r@ == repeated(c, n as nat),
{
    let mut s = String::new();
    let mut i: usize = 0;
    while i < n
        invariant
            i <= n,
            s@ =~= repeated(c, i as nat),
        decreases n - i,
    {
        s.push(c);
        i += 1;
    }
    s
}

/// At most the first `n` characters of `s`.
pub fn truncate(s: &str, n: usize) -> (r: String)
    ensures
        r@ == truncated(s@, n as nat),
{
    let v = chars_of(s);
    if v.len() <= n {
        s.to_owned()
    } else {
        let r = string_of(&v, 0, n);
        assert(r@ =~= s@.take(n as int));
        r
    }
}

/// `s` followed by blanks up to `width` columns.
pub fn pad_end(s: &str, width: usize) -> (r: String)
    ensures
        r@ == padded_end(s@, width as nat),
{
    let n: usize = s.unicode_len();
    let mut r = s.to_owned();
    if n < width {
        let blanks = repeat(' ', width - n);
        r.append(blanks.as_str());
    }
    r
}

/// `s` preceded by blanks up to `width` columns.
pub fn pad_start(s: &str, width: usize) -> (r: String)
    ensures
        r@ == padded_start(s@, width as nat),
{
    let n: usize = s.unicode_len();
    if n < width {
        let mut r = repeat(' ', width - n);
        r.append(s);
        r
    } else {
        s.to_owned()
    }
}

} // verus!
