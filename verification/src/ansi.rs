//! Removal of terminal escape sequences from what the user typed.

use vstd::prelude::*;

use crate::text;

verus! {

/// Whether a character has the Unicode `Alphabetic` property, as
/// `char::is_alphabetic` reports it.
pub uninterp spec fn alphabetic(c: char) -> bool;

/// `char::is_alphabetic` depends on the character alone. Among the ASCII
/// characters exactly the letters are alphabetic.
pub assume_specification[ char::is_alphabetic ](c: char) -> (r: bool)
    ensures
        r == alphabetic(c),
        c <= '\u{7f}' ==> r == (('a' <= c && c <= 'z') || ('A' <= c && c <= 'Z')),
;

/// The escape character.
pub open spec fn is_escape(c: char) -> bool {
    c == '\u{1b}'
}

/// Whether an escape sequence ends with `c`.
pub open spec fn is_terminator(c: char) -> bool {
    alphabetic(c) || c == '~'
}

/// Whether an escape sequence (escape character and opening bracket) starts at
/// position `i` of `s`.
pub open spec fn opens_at(s: Seq<char>, i: int) -> bool {
    0 <= i && i + 1 < s.len() && is_escape(s[i]) && s[i + 1] == '['
}

/// The number of characters up to and with the first one that ends a sequence,
/// or all of them where there is none.
pub open spec fn body_len(ends: Seq<bool>) -> int
    decreases ends.len(),
{
    if ends.len() == 0 {
        0
    } else if ends[0] {
        1
    } else {
        1 + body_len(ends.drop_first())
    }
}

pub proof fn lemma_body_len(ends: Seq<bool>)
    ensures
        0 <= body_len(ends) <= ends.len(),
        ends.len() > 0 ==> body_len(ends) > 0,
    decreases ends.len(),
{
    if ends.len() > 0 && !ends[0] {
        lemma_body_len(ends.drop_first());
    }
}

/// `s` without its escape sequences, where `ends` says of each character
/// whether it ends one.
pub open spec fn cut(s: Seq<char>, ends: Seq<bool>) -> Seq<char>
    decreases s.len(),
{
    if s.len() == 0 {
        s
    } else if opens_at(s, 0) {
        let n = 2 + body_len(ends.skip(2));
        proof {
            lemma_body_len(ends.skip(2));
        }
        if n < s.len() {
            cut(s.skip(n), ends.skip(n))
        } else {
            Seq::empty()
        }
    } else {
        seq![s[0]] + cut(s.drop_first(), ends.drop_first())
    }
}

/// Of each character, whether it ends an escape sequence.
pub open spec fn terminators(s: Seq<char>) -> Seq<bool> {
    Seq::new(s.len(), |i: int| is_terminator(s[i]))
}

/// `s` without its escape sequences.
pub open spec fn stripped(s: Seq<char>) -> Seq<char> {
    cut(s, terminators(s))
}

/// How stripping goes on behind the first character or the first sequence.
proof fn lemma_stripped(s: Seq<char>)
    requires
        s.len() > 0,
    ensures
        opens_at(s, 0) ==> stripped(s) == stripped(
            s.skip(2 + body_len(terminators(s.skip(2)))),
        ),
        !opens_at(s, 0) ==> stripped(s) == seq![s[0]] + stripped(s.drop_first()),
{
    if opens_at(s, 0) {
        assert(terminators(s).skip(2) =~= terminators(s.skip(2)));
        lemma_body_len(terminators(s.skip(2)));
        let n = 2 + body_len(terminators(s.skip(2)));
        assert(terminators(s).skip(n) =~= terminators(s.skip(n)));
        if n == s.len() {
            assert(s.skip(n) =~= Seq::<char>::empty());
        }
    } else {
        assert(terminators(s).drop_first() =~= terminators(s.drop_first()));
    }
}

/// Text in which no escape sequence starts is kept as it is.
pub proof fn law_plain_text_is_kept(s: Seq<char>)
    requires
        forall|i: int| !opens_at(s, i),
    ensures
        stripped(s) == s,
    decreases s.len(),
{
    if s.len() > 0 {
        let t = s.drop_first();
        assert forall|i: int| !opens_at(t, i) by {
            assert(!opens_at(s, i + 1));
            if 0 <= i && i + 1 < t.len() {
                assert(t[i] == s[i + 1]);
                assert(t[i + 1] == s[i + 2]);
            }
        }
        law_plain_text_is_kept(t);
        lemma_stripped(s);
        assert(!opens_at(s, 0));
        assert(seq![s[0]] + t =~= s);
    }
}

/// A complete escape sequence after plain text disappears: escape character,
/// bracket, parameters and terminator. What follows is stripped in turn.
pub proof fn law_sequence_is_removed(
    before: Seq<char>,
    parameters: Seq<char>,
    terminator: char,
    after: Seq<char>,
)
    requires
        forall|i: int| !opens_at(before, i),
        forall|i: int| 0 <= i < parameters.len() ==> !is_terminator(#[trigger] parameters[i]),
        is_terminator(terminator),
    ensures
        stripped(before + seq!['\u{1b}', '['] + parameters + seq![terminator] + after) == before
            + stripped(after),
    decreases before.len(),
{
    let s = before + seq!['\u{1b}', '['] + parameters + seq![terminator] + after;
    lemma_stripped(s);
    if before.len() == 0 {
        let body = parameters + seq![terminator] + after;
        assert(s.skip(2) =~= body);
        lemma_body_of(parameters, terminator, after);
        assert(s.skip(2 + (parameters.len() + 1) as int) =~= after);
        assert(opens_at(s, 0));
        assert(before + stripped(after) =~= stripped(after));
    } else {
        let rest = before.drop_first();
        assert forall|i: int| !opens_at(rest, i) by {
            assert(!opens_at(before, i + 1));
            if 0 <= i && i + 1 < rest.len() {
                assert(rest[i] == before[i + 1]);
                assert(rest[i + 1] == before[i + 2]);
            }
        }
        law_sequence_is_removed(rest, parameters, terminator, after);
        assert(s.drop_first() =~= rest + seq!['\u{1b}', '['] + parameters + seq![terminator]
            + after);
        assert(!opens_at(before, 0));
        if before.len() == 1 {
            assert(s[1] == '\u{1b}');
        } else {
            assert(s[1] == before[1]);
        }
        assert(s[0] == before[0]);
        assert(!opens_at(s, 0));
        assert(seq![s[0]] + (rest + stripped(after)) =~= before + stripped(after));
    }
}

/// Only an escape character with an opening bracket behind it begins a sequence;
/// text without one is kept as it is.
pub proof fn law_text_without_sequences_is_kept(s: Seq<char>)
    requires
        forall|i: int| 0 <= i && i + 1 < s.len() && #[trigger] s[i] == '\u{1b}' ==> s[i + 1] != '[',
    ensures
        stripped(s) == s,
{
    assert forall|i: int| !opens_at(s, i) by {
        if 0 <= i && i + 1 < s.len() {
            assert(s[i] == '\u{1b}' ==> s[i + 1] != '[');
        }
    }
    law_plain_text_is_kept(s);
}

/// A sequence ends with a letter or a tilde; one that does not end takes the rest
/// of the text with it.
pub proof fn law_sequences_end_with_a_letter_or_tilde(before: Seq<char>, parameters: Seq<char>)
    requires
        forall|i: int|
            0 <= i && i + 1 < before.len() && #[trigger] before[i] == '\u{1b}' ==> before[i + 1]
                != '[',
        forall|i: int|
            0 <= i < parameters.len() ==> !alphabetic(#[trigger] parameters[i]) && parameters[i]
                != '~',
    ensures
        forall|c: char| is_terminator(c) <==> alphabetic(c) || c == '~',
        stripped(before + seq!['\u{1b}', '['] + parameters) == before,
    decreases before.len(),
{
    let s = before + seq!['\u{1b}', '['] + parameters;
    lemma_stripped(s);
    if before.len() == 0 {
        assert(opens_at(s, 0));
        let body = s.skip(2);
        assert(body =~= parameters);
        lemma_endless(parameters);
        assert(s.skip((2 + parameters.len()) as int) =~= Seq::<char>::empty());
        assert(terminators(Seq::<char>::empty()) =~= Seq::<bool>::empty());
        assert(stripped(Seq::<char>::empty()) =~= Seq::<char>::empty());
    } else {
        let rest = before.drop_first();
        assert forall|i: int|
            0 <= i && i + 1 < rest.len() && #[trigger] rest[i] == '\u{1b}' implies rest[i + 1]
            != '[' by {
            assert(before[i + 1] == rest[i]);
            assert(before[(i + 1) + 1] == rest[i + 1]);
        }
        law_sequences_end_with_a_letter_or_tilde(rest, parameters);
        assert(s.drop_first() =~= rest + seq!['\u{1b}', '['] + parameters);
        assert(s[0] == before[0]);
        if before.len() == 1 {
            assert(s[1] == '\u{1b}');
        } else {
            assert(s[1] == before[1]);
            assert(before[0int] == '\u{1b}' ==> before[0int + 1] != '[');
        }
        assert(!opens_at(s, 0));
        assert(seq![s[0]] + rest =~= before);
    }
}

proof fn lemma_endless(parameters: Seq<char>)
    requires
        forall|i: int|
            0 <= i < parameters.len() ==> !alphabetic(#[trigger] parameters[i]) && parameters[i]
                != '~',
    ensures
        body_len(terminators(parameters)) == parameters.len(),
    decreases parameters.len(),
{
    if parameters.len() > 0 {
        let rest = parameters.drop_first();
        assert forall|i: int| 0 <= i < rest.len() implies !alphabetic(#[trigger] rest[i]) && rest[i]
            != '~' by {
            assert(rest[i] == parameters[i + 1]);
        }
        lemma_endless(rest);
        assert(terminators(parameters).drop_first() =~= terminators(rest));
        assert(!terminators(parameters)[0]);
    }
}

proof fn lemma_body_of(parameters: Seq<char>, terminator: char, after: Seq<char>)
    requires
        forall|i: int| 0 <= i < parameters.len() ==> !is_terminator(#[trigger] parameters[i]),
        is_terminator(terminator),
    ensures
        body_len(terminators(parameters + seq![terminator] + after)) == parameters.len() + 1,
    decreases parameters.len(),
{
    let body = parameters + seq![terminator] + after;
    let ends = terminators(body);
    if parameters.len() > 0 {
        let rest = parameters.drop_first();
        assert(!is_terminator(parameters[0]));
        lemma_body_of(rest, terminator, after);
        assert(body.drop_first() =~= rest + seq![terminator] + after);
        assert(ends.drop_first() =~= terminators(body.drop_first()));
        assert(body[0] == parameters[0]);
    } else {
        assert(body[0] == terminator);
    }
}

/// Cuts escape sequences out of a text, given for each character whether it
/// ends one: from an escape character with an opening bracket behind it up to
/// the next such character.
pub fn cut_sequences(input: &str, ends: &Vec<bool>) -> (r: String)
    requires
        ends@.len() == input@.len(),
    ensures
        r@ == cut(input@, ends@),
{
    let v = text::chars_of(input);
    let n: usize = v.len();
    let mut out = String::new();
    let mut i: usize = 0;
    assert(v@.skip(0) =~= v@);
    assert(ends@.skip(0) =~= ends@);
    assert(out@ + cut(v@, ends@) =~= cut(v@, ends@));
    while i < n
        invariant
            i <= n == v.len(),
            ends@.len() == n,
            v@ == input@,
            out@ + cut(v@.skip(i as int), ends@.skip(i as int)) == cut(input@, ends@),
        decreases n - i,
    {
        let ghost rest = v@.skip(i as int);
        let ghost flags = ends@.skip(i as int);
        let ghost start = i;
        let c: char = v[i];
        if c == '\u{1b}' && i + 1 < n && v[i + 1] == '[' {
            i += 2;
            assert(opens_at(rest, 0));
            assert(flags.skip(2) =~= ends@.skip(i as int));
            let mut open = true;
            while i < n && open
                invariant
                    start + 2 <= i <= n == v.len(),
                    ends@.len() == n,
                    flags == ends@.skip(start as int),
                    open ==> body_len(flags.skip(2)) == (i - start - 2) + body_len(
                        ends@.skip(i as int),
                    ),
                    !open ==> body_len(flags.skip(2)) == i - start - 2,
                decreases n - i,
            {
                assert(ends@.skip(i as int).drop_first() =~= ends@.skip(i + 1));
                if ends[i] {
                    open = false;
                }
                i += 1;
            }
            proof {
                let m = 2 + body_len(flags.skip(2));
                assert(rest.skip(m) =~= v@.skip(i as int));
                assert(flags.skip(m) =~= ends@.skip(i as int));
                if m == rest.len() {
                    assert(rest.skip(m) =~= Seq::<char>::empty());
                }
            }
        } else {
            assert(!opens_at(rest, 0));
            assert(rest.drop_first() =~= v@.skip(i + 1));
            assert(flags.drop_first() =~= ends@.skip(i + 1));
            let ghost before = out@;
            out.push(c);
            i += 1;
            assert(out@ + cut(v@.skip(i as int), ends@.skip(i as int)) =~= before + (seq![c] + cut(
                v@.skip(i as int),
                ends@.skip(i as int),
            )));
        }
    }
    assert(out@ + cut(v@.skip(i as int), ends@.skip(i as int)) =~= out@);
    out
}

/// Strips escape sequences (bracketed paste, colours and the like): from an
/// escape character with an opening bracket behind it up to the next letter
/// or tilde.
pub fn strip_ansi(input: &str) -> (r: String)
    ensures
        r@ == stripped(input@),
{
    let v = text::chars_of(input);
    let mut ends: Vec<bool> = Vec::new();
    let mut i: usize = 0;
    while i < v.len()
        invariant
            i <= v.len(),
            ends@.len() == i,
            forall|j: int| 0 <= j < i ==> #[trigger] ends@[j] == is_terminator(v@[j]),
        decreases v.len() - i,
    {
        let c: char = v[i];
        ends.push(c.is_alphabetic() || c == '~');
        i += 1;
    }
    assert(ends@ =~= terminators(input@));
    cut_sequences(input, &ends)
}

} // verus!
