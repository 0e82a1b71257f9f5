//! Selection of entries by number, such as `1,2,3-4,8`.

use vstd::prelude::*;

use crate::number;
use crate::text;

verus! {

/// The consecutive indices from `first` up to `last`, both included.
pub open spec fn span(first: int, last: int) -> Seq<usize> {
    Seq::new((last - first + 1) as nat, |i: int| (first + i) as usize)
}

/// Whether every index has a number, which is one more than it.
pub open spec fn all_numbered(indices: Seq<usize>) -> bool {
    forall|i: int| 0 <= i < indices.len() ==> #[trigger] indices[i] < usize::MAX
}

/// What is said of a number that cannot be read.
pub open spec fn invalid_number(s: Seq<char>) -> Seq<char> {
    "invalid number: "@ + s
}

/// The zero-based indices that one piece of a selection stands for: none where
/// it is blank, one for a number, all from the first to the second for a pair
/// of numbers with a hyphen between them. Numbers start at one.
pub open spec fn piece_indices(piece: Seq<char>) -> Result<Seq<usize>, Seq<char>> {
    let p = text::trimmed(piece);
    if p.len() == 0 {
        Ok(Seq::empty())
    } else {
        match text::split_once_of(p, '-') {
            Some((start, end)) => match number::usize_of(text::trimmed(start)) {
                None => Err(invalid_number(start)),
                Some(s) => match number::usize_of(text::trimmed(end)) {
                    None => Err(invalid_number(end)),
                    Some(e) => if s == 0 || e == 0 {
                        Err("Indices start at 1"@)
                    } else if s > e {
                        Err(
                            "invalid range: "@ + number::decimal(s as nat) + "-"@ + number::decimal(
                                e as nat,
                            ),
                        )
                    } else {
                        Ok(span(s - 1, e - 1))
                    },
                },
            },
            None => match number::usize_of(p) {
                None => Err(invalid_number(p)),
                Some(n) => if n == 0 {
                    Err("Indices start at 1"@)
                } else {
                    Ok(seq![(n - 1) as usize])
                },
            },
        }
    }
}

/// The indices of all pieces in order, or the complaint about the first piece
/// that has one.
pub open spec fn pieces_indices(pieces: Seq<Seq<char>>) -> Result<Seq<usize>, Seq<char>>
    decreases pieces.len(),
{
    if pieces.len() == 0 {
        Ok(Seq::empty())
    } else {
        in_order(pieces_indices(pieces.drop_last()), piece_indices(pieces.last()))
    }
}

/// One selection after another: the first complaint counts.
pub open spec fn in_order(
    a: Result<Seq<usize>, Seq<char>>,
    b: Result<Seq<usize>, Seq<char>>,
) -> Result<Seq<usize>, Seq<char>> {
    match a {
        Err(e) => Err(e),
        Ok(x) => match b {
            Err(e) => Err(e),
            Ok(y) => Ok(x + y),
        },
    }
}

/// The zero-based indices that a selection with commas stands for.
pub open spec fn selection(input: Seq<char>) -> Result<Seq<usize>, Seq<char>> {
    pieces_indices(text::pieces_of(input, ','))
}

proof fn lemma_pieces_indices_append(a: Seq<Seq<char>>, b: Seq<Seq<char>>)
    ensures
        pieces_indices(a + b) == in_order(pieces_indices(a), pieces_indices(b)),
    decreases b.len(),
{
    if b.len() == 0 {
        assert(a + b =~= a);
        if let Ok(x) = pieces_indices(a) {
            assert(x + Seq::<usize>::empty() =~= x);
        }
    } else {
        lemma_pieces_indices_append(a, b.drop_last());
        assert((a + b).drop_last() =~= a + b.drop_last());
        assert((a + b).last() == b.last());
        if let (Ok(x), Ok(y), Ok(z)) = (
            pieces_indices(a),
            pieces_indices(b.drop_last()),
            piece_indices(b.last()),
        ) {
            assert((x + y) + z =~= x + (y + z));
        }
    }
}

/// The pieces on both sides of a separator are the pieces of the whole.
pub proof fn lemma_pieces_of_joined(a: Seq<char>, c: char, b: Seq<char>)
    ensures
        text::pieces_of(a.push(c) + b, c) == text::pieces_of(a, c) + text::pieces_of(b, c),
    decreases a.len(),
{
    let s = a.push(c) + b;
    text::lemma_index_of(a, c);
    text::lemma_index_of(s, c);
    let i = text::index_of(a, c);
    let j = text::index_of(s, c);
    if i < a.len() {
        assert(s[i] == a[i]);
        if j < i {
            assert(s[j] == a[j]);
        }
        assert(j == i);
        assert(s.take(i) =~= a.take(i));
        assert(s.skip(i + 1) =~= a.skip(i + 1).push(c) + b);
        lemma_pieces_of_joined(a.skip(i + 1), c, b);
        assert(seq![a.take(i)] + (text::pieces_of(a.skip(i + 1), c) + text::pieces_of(b, c))
            =~= (seq![a.take(i)] + text::pieces_of(a.skip(i + 1), c)) + text::pieces_of(b, c));
    } else {
        assert(s[a.len() as int] == c);
        if j < a.len() {
            assert(s[j] == a[j]);
        }
        assert(j == a.len());
        assert(s.take(j) =~= a);
        assert(s.skip(j + 1) =~= b);
    }
}

/// Two selections with a comma between them select what the first one selects
/// and then what the second one selects.
pub proof fn law_comma_joins_selections(a: Seq<char>, b: Seq<char>)
    ensures
        selection(a.push(',') + b) == in_order(selection(a), selection(b)),
{
    lemma_pieces_of_joined(a, ',', b);
    lemma_pieces_indices_append(text::pieces_of(a, ','), text::pieces_of(b, ','));
}

/// The number under which the entry at a position is listed selects exactly
/// that position.
pub proof fn law_listed_number_selects_its_entry(position: usize)
    requires
        position < usize::MAX,
    ensures
        selection(number::decimal((position + 1) as nat)) == Ok::<Seq<usize>, Seq<char>>(
            seq![position],
        ),
{
    let n = (position + 1) as nat;
    let s = number::decimal(n);
    number::lemma_decimal_reads_back(n);
    text::lemma_index_of(s, ',');
    text::lemma_index_of(s, '-');
    let i = text::index_of(s, ',');
    if i < s.len() {
        assert(number::is_digit(s[i]));
    }
    let j = text::index_of(s, '-');
    if j < s.len() {
        assert(number::is_digit(s[j]));
    }
    assert(number::is_digit(s[0]));
    assert(number::is_digit(s[s.len() - 1]));
    assert(text::trimmed(s) == s);
    let ps = text::pieces_of(s, ',');
    assert(ps =~= seq![s]);
    assert(ps.drop_last() =~= Seq::<Seq<char>>::empty());
    assert(pieces_indices(ps.drop_last()) == Ok::<Seq<usize>, Seq<char>>(Seq::empty()));
    assert(piece_indices(s) == Ok::<Seq<usize>, Seq<char>>(seq![position]));
    assert(Seq::<usize>::empty() + seq![position] =~= seq![position]);
}

/// What a piece without a comma selects, and nothing more.
proof fn lemma_single_piece(s: Seq<char>)
    requires
        !s.contains(','),
    ensures
        selection(s) == piece_indices(s),
{
    text::lemma_index_of(s, ',');
    let ps = text::pieces_of(s, ',');
    assert(ps =~= seq![s]);
    assert(ps.drop_last() =~= Seq::<Seq<char>>::empty());
    assert(pieces_indices(ps.drop_last()) == Ok::<Seq<usize>, Seq<char>>(Seq::empty()));
    if let Ok(x) = piece_indices(s) {
        assert(Seq::<usize>::empty() + x =~= x);
    }
}

proof fn lemma_hyphen(a: nat, b: nat)
    ensures
        ({
            let s = number::decimal(a) + seq!['-'] + number::decimal(b);
            &&& !s.contains(',')
            &&& text::trimmed(s) == s
            &&& s.len() > 0
            &&& text::split_once_of(s, '-') == Some((number::decimal(a), number::decimal(b)))
            &&& text::trimmed(number::decimal(a)) == number::decimal(a)
            &&& text::trimmed(number::decimal(b)) == number::decimal(b)
            &&& number::usize_of(number::decimal(a)) == (if a <= usize::MAX {
                Some(a as usize)
            } else {
                None
            })
            &&& number::usize_of(number::decimal(b)) == (if b <= usize::MAX {
                Some(b as usize)
            } else {
                None
            })
        }),
{
    let x = number::decimal(a);
    let y = number::decimal(b);
    let s = x + seq!['-'] + y;
    number::lemma_decimal_is_plain(a);
    number::lemma_decimal_is_plain(b);
    number::law_numbers_are_read_back(a);
    number::law_numbers_are_read_back(b);
    text::lemma_word_is_tight(x);
    text::lemma_word_is_tight(y);
    assert(!x.contains('-'));
    text::law_split_finds_its_separator(x, '-', y);
    assert(s[0] == x[0]);
    assert(s[s.len() - 1] == y[y.len() - 1]);
    text::lemma_tight_is_trimmed(s);
    if s.contains(',') {
        let i = choose|i: int| 0 <= i < s.len() && s[i] == ',';
        assert(!number::is_digit(','));
        if i < x.len() {
            assert(x[i] == ',');
            assert(x.contains(','));
        } else if i > x.len() {
            assert(y[i - x.len() - 1] == ',');
            assert(y.contains(','));
        } else {
            assert(s[i] == '-');
        }
    }
}

/// Two numbers with a hyphen between them select everything from the first to
/// the second, both included: each entry once, in ascending order.
pub proof fn law_hyphen_selects_all_between(a: nat, b: nat)
    requires
        1 <= a <= b <= usize::MAX,
    ensures
        ({
            let r = selection(number::decimal(a) + seq!['-'] + number::decimal(b));
            &&& r is Ok
            &&& r->Ok_0.len() == b - a + 1
            &&& forall|i: int| 0 <= i < b - a + 1 ==> #[trigger] r->Ok_0[i] + 1 == a + i
        }),
{
    let s = number::decimal(a) + seq!['-'] + number::decimal(b);
    lemma_hyphen(a, b);
    lemma_single_piece(s);
}

/// A range selects what its numbers select one after the other: a range up to a
/// number is the range before it, followed by that number.
pub proof fn law_a_range_is_its_numbers(a: nat, b: nat)
    requires
        1 <= a < b <= usize::MAX,
    ensures
        selection(number::decimal(a) + seq!['-'] + number::decimal(b)) == selection(
            number::decimal(a) + seq!['-'] + number::decimal((b - 1) as nat) + seq![',']
                + number::decimal(b),
        ),
{
    let shorter = number::decimal(a) + seq!['-'] + number::decimal((b - 1) as nat);
    let longer = number::decimal(a) + seq!['-'] + number::decimal(b);
    let last = number::decimal(b);
    law_hyphen_selects_all_between(a, b);
    law_hyphen_selects_all_between(a, (b - 1) as nat);
    law_listed_number_selects_its_entry((b - 1) as usize);
    law_comma_joins_selections(shorter, last);
    assert(shorter.push(',') + last =~= shorter + seq![','] + last);
    lemma_range_grows(a, b, selection(longer)->Ok_0, selection(shorter)->Ok_0);
}

proof fn lemma_range_grows(a: nat, b: nat, longer: Seq<usize>, shorter: Seq<usize>)
    requires
        1 <= a < b <= usize::MAX,
        longer.len() == b - a + 1,
        forall|i: int| 0 <= i < longer.len() ==> #[trigger] longer[i] + 1 == a + i,
        shorter.len() == b - a,
        forall|i: int| 0 <= i < shorter.len() ==> #[trigger] shorter[i] + 1 == a + i,
    ensures
        longer == shorter + seq![(b - 1) as usize],
{
    let x = shorter + seq![(b - 1) as usize];
    assert forall|i: int| 0 <= i < longer.len() implies longer[i] == x[i] by {
        if i < shorter.len() {
            assert(x[i] == shorter[i]);
        }
    }
    assert(longer =~= x);
}

/// A number with a hyphen to itself selects what the number selects.
pub proof fn law_a_range_of_one_is_its_number(a: nat)
    requires
        1 <= a <= usize::MAX,
    ensures
        selection(number::decimal(a) + seq!['-'] + number::decimal(a)) == selection(
            number::decimal(a),
        ),
{
    law_hyphen_selects_all_between(a, a);
    law_listed_number_selects_its_entry((a - 1) as usize);
    let r = selection(number::decimal(a) + seq!['-'] + number::decimal(a));
    assert(r->Ok_0[0] + 1 == a);
    assert(r->Ok_0 =~= seq![(a - 1) as usize]);
}

/// A range that runs backwards, or that touches zero, selects nothing but is
/// refused; so is zero.
pub proof fn law_impossible_ranges_are_refused(a: nat, b: nat)
    requires
        a > b || a == 0 || b == 0,
    ensures
        selection(number::decimal(a) + seq!['-'] + number::decimal(b)) is Err,
        selection(number::decimal(0)) is Err,
{
    let s = number::decimal(a) + seq!['-'] + number::decimal(b);
    lemma_hyphen(a, b);
    lemma_single_piece(s);
    let z = number::decimal(0);
    number::lemma_decimal_is_plain(0);
    number::law_numbers_are_read_back(0);
    text::lemma_word_is_tight(z);
    assert(!z.contains(','));
    assert(!z.contains('-'));
    text::law_split_is_at_the_first_separator(z, '-');
    if let Some((x, y)) = text::split_once_of(z, '-') {
        assert((x + seq!['-'] + y)[x.len() as int] == '-');
        assert(z.contains('-'));
    }
    lemma_single_piece(z);
}

/// A piece of white space selects nothing, and neither does the empty text.
pub proof fn law_blank_pieces_select_nothing(s: Seq<char>)
    requires
        text::is_blank(s),
    ensures
        selection(s) == Ok::<Seq<usize>, Seq<char>>(Seq::empty()),
{
    text::law_trimming_removes_what_surrounds(s, Seq::empty(), Seq::empty());
    assert(s + Seq::<char>::empty() + Seq::<char>::empty() =~= s);
    if s.contains(',') {
        let i = choose|i: int| 0 <= i < s.len() && s[i] == ',';
        assert(text::is_space(s[i]));
    }
    lemma_single_piece(s);
}

/// White space around the numbers does not matter.
pub proof fn law_space_around_pieces_is_ignored(x: Seq<char>, s: Seq<char>, y: Seq<char>)
    requires
        text::is_blank(x),
        text::is_blank(y),
        text::is_tight(s),
        !s.contains(','),
    ensures
        selection(x + s + y) == selection(s),
{
    let t = x + s + y;
    text::law_trimming_removes_what_surrounds(x, s, y);
    text::lemma_tight_is_trimmed(s);
    if t.contains(',') {
        let i = choose|i: int| 0 <= i < t.len() && t[i] == ',';
        if i < x.len() {
            assert(text::is_space(x[i]));
        } else if i < x.len() + s.len() {
            assert(s[i - x.len()] == ',');
            assert(s.contains(','));
        } else {
            assert(text::is_space(y[i - x.len() - s.len()]));
        }
    }
    lemma_single_piece(t);
    lemma_single_piece(s);
}

/// White space around the hyphen does not matter either.
pub proof fn law_space_around_the_hyphen_is_ignored(a: nat, x: Seq<char>, y: Seq<char>, b: nat)
    requires
        text::is_blank(x),
        text::is_blank(y),
        1 <= a <= b <= usize::MAX,
    ensures
        selection(number::decimal(a) + x + seq!['-'] + (y + number::decimal(b))) == selection(
            number::decimal(a) + seq!['-'] + number::decimal(b),
        ),
{
    let m = number::decimal(a);
    let n = number::decimal(b);
    let left = m + x;
    let right = y + n;
    let s = left + seq!['-'] + right;
    lemma_hyphen(a, b);
    lemma_single_piece(m + seq!['-'] + n);
    number::lemma_decimal_is_plain(a);
    number::lemma_decimal_is_plain(b);
    text::lemma_word_is_tight(m);
    text::lemma_word_is_tight(n);
    text::law_trimming_removes_what_surrounds(Seq::empty(), m, x);
    text::law_trimming_removes_what_surrounds(y, n, Seq::empty());
    assert(Seq::<char>::empty() + m + x =~= left);
    assert(y + n + Seq::<char>::empty() =~= right);
    assert(!number::is_digit('-') && !number::is_digit(','));
    if left.contains('-') {
        let i = choose|i: int| 0 <= i < left.len() && left[i] == '-';
        if i < m.len() {
            assert(m[i] == '-');
            assert(m.contains('-'));
        } else {
            assert(text::is_space(x[i - m.len()]));
        }
    }
    text::law_split_finds_its_separator(left, '-', right);
    assert(s[0] == m[0]);
    assert(s[s.len() - 1] == n[n.len() - 1]);
    text::lemma_tight_is_trimmed(s);
    if s.contains(',') {
        let i = choose|i: int| 0 <= i < s.len() && s[i] == ',';
        if i < m.len() {
            assert(m[i] == ',');
            assert(m.contains(','));
        } else if i < left.len() {
            assert(text::is_space(x[i - m.len()]));
        } else if i == left.len() {
            assert(s[i] == '-');
        } else if i < left.len() + 1 + y.len() {
            assert(text::is_space(y[i - left.len() - 1]));
        } else {
            assert(n[i - left.len() - 1 - y.len()] == ',');
            assert(n.contains(','));
        }
    }
    lemma_single_piece(s);
}

/// A piece with a letter, or with any character that no number has, is refused.
pub proof fn law_other_characters_are_refused(s: Seq<char>, i: int)
    requires
        text::is_word(s),
        !s.contains(','),
        0 <= i < s.len(),
        !('0' <= s[i] && s[i] <= '9'),
        s[i] != '-',
        s[i] != '+',
    ensures
        selection(s) is Err,
{
    lemma_single_piece(s);
    text::lemma_word_is_tight(s);
    text::law_split_is_at_the_first_separator(s, '-');
    match text::split_once_of(s, '-') {
        Some((a, b)) => {
            lemma_part_is_tight(s, a, b);
            number::law_only_digits_are_numbers(a);
            number::law_only_digits_are_numbers(b);
            if i < a.len() {
                assert(a[i] == s[i]);
            } else {
                assert(b[i - a.len() - 1] == s[i]);
            }
        },
        None => {
            number::law_only_digits_are_numbers(s);
        },
    }
}

proof fn lemma_part_is_tight(s: Seq<char>, a: Seq<char>, b: Seq<char>)
    requires
        text::is_word(s),
        s == a + seq!['-'] + b,
    ensures
        text::trimmed(a) == a,
        text::trimmed(b) == b,
{
    if a.len() > 0 {
        assert(a[0] == s[0]);
        assert(a[a.len() - 1] == s[a.len() - 1]);
    }
    if b.len() > 0 {
        assert(b[0] == s[(a.len() + 1) as int]);
        assert(b[b.len() - 1] == s[s.len() - 1]);
    }
    text::lemma_tight_is_trimmed(a);
    text::lemma_tight_is_trimmed(b);
}

/// What stands behind "invalid number".
fn complain(s: &str) -> (r: String)
    ensures
        r@ == invalid_number(s@),
{
    let mut m = "invalid number: ".to_string();
    m.append(s);
    m
}

/// The zero-based indices that one piece of a selection stands for.
fn read_piece(piece: &str) -> (r: Result<Vec<usize>, String>)
    ensures
        match r {
            Ok(v) => piece_indices(piece@) == Ok::<Seq<usize>, Seq<char>>(v@),
            Err(e) => piece_indices(piece@) == Err::<Seq<usize>, Seq<char>>(e@),
        },
        r matches Ok(v) ==> all_numbered(v@),
{
    let p = text::trim(piece);
    let mut v: Vec<usize> = Vec::new();
    if p.as_str().is_empty() {
        return Ok(v);
    }
    match text::split_once(p.as_str(), '-') {
        Some((start, end)) => {
            let first = text::trim(start.as_str());
            let s: usize = match number::read_usize(first.as_str()) {
                Some(n) => n,
                None => {
                    return Err(complain(start.as_str()));
                },
            };
            let last = text::trim(end.as_str());
            let e: usize = match number::read_usize(last.as_str()) {
                Some(n) => n,
                None => {
                    return Err(complain(end.as_str()));
                },
            };
            if s == 0 || e == 0 {
                return Err("Indices start at 1".to_string());
            }
            if s > e {
                let mut m = "invalid range: ".to_string();
                let a = number::show_usize(s);
                m.append(a.as_str());
                m.append("-");
                let b = number::show_usize(e);
                m.append(b.as_str());
                return Err(m);
            }
            let mut n: usize = s - 1;
            while n < e
                invariant
                    0 < s <= e,
                    s - 1 <= n <= e,
                    v@ =~= span(s - 1, n - 1),
                decreases e - n,
            {
                v.push(n);
                n += 1;
            }
        },
        None => {
            let n: usize = match number::read_usize(p.as_str()) {
                Some(n) => n,
                None => {
                    return Err(complain(p.as_str()));
                },
            };
            if n == 0 {
                return Err("Indices start at 1".to_string());
            }
            v.push(n - 1);
            assert(v@ =~= seq![(n - 1) as usize]);
        },
    }
    Ok(v)
}

/// Reads a selection such as `1,2,3-4,8` into the zero-based indices that it
/// stands for, here 0, 1, 2, 3 and 7.
pub fn parse_number_range(input: &str) -> (r: Result<Vec<usize>, String>)
    ensures
        match r {
            Ok(v) => selection(input@) == Ok::<Seq<usize>, Seq<char>>(v@),
            Err(e) => selection(input@) == Err::<Seq<usize>, Seq<char>>(e@),
        },
        r matches Ok(v) ==> all_numbered(v@),
{
    let pieces = text::pieces(input, ',');
    let ghost all = text::texts(pieces@);
    let mut indices: Vec<usize> = Vec::new();
    let mut i: usize = 0;
    assert(all.take(0) =~= Seq::<Seq<char>>::empty());
    while i < pieces.len()
        invariant
            i <= pieces.len(),
            all == text::texts(pieces@),
            all == text::pieces_of(input@, ','),
            pieces_indices(all.take(i as int)) == Ok::<Seq<usize>, Seq<char>>(indices@),
            all_numbered(indices@),
        decreases pieces.len() - i,
    {
        assert(all.take(i + 1).drop_last() =~= all.take(i as int));
        assert(all.take(i + 1).last() == pieces@[i as int]@);
        let ghost before = indices@;
        match read_piece(pieces[i].as_str()) {
            Ok(mut v) => {
                let ghost w = v@;
                indices.append(&mut v);
                assert(indices@ =~= before + w);
            },
            Err(e) => {
                proof {
                    lemma_pieces_indices_append(all.take(i + 1), all.skip(i + 1));
                    assert(all.take(i + 1) + all.skip(i + 1) =~= all);
                }
                return Err(e);
            },
        }
        i += 1;
    }
    assert(all.take(i as int) =~= all);
    Ok(indices)
}

} // verus!
