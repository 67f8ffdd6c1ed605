//! Conversions between Rust strings and character vectors, and the few
//! sequence operations on characters that the rest of the crate is built on.
use vstd::prelude::*;
use vstd::std_specs::iter::IteratorSpec;

verus! {

broadcast use vstd::string::group_string_axioms;

/// Trusted: what `String::push` of the standard library does to the string,
/// as its documentation says it: the character is appended at the end, and
/// the characters that were there stay.
pub assume_specification[ String::push ](s: &mut String, c: char)
    ensures
        final(s)@ == old(s)@.push(c),
;

/// The characters of `s`, in order.
pub fn chars_of(s: &str) -> (v: Vec<char>)
    ensures
        v@ == s@,
{
    let mut v: Vec<char> = Vec::new();
    let mut rest = s.chars();
    loop
        invariant
            v@.len() <= s@.len(),
            v@ == s@.take(v@.len() as int),
            rest.remaining() == s@.skip(v@.len() as int),
        ensures
            v@ == s@,
        decreases s@.len() - v@.len(),
    {
        match rest.next() {
            Some(c) => {
                v.push(c);
            },
            None => {
                break ;
            },
        }
    }
    v
}

/// The string made of the characters of `v`, in order.
pub fn string_of(v: &Vec<char>) -> (s: String)
    ensures
        s@ == v@,
{
    let mut s = String::new();
    let mut i: usize = 0;
    while i < v.len()
        invariant
            i <= v.len(),
            s@ == v@.take(i as int),
        decreases v.len() - i,
    {
        s.push(v[i]);
        i += 1;
    }
    s
}

/// Whether two character vectors hold the same text.
pub fn same_text(a: &Vec<char>, b: &Vec<char>) -> (r: bool)
    ensures
        r == (a@ == b@),
{
    if a.len() != b.len() {
        return false;
    }
    let mut i: usize = 0;
    while i < a.len()
        invariant
            i <= a.len(),
            a.len() == b.len(),
            a@.take(i as int) == b@.take(i as int),
        decreases a.len() - i,
    {
        if a[i] != b[i] {
            return false;
        }
        proof {
            assert(a@.take(i + 1) == a@.take(i as int).push(a@[i as int]));
            assert(b@.take(i + 1) == b@.take(i as int).push(b@[i as int]));
        }
        i += 1;
    }
    proof {
        assert(a@.take(a@.len() as int) == a@);
        assert(b@.take(b@.len() as int) == b@);
    }
    true
}

/// The texts that a vector of character vectors holds.
pub open spec fn rows(v: Seq<Vec<char>>) -> Seq<Seq<char>> {
    Seq::new(v.len(), |i: int| v[i]@)
}

/// Adding a row to the vector adds its text to the rows.
pub proof fn lemma_rows_push(v: Seq<Vec<char>>, row: Vec<char>)
    ensures
        rows(v.push(row)) == rows(v).push(row@),
{
    assert(rows(v.push(row)) =~= rows(v).push(row@));
}

/// The index of the last `c` in `s`, or -1 where `s` holds none.
pub open spec fn last_index_of(s: Seq<char>, c: char) -> int
    decreases s.len(),
{
    if s.len() == 0 {
        -1
    } else if s.last() == c {
        s.len() - 1
    } else {
        last_index_of(s.drop_last(), c)
    }
}

/// `last_index_of` names a position that holds `c` and is followed by no
/// other, or -1 exactly when `c` does not occur.
pub proof fn lemma_last_index_of(s: Seq<char>, c: char)
    ensures
        -1 <= last_index_of(s, c) < s.len(),
        last_index_of(s, c) >= 0 ==> s[last_index_of(s, c)] == c,
        forall|j: int| last_index_of(s, c) < j < s.len() ==> s[j] != c,
        last_index_of(s, c) == -1 <==> !s.contains(c),
    decreases s.len(),
{
    if s.len() > 0 && s.last() != c {
        lemma_last_index_of(s.drop_last(), c);
        let k = last_index_of(s.drop_last(), c);
        assert forall|j: int| k < j < s.len() implies s[j] != c by {
            if j < s.len() - 1 {
                assert(s.drop_last()[j] == s[j]);
            }
        }
        if k >= 0 {
            assert(s.drop_last()[k] == s[k]);
        }
    }
}

/// The position of the last `c` in `v`, if there is one.
pub fn find_last(v: &Vec<char>, c: char) -> (r: Option<usize>)
    ensures
        match r {
            Some(i) => last_index_of(v@, c) == i,
            None => last_index_of(v@, c) == -1,
        },
{
    let mut i: usize = v.len();
    proof {
        assert(v@.take(v@.len() as int) == v@);
    }
    while i > 0
        invariant
            i <= v.len(),
            last_index_of(v@, c) == last_index_of(v@.take(i as int), c),
        decreases i,
    {
        proof {
            assert(v@.take(i as int).drop_last() == v@.take(i - 1));
        }
        if v[i - 1] == c {
            return Some(i - 1);
        }
        i -= 1;
    }
    proof {
        assert(v@.take(0).len() == 0);
    }
    None
}

/// The pieces of `s` between occurrences of `sep`: one more piece than there
/// are separators, each free of `sep`, which joined by `sep` give `s` back.
pub open spec fn split(s: Seq<char>, sep: char) -> Seq<Seq<char>>
    decreases s.len(),
{
    if s.len() == 0 {
        seq![Seq::<char>::empty()]
    } else {
        let before = split(s.drop_last(), sep);
        if s.last() == sep {
            before.push(Seq::<char>::empty())
        } else {
            before.drop_last().push(before.last().push(s.last()))
        }
    }
}

/// The pieces joined into one text, with `sep` between neighbours.
pub open spec fn join(pieces: Seq<Seq<char>>, sep: char) -> Seq<char>
    decreases pieces.len(),
{
    if pieces.len() == 0 {
        Seq::<char>::empty()
    } else if pieces.len() == 1 {
        pieces[0]
    } else {
        join(pieces.drop_last(), sep).push(sep) + pieces.last()
    }
}

/// Splitting never gives an empty list, and no piece holds the separator.
pub proof fn lemma_split_pieces(s: Seq<char>, sep: char)
    ensures
        split(s, sep).len() >= 1,
        forall|i: int|
            0 <= i < split(s, sep).len() ==> !(#[trigger] split(s, sep)[i]).contains(sep),
    decreases s.len(),
{
    if s.len() > 0 {
        lemma_split_pieces(s.drop_last(), sep);
        let before = split(s.drop_last(), sep);
        let after = split(s, sep);
        assert forall|i: int| 0 <= i < after.len() implies !(#[trigger] after[i]).contains(sep) by {
            if s.last() == sep {
                if i < before.len() {
                    assert(after[i] == before[i]);
                }
            } else {
                if i < before.len() - 1 {
                    assert(after[i] == before[i]);
                } else {
                    let grown = before.last().push(s.last());
                    assert(after[i] == grown);
                    assert(!before[before.len() - 1].contains(sep));
                    if grown.contains(sep) {
                        let k = choose|k: int| 0 <= k < grown.len() && grown[k] == sep;
                        assert(before.last()[k] == sep);
                        assert(before.last().contains(sep));
                    }
                }
            }
        }
    }
}

/// Joining the pieces of a split gives the text back.
pub proof fn law_split_join(s: Seq<char>, sep: char)
    ensures
        join(split(s, sep), sep) == s,
    decreases s.len(),
{
    if s.len() == 0 {
        assert(join(split(s, sep), sep) =~= s);
    } else {
        law_split_join(s.drop_last(), sep);
        lemma_split_pieces(s.drop_last(), sep);
        let before = split(s.drop_last(), sep);
        let after = split(s, sep);
        if s.last() == sep {
            assert(after.drop_last() == before);
            assert(join(after, sep) == join(before, sep).push(sep) + Seq::<char>::empty());
            assert(join(after, sep) =~= s.drop_last().push(sep));
            assert(s.drop_last().push(sep) =~= s);
        } else {
            let grown = before.last().push(s.last());
            if before.len() == 1 {
                assert(after =~= seq![grown]);
                assert(join(before, sep) == before[0]);
                assert(join(after, sep) == grown);
                assert(grown =~= s.drop_last().push(s.last()));
            } else {
                assert(after.drop_last() =~= before.drop_last());
                assert(join(before, sep) == join(before.drop_last(), sep).push(sep)
                    + before.last());
                assert(join(after, sep) == join(before.drop_last(), sep).push(sep) + grown);
                assert(join(after, sep) =~= join(before, sep).push(s.last()));
            }
            assert(s.drop_last().push(s.last()) =~= s);
        }
    }
}

/// Splits `v` at every `sep`.
pub fn split_text(v: &Vec<char>, sep: char) -> (pieces: Vec<Vec<char>>)
    ensures
        rows(pieces@) == split(v@, sep),
{
    let mut done: Vec<Vec<char>> = Vec::new();
    let mut piece: Vec<char> = Vec::new();
    let mut i: usize = 0;
    proof {
        assert(rows(done@).push(piece@) =~= split(v@.take(0), sep));
    }
    while i < v.len()
        invariant
            i <= v.len(),
            rows(done@).push(piece@) == split(v@.take(i as int), sep),
        decreases v.len() - i,
    {
        let c = v[i];
        proof {
            let upto = v@.take(i + 1);
            assert(upto.drop_last() == v@.take(i as int));
            assert(upto.last() == c);
            let before = rows(done@).push(piece@);
            assert(before.drop_last() =~= rows(done@));
            assert(before.last() == piece@);
            if c == sep {
                lemma_rows_push(done@, piece);
            }
        }
        if c == sep {
            done.push(piece);
            piece = Vec::new();
        } else {
            piece.push(c);
        }
        i += 1;
    }
    proof {
        assert(v@.take(v@.len() as int) == v@);
        lemma_rows_push(done@, piece);
    }
    done.push(piece);
    done
}

/// Appends the characters of `tail` to `text`.
pub fn append_text(text: &mut Vec<char>, tail: &Vec<char>)
    ensures
        final(text)@ == old(text)@ + tail@,
{
    let mut i: usize = 0;
    while i < tail.len()
        invariant
            i <= tail.len(),
            text@ == old(text)@ + tail@.take(i as int),
        decreases tail.len() - i,
    {
        proof {
            assert(tail@.take(i + 1) == tail@.take(i as int).push(tail@[i as int]));
            assert((old(text)@ + tail@.take(i as int)).push(tail@[i as int]) =~= old(text)@
                + tail@.take(i + 1));
        }
        text.push(tail[i]);
        i += 1;
    }
    proof {
        assert(tail@.take(tail@.len() as int) == tail@);
    }
}

/// The character of a decimal digit.
pub open spec fn digit_char(d: int) -> char {
    if d == 0 {
        '0'
    } else if d == 1 {
        '1'
    } else if d == 2 {
        '2'
    } else if d == 3 {
        '3'
    } else if d == 4 {
        '4'
    } else if d == 5 {
        '5'
    } else if d == 6 {
        '6'
    } else if d == 7 {
        '7'
    } else if d == 8 {
        '8'
    } else {
        '9'
    }
}

/// The decimal numeral of `n`, without leading zeros.
pub open spec fn decimal(n: nat) -> Seq<char>
    decreases n,
{
    if n < 10 {
        seq![digit_char(n as int)]
    } else {
        decimal(n / 10).push(digit_char((n % 10) as int))
    }
}

fn digit(d: u64) -> (c: char)
    requires
        d < 10,
    ensures
        c == digit_char(d as int),
{
    if d == 0 {
        '0'
    } else if d == 1 {
        '1'
    } else if d == 2 {
        '2'
    } else if d == 3 {
        '3'
    } else if d == 4 {
        '4'
    } else if d == 5 {
        '5'
    } else if d == 6 {
        '6'
    } else if d == 7 {
        '7'
    } else if d == 8 {
        '8'
    } else {
        '9'
    }
}

/// The decimal numeral of `n`, computed.
pub fn decimal_text(n: u64) -> (text: Vec<char>)
    ensures
        text@ == decimal(n as nat),
    decreases n,
{
    if n < 10 {
        let text: Vec<char> = vec![digit(n)];
        assert(text@ == seq![digit_char(n as int)]);
        text
    } else {
        let mut text = decimal_text(n / 10);
        text.push(digit(n % 10));
        text
    }
}

/// The code of an ASCII letter's lower-case form, and the code of any other
/// character itself.
pub open spec fn folded(c: char) -> int {
    if 'A' <= c <= 'Z' {
        c as int + 32
    } else {
        c as int
    }
}

/// Whether two texts are the same but for the case of ASCII letters.
pub open spec fn same_ignoring_case(a: Seq<char>, b: Seq<char>) -> bool {
    a.len() == b.len() && forall|i: int| 0 <= i < a.len() ==> folded(a[i]) == folded(b[i])
}

fn fold(c: char) -> (code: u32)
    ensures
        code == folded(c),
{
    if 'A' <= c && c <= 'Z' {
        c as u32 + 32
    } else {
        c as u32
    }
}

/// Whether two texts are the same but for the case of ASCII letters,
/// computed.
pub fn same_text_ignoring_case(a: &Vec<char>, b: &Vec<char>) -> (r: bool)
    ensures
        r == same_ignoring_case(a@, b@),
{
    if a.len() != b.len() {
        return false;
    }
    let mut i: usize = 0;
    while i < a.len()
        invariant
            i <= a.len(),
            a.len() == b.len(),
            forall|j: int| 0 <= j < i ==> folded(a@[j]) == folded(b@[j]),
        decreases a.len() - i,
    {
        if fold(a[i]) != fold(b[i]) {
            return false;
        }
        i += 1;
    }
    true
}

} // verus!
