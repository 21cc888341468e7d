//! Character-level helpers shared by the parsers and the renderer.

use vstd::prelude::*;

verus! {

/// Appends one character to a string, as `String::push` of the standard
/// library does: the new contents are the old contents followed by `c`.
#[verifier::external_body]
pub(crate) fn push_char(s: &mut String, c: char)
    ensures
        final(s)@ == old(s)@.push(c),
{
    s.push(c)
}

/// The characters of `s`, in order.
pub fn chars_of(s: &str) -> (v: Vec<char>)
    ensures
        v@ == s@,
{
    let mut v: Vec<char> = Vec::new();
    for c in it: s.chars()
        invariant
            v@ == it.seq().take(it.index() as int),
            it.seq() == s@,
    {
        v.push(c);
    }
    v
}

/// Appends the characters of `s` to `out`.
pub fn push_str(out: &mut Vec<char>, s: &str)
    ensures
        final(out)@ == old(out)@ + s@,
{
    for c in it: s.chars()
        invariant
            out@ == old(out)@ + it.seq().take(it.index() as int),
            it.seq() == s@,
    {
        out.push(c);
    }
}

/// The string whose characters are `v`, in order.
pub fn string_of(v: &Vec<char>) -> (s: String)
    ensures
        s@ == v@,
{
    let mut s = String::new();
    let mut i: usize = 0;
    while i < v.len()
        invariant
            i <= v.len(),
            s@ == v@.take(i as int),
        decreases v.len() - i,
    {
        push_char(&mut s, v[i]);
        i += 1;
    }
    s
}

/// The pieces of `s` between the occurrences of `sep`. There is always at
/// least one piece, and a piece may be empty.
pub open spec fn split_on(s: Seq<char>, sep: char) -> Seq<Seq<char>>
    decreases s.len(),
{
    if s.len() == 0 {
        seq![Seq::<char>::empty()]
    } else {
        let before = split_on(s.drop_last(), sep);
        if s.last() == sep {
            before.push(Seq::<char>::empty())
        } else {
            before.drop_last().push(before.last().push(s.last()))
        }
    }
}

/// The views of the vectors in `v`, in order.
pub open spec fn views_of(v: Seq<Vec<char>>) -> Seq<Seq<char>> {
    Seq::new(v.len(), |i: int| v[i]@)
}

/// `split_on` never yields an empty list of pieces.
pub proof fn lemma_split_on_nonempty(s: Seq<char>, sep: char)
    ensures
        split_on(s, sep).len() >= 1,
    decreases s.len(),
{
    if s.len() > 0 {
        lemma_split_on_nonempty(s.drop_last(), sep);
    }
}

/// The first piece ends before the first separator: it holds none, it is a
/// prefix of the text, and where there are more pieces a separator follows
/// it.
pub proof fn lemma_split_on_first_piece(s: Seq<char>, sep: char)
    ensures
        split_on(s, sep).len() >= 1,
        split_on(s, sep)[0].len() + split_on(s, sep).len() - 1 <= s.len(),
        split_on(s, sep)[0] == s.take(split_on(s, sep)[0].len() as int),
        !split_on(s, sep)[0].contains(sep),
        split_on(s, sep).len() >= 2 ==> s[split_on(s, sep)[0].len() as int] == sep,
        split_on(s, sep).len() == 1 ==> split_on(s, sep)[0] == s,
    decreases s.len(),
{
    if s.len() > 0 {
        let before = split_on(s.drop_last(), sep);
        lemma_split_on_first_piece(s.drop_last(), sep);
        let first = before[0];
        if s.last() == sep {
            assert(split_on(s, sep)[0] == first);
            assert(first == s.take(first.len() as int));
            if before.len() == 1 {
                assert(s[first.len() as int] == sep);
            } else {
                assert(s[first.len() as int] == s.drop_last()[first.len() as int]);
            }
        } else if before.len() == 1 {
            let grown = first.push(s.last());
            assert(split_on(s, sep) == seq![grown]);
            assert(grown == s);
            assert(s.take(s.len() as int) == s);
            assert forall|i: int| 0 <= i < grown.len() implies grown[i] != sep by {
                if i < first.len() {
                    assert(first.contains(grown[i]));
                }
            }
        } else {
            assert(split_on(s, sep)[0] == first);
            assert(first == s.take(first.len() as int));
            assert(s[first.len() as int] == s.drop_last()[first.len() as int]);
        }
    } else {
        assert(split_on(s, sep)[0] == s);
        assert(s.take(0) == s);
    }
}

/// The texts of `pieces` with `between` between one and the next.
pub open spec fn join_with(pieces: Seq<Seq<char>>, between: Seq<char>) -> Seq<char>
    decreases pieces.len(),
{
    if pieces.len() == 0 {
        Seq::empty()
    } else if pieces.len() == 1 {
        pieces[0]
    } else {
        join_with(pieces.drop_last(), between) + between + pieces.last()
    }
}

/// Whether no text of `pieces` holds `sep`.
pub open spec fn none_holds(pieces: Seq<Seq<char>>, sep: char) -> bool {
    forall|i: int| 0 <= i < pieces.len() ==> !(#[trigger] pieces[i]).contains(sep)
}

/// A text that holds no separator is one piece.
pub proof fn lemma_split_on_one_piece(s: Seq<char>, sep: char)
    requires
        !s.contains(sep),
    ensures
        split_on(s, sep) == seq![s],
    decreases s.len(),
{
    if s.len() == 0 {
        assert(s == Seq::<char>::empty());
    } else {
        assert forall|i: int| 0 <= i < s.len() - 1 implies s.drop_last()[i] != sep by {
            assert(s.contains(s[i]));
        }
        lemma_split_on_one_piece(s.drop_last(), sep);
        assert(s.contains(s.last()));
        assert(s.drop_last().push(s.last()) == s);
        assert(seq![s.drop_last()].drop_last().push(s.drop_last().push(s.last())) == seq![s]);
    }
}

/// A separator and a text that holds none add one piece.
pub proof fn lemma_split_on_one_more(a: Seq<char>, b: Seq<char>, sep: char)
    requires
        !b.contains(sep),
    ensures
        split_on(a + seq![sep] + b, sep) == split_on(a, sep).push(b),
    decreases b.len(),
{
    if b.len() == 0 {
        let s = a + seq![sep] + b;
        assert(s.drop_last() == a);
        assert(s.last() == sep);
        assert(b == Seq::<char>::empty());
    } else {
        let s = a + seq![sep] + b;
        let shorter = b.drop_last();
        assert forall|i: int| 0 <= i < shorter.len() implies shorter[i] != sep by {
            assert(b.contains(b[i]));
        }
        lemma_split_on_one_more(a, shorter, sep);
        assert(s.drop_last() == a + seq![sep] + shorter);
        assert(s.last() == b.last());
        assert(b.contains(b.last()));
        assert(shorter.push(b.last()) == b);
        let before = split_on(a, sep).push(shorter);
        assert(before.drop_last() == split_on(a, sep));
    }
}

/// Joining and then splitting gives the pieces back, where there is a
/// piece and none of them holds the separator.
pub proof fn lemma_join_splits_back(pieces: Seq<Seq<char>>, sep: char)
    requires
        pieces.len() >= 1,
        none_holds(pieces, sep),
    ensures
        split_on(join_with(pieces, seq![sep]), sep) == pieces,
    decreases pieces.len(),
{
    if pieces.len() == 1 {
        lemma_split_on_one_piece(pieces[0], sep);
        assert(seq![pieces[0]] == pieces);
    } else {
        let front = pieces.drop_last();
        assert forall|i: int| 0 <= i < front.len() implies !(#[trigger] front[i]).contains(sep) by {
            assert(front[i] == pieces[i]);
        }
        lemma_join_splits_back(front, sep);
        lemma_split_on_one_more(join_with(front, seq![sep]), pieces.last(), sep);
        assert(front.push(pieces.last()) == pieces);
    }
}

/// Splits `v` at every occurrence of `sep`.
pub fn split_chars(v: &Vec<char>, sep: char) -> (pieces: Vec<Vec<char>>)
    ensures
        views_of(pieces@) == split_on(v@, sep),
{
    let mut pieces: Vec<Vec<char>> = Vec::new();
    let mut current: Vec<char> = Vec::new();
    let mut i: usize = 0;
    while i < v.len()
        invariant
            i <= v.len(),
            views_of(pieces@).push(current@) == split_on(v@.take(i as int), sep),
        decreases v.len() - i,
    {
        let c = v[i];
        proof {
            let next = v@.take(i + 1);
            assert(next.drop_last() == v@.take(i as int));
            assert(next.last() == c);
            lemma_split_on_nonempty(v@.take(i as int), sep);
        }
        if c == sep {
            let ghost before = views_of(pieces@);
            pieces.push(current);
            current = Vec::new();
            assert(views_of(pieces@) == before.push(pieces@.last()@));
        } else {
            let ghost before = current@;
            current.push(c);
            assert(views_of(pieces@).push(before).drop_last() == views_of(pieces@));
        }
        i += 1;
    }
    let ghost before = views_of(pieces@);
    pieces.push(current);
    assert(views_of(pieces@) == before.push(pieces@.last()@));
    assert(v@.take(v.len() as int) == v@);
    pieces
}

} // verus!
