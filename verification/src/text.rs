//! Character-level string helpers: suffix tests and splitting on a separator,
//! each specified over the `Seq<char>` view of the string.
use vstd::prelude::*;

verus! {

/// `s` ends with `suffix`.
pub open spec fn has_suffix(s: Seq<char>, suffix: Seq<char>) -> bool {
    &&& suffix.len() <= s.len()
    &&& s.subrange(s.len() - suffix.len(), s.len() as int) == suffix
}

/// The pieces of `s` between occurrences of `sep`, in order, as `str::split`
/// with a `char` pattern yields them: `n` separators give `n + 1` pieces, and
/// the empty string gives one empty piece.
pub open spec fn split_on(s: Seq<char>, sep: char) -> Seq<Seq<char>>
    decreases s.len(),
{
    if s.len() == 0 {
        seq![Seq::<char>::empty()]
    } else {
        let before = split_on(s.drop_last(), sep);
        if s.last() == sep {
            before.push(Seq::<char>::empty())
        } else {
            before.update(before.len() - 1, before.last().push(s.last()))
        }
    }
}

/// No character of `s` is `sep`.
pub open spec fn free_of(s: Seq<char>, sep: char) -> bool {
    forall|i: int| 0 <= i < s.len() ==> s[i] != sep
}

/// Splitting always yields at least one piece.
pub proof fn lemma_split_nonempty(s: Seq<char>, sep: char)
    ensures
        split_on(s, sep).len() >= 1,
    decreases s.len(),
{
    if s.len() > 0 {
        lemma_split_nonempty(s.drop_last(), sep);
    }
}

/// Appending a stretch free of the separator extends the last piece only.
pub proof fn lemma_split_extend(s: Seq<char>, tail: Seq<char>, sep: char)
    requires
        free_of(tail, sep),
    ensures
        split_on(s + tail, sep).len() == split_on(s, sep).len(),
        split_on(s + tail, sep) == split_on(s, sep).update(
            split_on(s, sep).len() - 1,
            split_on(s, sep).last() + tail,
        ),
    decreases tail.len(),
{
    lemma_split_nonempty(s, sep);
    let pieces = split_on(s, sep);
    if tail.len() == 0 {
        assert(s + tail =~= s);
        assert(pieces.last() + tail =~= pieces.last());
        assert(pieces.update(pieces.len() - 1, pieces.last()) =~= pieces);
    } else {
        let shorter = tail.drop_last();
        lemma_split_extend(s, shorter, sep);
        let whole = s + tail;
        assert(whole.drop_last() =~= s + shorter);
        assert(whole.last() == tail.last());
        assert(tail.last() != sep);
        let prev = split_on(s + shorter, sep);
        assert(prev.last() == pieces.last() + shorter);
        assert(pieces.last() + shorter + seq![tail.last()] =~= pieces.last() + tail);
        assert(prev.last().push(tail.last()) =~= pieces.last() + tail);
        assert(split_on(whole, sep) =~= pieces.update(pieces.len() - 1, pieces.last() + tail));
    }
}

/// A string free of the separator splits into itself alone.
pub proof fn lemma_split_free(s: Seq<char>, sep: char)
    requires
        free_of(s, sep),
    ensures
        split_on(s, sep) == seq![s],
{
    lemma_split_extend(Seq::<char>::empty(), s, sep);
    assert(Seq::<char>::empty() + s =~= s);
    assert(split_on(Seq::<char>::empty(), sep) == seq![Seq::<char>::empty()]);
    assert(seq![Seq::<char>::empty()].update(0, Seq::<char>::empty() + s) =~= seq![s]);
}

/// Two separator-free stretches joined by one separator split into those two.
pub proof fn lemma_split_pair(a: Seq<char>, b: Seq<char>, sep: char)
    requires
        free_of(a, sep),
        free_of(b, sep),
    ensures
        split_on(a.push(sep) + b, sep) == seq![a, b],
{
    lemma_split_free(a, sep);
    let with_sep = a.push(sep);
    assert(with_sep.drop_last() =~= a);
    assert(split_on(with_sep, sep) =~= seq![a, Seq::<char>::empty()]);
    lemma_split_extend(with_sep, b, sep);
    assert(Seq::<char>::empty() + b =~= b);
    assert(seq![a, Seq::<char>::empty()].update(1, Seq::<char>::empty() + b) =~= seq![a, b]);
}

/// Appending one character leaves every piece but the last as it was.
pub proof fn lemma_split_push_keeps(x: Seq<char>, c: char, sep: char)
    ensures
        split_on(x.push(c), sep).len() >= split_on(x, sep).len(),
        forall|i: int|
            0 <= i < split_on(x, sep).len() - 1 ==> #[trigger] split_on(x.push(c), sep)[i]
                == split_on(x, sep)[i],
{
    lemma_split_nonempty(x, sep);
    assert(x.push(c).drop_last() =~= x);
    assert(x.push(c).last() == c);
}

/// Appending any text leaves every piece but the last as it was.
pub proof fn lemma_split_append_keeps(y: Seq<char>, t: Seq<char>, sep: char)
    ensures
        split_on(y + t, sep).len() >= split_on(y, sep).len(),
        forall|i: int|
            0 <= i < split_on(y, sep).len() - 1 ==> #[trigger] split_on(y + t, sep)[i]
                == split_on(y, sep)[i],
    decreases t.len(),
{
    if t.len() == 0 {
        assert(y + t =~= y);
    } else {
        let shorter = t.drop_last();
        lemma_split_append_keeps(y, shorter, sep);
        lemma_split_push_keeps(y + shorter, t.last(), sep);
        assert((y + shorter).push(t.last()) =~= y + t);
        lemma_split_nonempty(y, sep);
        assert forall|i: int| 0 <= i < split_on(y, sep).len() - 1 implies #[trigger] split_on(
            y + t,
            sep,
        )[i] == split_on(y, sep)[i] by {
            assert(split_on((y + shorter).push(t.last()), sep)[i] == split_on(y + shorter, sep)[i]);
        }
    }
}

/// Whether `s` ends with `suffix`, comparing characters.
pub fn ends_with(s: &str, suffix: &str) -> (r: bool)
    ensures
        r == has_suffix(s@, suffix@),
{
    let n = s.unicode_len();
    let m = suffix.unicode_len();
    if m > n {
        return false;
    }
    let start = n - m;
    let mut j: usize = 0;
    while j < m
        invariant
            n == s@.len(),
            m == suffix@.len(),
            start == n - m,
            j <= m,
            forall|k: int| 0 <= k < j ==> s@[start + k] == suffix@[k],
        decreases m - j,
    {
        if s.get_char(start + j) != suffix.get_char(j) {
            assert(s@.subrange(start as int, n as int)[j as int] != suffix@[j as int]);
            return false;
        }
        j = j + 1;
    }
    assert(s@.subrange(start as int, n as int) =~= suffix@);
    true
}

/// Splits `s` at every occurrence of `sep`, as `str::split` does.
pub fn split_chars(s: &str, sep: char) -> (pieces: Vec<String>)
    ensures
        pieces@.map_values(|p: String| p@) == split_on(s@, sep),
{
    let n = s.unicode_len();
    let mut pieces: Vec<String> = Vec::new();
    let mut start: usize = 0;
    let mut i: usize = 0;
    assert(s@.subrange(0, 0) =~= Seq::<char>::empty());
    assert(pieces@.map_values(|p: String| p@).push(s@.subrange(0, 0)) =~= seq![
        Seq::<char>::empty(),
    ]);
    while i < n
        invariant
            n == s@.len(),
            start <= i <= n,
            pieces@.map_values(|p: String| p@).push(s@.subrange(start as int, i as int))
                == split_on(s@.subrange(0, i as int), sep),
        decreases n - i,
    {
        let c = s.get_char(i);
        let ghost done = pieces@.map_values(|p: String| p@);
        let ghost current = s@.subrange(start as int, i as int);
        let ghost prefix = s@.subrange(0, i as int);
        let ghost next_prefix = s@.subrange(0, i + 1);
        assert(next_prefix.drop_last() =~= prefix);
        assert(next_prefix.last() == c);
        if c == sep {
            let piece = s.substring_char(start, i).to_owned();
            pieces.push(piece);
            start = i + 1;
            assert(pieces@.map_values(|p: String| p@) =~= done.push(current));
            assert(s@.subrange(start as int, i + 1) =~= Seq::<char>::empty());
        } else {
            assert(s@.subrange(start as int, i + 1) =~= current.push(c));
            assert(done.push(current).update(done.len() as int, current.push(c)) =~= done.push(
                current.push(c),
            ));
        }
        i = i + 1;
    }
    let ghost done = pieces@.map_values(|p: String| p@);
    let last = s.substring_char(start, n).to_owned();
    pieces.push(last);
    assert(pieces@.map_values(|p: String| p@) =~= done.push(s@.subrange(start as int, n as int)));
    assert(s@.subrange(0, n as int) =~= s@);
    pieces
}

} // verus!
