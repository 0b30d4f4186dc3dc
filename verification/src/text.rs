//! Texts as sequences of characters: copying, comparing, trimming and
//! splitting.

use vstd::prelude::*;

verus! {

/// `String::push` appends one character.
pub assume_specification[ String::push ](s: &mut String, c: char)
    ensures
        final(s)@ == old(s)@.push(c),
;

/// The characters of `text`, in order.
pub fn chars_of(text: &str) -> (v: Vec<char>)
    ensures
        v@ == text@,
{
    let mut v: Vec<char> = Vec::new();
    for c in it: text.chars()
        invariant
            v@ == it.history(),
    {
        v.push(c);
    }
    v
}

/// The text with the characters of `v`.
pub fn string_of(v: &Vec<char>) -> (s: String)
    ensures
        s@ == v@,
{
    let mut s = String::new();
    let mut i: usize = 0;
    while i < v.len()
        invariant
            i <= v.len(),
            s@ == v@.take(i as int),
        decreases v.len() - i,
    {
        s.push(v[i]);
        i += 1;
        assert(v@.take(i as int) == v@.take(i - 1).push(v@[i - 1]));
    }
    assert(v@.take(v.len() as int) == v@);
    s
}

/// The code point of `c`.
pub fn code_point(c: char) -> (n: u32)
    ensures
        n == c as nat,
{
    c as u32
}

/// The code point of a character is at most 0x10FFFF, and the character is
/// the one with that code point.
pub proof fn lemma_code_point_bound(c: char)
    ensures
        c as nat <= 0x10FFFF,
        (c as nat) as char == c,
{
}

/// Whether two texts hold the same characters.
pub fn same_text(a: &str, b: &str) -> (r: bool)
    ensures
        r == (a@ == b@),
{
    let x = chars_of(a);
    let y = chars_of(b);
    if x.len() != y.len() {
        return false;
    }
    let mut i: usize = 0;
    while i < x.len()
        invariant
            i <= x.len(),
            x.len() == y.len(),
            x@ == a@,
            y@ == b@,
            forall|k: int| 0 <= k < i ==> x@[k] == y@[k],
        decreases x.len() - i,
    {
        if x[i] != y[i] {
            assert(a@[i as int] != b@[i as int]);
            return false;
        }
        i += 1;
    }
    assert(x@ =~= y@);
    true
}

/// A copy of `v` from index `from` up to, not including, index `to`.
fn copy_range(v: &Vec<char>, from: usize, to: usize) -> (r: Vec<char>)
    requires
        from <= to <= v.len(),
    ensures
        r@ == v@.subrange(from as int, to as int),
{
    let mut r: Vec<char> = Vec::new();
    let mut i: usize = from;
    while i < to
        invariant
            from <= i <= to <= v.len(),
            r@ == v@.subrange(from as int, i as int),
        decreases to - i,
    {
        r.push(v[i]);
        i += 1;
    }
    r
}

/// Whether `c` is white space in the sense of Unicode's `White_Space`
/// property.
pub open spec fn is_whitespace(c: char) -> bool {
    let n = c as nat;
    ||| 0x09 <= n <= 0x0D
    ||| n == 0x20
    ||| n == 0x85
    ||| n == 0xA0
    ||| n == 0x1680
    ||| 0x2000 <= n <= 0x200A
    ||| n == 0x2028
    ||| n == 0x2029
    ||| n == 0x202F
    ||| n == 0x205F
    ||| n == 0x3000
}

/// Whether `c` is white space.
pub fn is_space(c: char) -> (r: bool)
    ensures
        r == is_whitespace(c),
{
    let n: u32 = c as u32;
    (0x09 <= n && n <= 0x0D) || n == 0x20 || n == 0x85 || n == 0xA0 || n == 0x1680 || (0x2000 <= n
        && n <= 0x200A) || n == 0x2028 || n == 0x2029 || n == 0x202F || n == 0x205F || n == 0x3000
}

/// `s` without the white space at its start.
pub open spec fn trim_start(s: Seq<char>) -> Seq<char>
    decreases s.len(),
{
    if s.len() > 0 && is_whitespace(s[0]) {
        trim_start(s.drop_first())
    } else {
        s
    }
}

/// `s` without the white space at its end.
pub open spec fn trim_end(s: Seq<char>) -> Seq<char>
    decreases s.len(),
{
    if s.len() > 0 && is_whitespace(s.last()) {
        trim_end(s.drop_last())
    } else {
        s
    }
}

/// `s` without the white space at its start and at its end.
pub open spec fn trim(s: Seq<char>) -> Seq<char> {
    trim_end(trim_start(s))
}

/// Trimming at the start takes away a run of white space and stops before
/// the first character that is none.
pub proof fn lemma_trim_start(s: Seq<char>)
    ensures
        trim_start(s).len() <= s.len(),
        trim_start(s) == s.skip(s.len() - trim_start(s).len()),
        forall|i: int| 0 <= i < s.len() - trim_start(s).len() ==> is_whitespace(#[trigger] s[i]),
        trim_start(s).len() > 0 ==> !is_whitespace(trim_start(s)[0]),
    decreases s.len(),
{
    if s.len() > 0 && is_whitespace(s[0]) {
        let rest = s.drop_first();
        lemma_trim_start(rest);
        let cut = s.len() - trim_start(s).len();
        assert(rest.skip(cut - 1) == s.skip(cut));
        assert forall|i: int| 0 <= i < cut implies is_whitespace(#[trigger] s[i]) by {
            if i > 0 {
                assert(s[i] == rest[i - 1]);
            }
        }
    } else {
        assert(s.skip(0) == s);
    }
}

/// Trimming at the end takes away a run of white space and stops after the
/// last character that is none.
pub proof fn lemma_trim_end(s: Seq<char>)
    ensures
        trim_end(s).len() <= s.len(),
        trim_end(s) == s.take(trim_end(s).len() as int),
        forall|i: int| trim_end(s).len() <= i < s.len() ==> is_whitespace(#[trigger] s[i]),
        trim_end(s).len() > 0 ==> !is_whitespace(trim_end(s).last()),
    decreases s.len(),
{
    if s.len() > 0 && is_whitespace(s.last()) {
        let rest = s.drop_last();
        lemma_trim_end(rest);
        let kept = trim_end(s).len() as int;
        assert(rest.take(kept) == s.take(kept));
        assert forall|i: int| kept <= i < s.len() implies is_whitespace(#[trigger] s[i]) by {
            if i < s.len() - 1 {
                assert(s[i] == rest[i]);
            }
        }
    } else {
        assert(s.take(s.len() as int) == s);
    }
}

/// A trimmed text neither starts nor ends with white space, and it is the
/// text without a run of white space at its start and one at its end.
pub proof fn lemma_trim(s: Seq<char>)
    ensures
        trim(s).len() > 0 ==> !is_whitespace(trim(s)[0]) && !is_whitespace(trim(s).last()),
        exists|a: int, b: int|
            0 <= a <= b <= s.len() && #[trigger] s.subrange(a, b) == trim(s) && (forall|i: int|
                0 <= i < a ==> is_whitespace(#[trigger] s[i])) && (forall|i: int|
                b <= i < s.len() ==> is_whitespace(#[trigger] s[i])),
{
    let t = trim_start(s);
    lemma_trim_start(s);
    lemma_trim_end(t);
    let a = s.len() - t.len();
    let b = a + trim(s).len();
    assert(s.subrange(a, b) == trim(s));
    assert forall|i: int| b <= i < s.len() implies is_whitespace(#[trigger] s[i]) by {
        assert(s[i] == t[i - a]);
    }
    if trim(s).len() > 0 {
        assert(trim(s)[0] == t[0]);
    }
}

/// `v` without the white space at its start and at its end.
pub fn trim_chars(v: &Vec<char>) -> (r: Vec<char>)
    ensures
        r@ == trim(v@),
{
    let mut a: usize = 0;
    assert(v@.skip(0) == v@);
    while a < v.len() && is_space(v[a])
        invariant
            a <= v.len(),
            trim_start(v@) == trim_start(v@.skip(a as int)),
        decreases v.len() - a,
    {
        assert(v@.skip(a as int).drop_first() == v@.skip(a + 1));
        a += 1;
    }
    assert(trim_start(v@) == v@.skip(a as int));
    let mut b: usize = v.len();
    while b > a && is_space(v[b - 1])
        invariant
            a <= b <= v.len(),
            trim(v@) == trim_end(v@.subrange(a as int, b as int)),
        decreases b,
    {
        assert(v@.subrange(a as int, b as int).drop_last() == v@.subrange(a as int, b - 1));
        b -= 1;
    }
    copy_range(v, a, b)
}

/// The index of the first `sep` in `s`, or the length of `s` where it has
/// none.
pub open spec fn first_index_of(s: Seq<char>, sep: char) -> nat
    decreases s.len(),
{
    if s.len() == 0 || s[0] == sep {
        0
    } else {
        1 + first_index_of(s.drop_first(), sep)
    }
}

/// The pieces of `s` between the occurrences of `sep`, in order. A text
/// with `k` separators has `k + 1` pieces, some of which may be empty.
pub open spec fn split(s: Seq<char>, sep: char) -> Seq<Seq<char>>
    decreases s.len(),
{
    let i = first_index_of(s, sep);
    if i >= s.len() {
        seq![s]
    } else {
        seq![s.take(i as int)] + split(s.skip(i as int + 1), sep)
    }
}

/// The pieces put together again, with `sep` between each two.
pub open spec fn join(pieces: Seq<Seq<char>>, sep: char) -> Seq<char>
    decreases pieces.len(),
{
    if pieces.len() == 0 {
        Seq::empty()
    } else if pieces.len() == 1 {
        pieces[0]
    } else {
        pieces[0].push(sep) + join(pieces.drop_first(), sep)
    }
}

/// Whether no piece holds `sep`.
pub open spec fn pieces_lack(pieces: Seq<Seq<char>>, sep: char) -> bool {
    forall|k: int, i: int|
        0 <= k < pieces.len() && 0 <= i < pieces[k].len() ==> #[trigger] pieces[k][i] != sep
}

/// `first_index_of` is the one index before which no `sep` stands and at
/// which one stands, or the text ends.
pub proof fn lemma_first_index_of(s: Seq<char>, sep: char, k: int)
    requires
        0 <= k <= s.len(),
        forall|i: int| 0 <= i < k ==> s[i] != sep,
        k == s.len() || s[k] == sep,
    ensures
        first_index_of(s, sep) == k,
    decreases k,
{
    if k > 0 {
        let rest = s.drop_first();
        assert forall|i: int| 0 <= i < k - 1 implies rest[i] != sep by {
            assert(rest[i] == s[i + 1]);
        }
        lemma_first_index_of(rest, sep, k - 1);
    }
}

/// Where `first_index_of` points: no `sep` stands before it, and one stands
/// at it unless the text ends there.
pub proof fn lemma_first_index_of_points(s: Seq<char>, sep: char)
    ensures
        first_index_of(s, sep) <= s.len(),
        forall|i: int| 0 <= i < first_index_of(s, sep) ==> s[i] != sep,
        first_index_of(s, sep) < s.len() ==> s[first_index_of(s, sep) as int] == sep,
    decreases s.len(),
{
    if s.len() > 0 && s[0] != sep {
        let rest = s.drop_first();
        lemma_first_index_of_points(rest, sep);
        assert forall|i: int| 0 <= i < first_index_of(s, sep) implies s[i] != sep by {
            if i > 0 {
                assert(s[i] == rest[i - 1]);
            }
        }
    }
}

/// A text has at least one piece.
pub proof fn lemma_split_nonempty(s: Seq<char>, sep: char)
    ensures
        split(s, sep).len() >= 1,
{
}

/// Splitting is undone by joining, and no piece holds a separator.
pub proof fn lemma_split_joins(s: Seq<char>, sep: char)
    ensures
        join(split(s, sep), sep) == s,
        pieces_lack(split(s, sep), sep),
    decreases s.len(),
{
    let i = first_index_of(s, sep) as int;
    lemma_first_index_of_points(s, sep);
    if i < s.len() {
        let rest = s.skip(i + 1);
        let pieces = split(s, sep);
        lemma_split_joins(rest, sep);
        assert(pieces.drop_first() == split(rest, sep));
        assert(s.take(i).push(sep) + rest == s);
        assert forall|k: int, j: int|
            0 <= k < pieces.len() && 0 <= j < pieces[k].len() implies #[trigger] pieces[k][j]
            != sep by {
            if k > 0 {
                assert(pieces[k] == split(rest, sep)[k - 1]);
            }
        }
    }
}

/// Joining is undone by splitting, where there is a piece and no piece
/// holds a separator. With `lemma_split_joins`: the pieces of a text are
/// the one sequence of pieces without separators that join to the text.
pub proof fn lemma_join_splits(pieces: Seq<Seq<char>>, sep: char)
    requires
        pieces.len() >= 1,
        pieces_lack(pieces, sep),
    ensures
        split(join(pieces, sep), sep) == pieces,
    decreases pieces.len(),
{
    let first = pieces[0];
    let joined = join(pieces, sep);
    let k = first.len() as int;
    assert forall|i: int| 0 <= i < k implies first[i] != sep by {
        assert(pieces[0][i] != sep);
    }
    if pieces.len() == 1 {
        lemma_first_index_of(joined, sep, k);
        assert(pieces == seq![first]);
    } else {
        let others = pieces.drop_first();
        assert forall|m: int, i: int|
            0 <= m < others.len() && 0 <= i < others[m].len() implies #[trigger] others[m][i]
            != sep by {
            assert(pieces[m + 1][i] != sep);
        }
        lemma_join_splits(others, sep);
        assert forall|i: int| 0 <= i < k implies joined[i] != sep by {
            assert(joined[i] == first[i]);
        }
        lemma_first_index_of(joined, sep, k);
        assert(joined.take(k) == first);
        assert(joined.skip(k + 1) == join(others, sep));
        assert(seq![first] + others == pieces);
    }
}

/// The pieces of `v` between the occurrences of `sep`, in order.
pub fn split_chars(v: &Vec<char>, sep: char) -> (pieces: Vec<Vec<char>>)
    ensures
        pieces.deep_view() == split(v@, sep),
{
    let mut pieces: Vec<Vec<char>> = Vec::new();
    let mut start: usize = 0;
    assert(v@.skip(0) == v@);
    assert(pieces.deep_view() =~= Seq::<Seq<char>>::empty());
    loop
        invariant_except_break
            start <= v.len(),
            split(v@, sep) == pieces.deep_view() + split(v@.skip(start as int), sep),
        ensures
            pieces.deep_view() == split(v@, sep),
        decreases v.len() - start,
    {
        let mut piece: Vec<char> = Vec::new();
        let mut j: usize = start;
        while j < v.len() && v[j] != sep
            invariant
                start <= j <= v.len(),
                piece@ == v@.subrange(start as int, j as int),
                forall|k: int| start <= k < j ==> v@[k] != sep,
            decreases v.len() - j,
        {
            piece.push(v[j]);
            j += 1;
        }
        let ghost rest = v@.skip(start as int);
        let ghost before = pieces.deep_view();
        let ghost found = piece.deep_view();
        proof {
            lemma_first_index_of(rest, sep, j - start);
            assert(found =~= piece@);
            assert(rest.take(j - start) == found);
        }
        pieces.push(piece);
        assert(pieces.deep_view() =~= before + seq![found]);
        if j == v.len() {
            assert(rest == found);
            break ;
        }
        assert(rest.skip(j - start + 1) == v@.skip(j + 1));
        start = j + 1;
    }
    pieces
}

/// Mapping one more element, with its index, and joining appends what it
/// maps to.
pub proof fn lemma_join_step<A>(s: Seq<A>, f: spec_fn(int, A) -> Seq<char>, k: int)
    requires
        0 <= k < s.len(),
    ensures
        s.take(k + 1).map(f).flatten() == s.take(k).map(f).flatten() + f(k, s[k]),
{
    assert(s.take(k + 1).map(f) =~= s.take(k).map(f).push(f(k, s[k])));
    s.take(k).map(f).lemma_flatten_push(f(k, s[k]));
}

/// Mapping and joining one more element appends what it maps to.
pub proof fn lemma_flat_map_step<A>(s: Seq<A>, f: spec_fn(A) -> Seq<char>, k: int)
    requires
        0 <= k < s.len(),
    ensures
        s.take(k + 1).flat_map(f) == s.take(k).flat_map(f) + f(s[k]),
{
    assert(s.take(k + 1).map_values(f) =~= s.take(k).map_values(f).push(f(s[k])));
    s.take(k).map_values(f).lemma_flatten_push(f(s[k]));
}

} // verus!
