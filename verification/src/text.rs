//! Character-level helpers shared by the rest of the crate.
//!
//! Text is modelled as `Seq<char>`. Every executable helper here states its
//! result as a function of the views of its arguments.

use vstd::prelude::*;

verus! {

/// Appends one character to a string.
///
/// Trusted: stands for `String::push`, which adds exactly the given
/// character at the end and leaves the rest of the string as it was.
#[verifier::external_body]
pub(crate) fn push_char(s: &mut String, c: char)
    ensures
        final(s)@ == old(s)@.push(c),
{
    s.push(c);
}

/// The characters of a string slice, in order.
pub fn chars_of(s: &str) -> (v: Vec<char>)
    ensures
        v@ == s@,
{
    let mut v: Vec<char> = Vec::new();
    for c in it: s.chars()
        invariant
            v@ == it.seq().take(it.index()),
            it.seq() == s@,
    {
        v.push(c);
    }
    v
}

/// The string made of the given characters, in order.
pub fn string_of(v: &Vec<char>) -> (s: String)
    ensures
        s@ == v@,
{
    let mut s = String::new();
    let mut i: usize = 0;
    while i < v.len()
        invariant
            i <= v.len(),
            s@ == v@.take(i as int),
        decreases v.len() - i,
    {
        push_char(&mut s, v[i]);
        i += 1;
    }
    s
}

/// Appends the characters of `more` to `out`.
pub fn append_chars(out: &mut Vec<char>, more: &Vec<char>)
    ensures
        final(out)@ == old(out)@ + more@,
{
    let mut i: usize = 0;
    while i < more.len()
        invariant
            i <= more.len(),
            out@ == old(out)@ + more@.take(i as int),
        decreases more.len() - i,
    {
        out.push(more[i]);
        assert(more@.take(i + 1) == more@.take(i as int).push(more@[i as int]));
        i += 1;
    }
    assert(more@.take(more.len() as int) == more@);
}

/// Two texts, one behind the other.
pub fn catenate(first: &str, second: &str) -> (out: String)
    ensures
        out@ == first@ + second@,
{
    let mut out = chars_of(first);
    append_chars(&mut out, &chars_of(second));
    string_of(&out)
}

/// The views of a sequence of character vectors.
pub open spec fn views(parts: Seq<Vec<char>>) -> Seq<Seq<char>> {
    Seq::new(parts.len(), |i: int| parts[i]@)
}

/// The views of a sequence of strings.
pub open spec fn string_views(parts: Seq<String>) -> Seq<Seq<char>> {
    Seq::new(parts.len(), |i: int| parts[i]@)
}

/// A copy of the characters `v[from..to]`.
pub fn slice_of(v: &Vec<char>, from: usize, to: usize) -> (out: Vec<char>)
    requires
        from <= to <= v.len(),
    ensures
        out@ == v@.subrange(from as int, to as int),
{
    let mut out: Vec<char> = Vec::new();
    let mut i: usize = from;
    while i < to
        invariant
            from <= i <= to <= v.len(),
            out@ == v@.subrange(from as int, i as int),
        decreases to - i,
    {
        out.push(v[i]);
        i += 1;
    }
    out
}

/// Whether two character sequences are the same.
pub fn same_chars(a: &Vec<char>, b: &Vec<char>) -> (r: bool)
    ensures
        r == (a@ == b@),
{
    if a.len() != b.len() {
        return false;
    }
    let mut i: usize = 0;
    while i < a.len()
        invariant
            i <= a.len(),
            a.len() == b.len(),
            a@.take(i as int) == b@.take(i as int),
        decreases a.len() - i,
    {
        if a[i] != b[i] {
            return false;
        }
        assert(a@.take(i + 1) == a@.take(i as int).push(a@[i as int]));
        assert(b@.take(i + 1) == b@.take(i as int).push(b@[i as int]));
        i += 1;
    }
    assert(a@ == a@.take(a.len() as int));
    assert(b@ == b@.take(b.len() as int));
    true
}

/// `s` begins with `prefix`.
pub open spec fn starts_with(s: Seq<char>, prefix: Seq<char>) -> bool {
    prefix.len() <= s.len() && s.take(prefix.len() as int) == prefix
}

/// Whether `v` begins with `prefix`.
pub fn has_prefix(v: &Vec<char>, prefix: &Vec<char>) -> (r: bool)
    ensures
        r == starts_with(v@, prefix@),
{
    if prefix.len() > v.len() {
        return false;
    }
    let mut i: usize = 0;
    while i < prefix.len()
        invariant
            i <= prefix.len() <= v.len(),
            v@.take(i as int) == prefix@.take(i as int),
        decreases prefix.len() - i,
    {
        if v[i] != prefix[i] {
            assert(v@.take(prefix.len() as int)[i as int] != prefix@[i as int]);
            return false;
        }
        assert(v@.take(i + 1) == v@.take(i as int).push(v@[i as int]));
        assert(prefix@.take(i + 1) == prefix@.take(i as int).push(prefix@[i as int]));
        i += 1;
    }
    assert(prefix@ == prefix@.take(prefix.len() as int));
    true
}

/// The position of the first `c` in `s`, or `s.len()` where there is none.
pub open spec fn index_of(s: Seq<char>, c: char) -> int
    decreases s.len(),
{
    if s.len() == 0 || s[0] == c {
        0
    } else {
        1 + index_of(s.drop_first(), c)
    }
}

/// `index_of` is the least position that holds `c`.
pub proof fn lemma_index_of(s: Seq<char>, c: char)
    ensures
        0 <= index_of(s, c) <= s.len(),
        forall|j: int| 0 <= j < index_of(s, c) ==> s[j] != c,
        index_of(s, c) < s.len() ==> s[index_of(s, c)] == c,
    decreases s.len(),
{
    if s.len() == 0 || s[0] == c {
    } else {
        let t = s.drop_first();
        lemma_index_of(t, c);
        assert forall|j: int| 0 <= j < index_of(s, c) implies s[j] != c by {
            if j > 0 {
                assert(s[j] == t[j - 1]);
            }
        }
    }
}

/// A position is `index_of` once nothing before it holds `c` and it is either
/// the end or holds `c` itself.
pub proof fn lemma_index_of_is(s: Seq<char>, c: char, k: int)
    requires
        0 <= k <= s.len(),
        forall|j: int| 0 <= j < k ==> s[j] != c,
        k < s.len() ==> s[k] == c,
    ensures
        index_of(s, c) == k,
{
    lemma_index_of(s, c);
    let i = index_of(s, c);
    if i < k {
        assert(s[i] == c);
    } else if k < i {
        assert(s[k] == c);
    }
}

/// The pieces of `s` between occurrences of `sep`: one more piece than there
/// are separators, so never empty.
pub open spec fn split_on(s: Seq<char>, sep: char) -> Seq<Seq<char>>
    decreases s.len(),
{
    let i = index_of(s, sep);
    if 0 <= i < s.len() {
        seq![s.take(i)] + split_on(s.skip(i + 1), sep)
    } else {
        seq![s]
    }
}

/// The pieces joined again, with `sep` between neighbours.
pub open spec fn join(parts: Seq<Seq<char>>, sep: Seq<char>) -> Seq<char>
    decreases parts.len(),
{
    if parts.len() == 0 {
        Seq::empty()
    } else if parts.len() == 1 {
        parts[0]
    } else {
        join(parts.drop_last(), sep) + sep + parts.last()
    }
}

/// Joining is the same read from the front: the first piece, the separator,
/// and the rest joined.
pub proof fn lemma_join_front(first: Seq<char>, rest: Seq<Seq<char>>, sep: Seq<char>)
    requires
        rest.len() >= 1,
    ensures
        join(seq![first] + rest, sep) == first + sep + join(rest, sep),
    decreases rest.len(),
{
    let all = seq![first] + rest;
    assert(all.last() == rest.last());
    if rest.len() == 1 {
        assert(all.drop_last() == seq![first]);
        assert(join(seq![first], sep) == first);
    } else {
        assert(all.drop_last() == seq![first] + rest.drop_last());
        lemma_join_front(first, rest.drop_last(), sep);
        assert(join(all, sep) == (first + sep + join(rest.drop_last(), sep)) + sep + rest.last());
        assert(join(rest, sep) == join(rest.drop_last(), sep) + sep + rest.last());
        assert((first + sep + join(rest.drop_last(), sep)) + sep + rest.last() == first + sep + (
        join(rest.drop_last(), sep) + sep + rest.last()));
    }
}

/// Splitting loses nothing: no piece holds the separator, and joining the
/// pieces with the separator gives the text back.
pub proof fn lemma_split_join(s: Seq<char>, sep: char)
    ensures
        split_on(s, sep).len() >= 1,
        forall|k: int, j: int|
            0 <= k < split_on(s, sep).len() && 0 <= j < split_on(s, sep)[k].len()
                ==> split_on(s, sep)[k][j] != sep,
        join(split_on(s, sep), seq![sep]) == s,
    decreases s.len(),
{
    lemma_index_of(s, sep);
    let i = index_of(s, sep);
    if 0 <= i < s.len() {
        let rest = s.skip(i + 1);
        lemma_split_join(rest, sep);
        let tail = split_on(rest, sep);
        let all = split_on(s, sep);
        assert(all == seq![s.take(i)] + tail);
        lemma_join_front(s.take(i), tail, seq![sep]);
        assert(s.take(i) + seq![sep] + rest == s);
        assert forall|k: int, j: int|
            0 <= k < all.len() && 0 <= j < all[k].len() implies all[k][j] != sep by {
            if k > 0 {
                assert(all[k] == tail[k - 1]);
            }
        }
    } else {
        assert(split_on(s, sep) == seq![s]);
    }
}

/// The pieces joined, with `sep` between neighbours.
pub fn join_chars(parts: &Vec<Vec<char>>, sep: char) -> (out: Vec<char>)
    ensures
        out@ == join(views(parts@), seq![sep]),
{
    let mut out: Vec<char> = Vec::new();
    let mut i: usize = 0;
    while i < parts.len()
        invariant
            i <= parts.len(),
            out@ == join(views(parts@).take(i as int), seq![sep]),
        decreases parts.len() - i,
    {
        let ghost before = out@;
        if i > 0 {
            out.push(sep);
        }
        let piece = &parts[i];
        let mut j: usize = 0;
        while j < piece.len()
            invariant
                j <= piece.len(),
                out@ == before + (if i > 0 {
                    seq![sep]
                } else {
                    Seq::<char>::empty()
                }) + piece@.take(j as int),
            decreases piece.len() - j,
        {
            out.push(piece[j]);
            assert(piece@.take(j + 1) == piece@.take(j as int).push(piece@[j as int]));
            j += 1;
        }
        proof {
            let done = views(parts@).take(i + 1);
            assert(piece@.take(piece.len() as int) == piece@);
            assert(done.last() == piece@);
            assert(done.drop_last() == views(parts@).take(i as int));
            if i == 0 {
                assert(before + Seq::<char>::empty() + piece@ == piece@);
            }
        }
        i += 1;
    }
    assert(views(parts@).take(parts.len() as int) == views(parts@));
    out
}

/// The pieces of `v` between occurrences of `sep`.
pub fn split_chars(v: &Vec<char>, sep: char) -> (parts: Vec<Vec<char>>)
    ensures
        views(parts@) == split_on(v@, sep),
{
    let mut parts: Vec<Vec<char>> = Vec::new();
    let mut start: usize = 0;
    let mut i: usize = 0;
    proof {
        assert(v@.skip(0) == v@);
        assert(views(parts@) + split_on(v@, sep) == split_on(v@, sep));
    }
    while i < v.len()
        invariant
            start <= i <= v.len(),
            forall|j: int| start <= j < i ==> v@[j] != sep,
            split_on(v@, sep) == views(parts@) + split_on(v@.skip(start as int), sep),
        decreases v.len() - i,
    {
        if v[i] == sep {
            let piece = slice_of(v, start, i);
            proof {
                let rest = v@.skip(start as int);
                lemma_index_of_is(rest, sep, i - start);
                assert(rest.take(i - start) == piece@);
                assert(rest.skip(i - start + 1) == v@.skip(i + 1));
                assert(views(parts@.push(piece)) == views(parts@) + seq![piece@]);
            }
            parts.push(piece);
            start = i + 1;
        }
        i += 1;
    }
    let piece = slice_of(v, start, v.len());
    proof {
        let rest = v@.skip(start as int);
        lemma_index_of_is(rest, sep, rest.len() as int);
        assert(rest == piece@);
        assert(views(parts@.push(piece)) == views(parts@) + seq![piece@]);
    }
    parts.push(piece);
    parts
}

/// White space as Unicode defines it (the property `White_Space`).
pub open spec fn is_space(c: char) -> bool {
    let n = c as u32;
    (0x09 <= n <= 0x0d) || n == 0x20 || n == 0x85 || n == 0xa0 || n == 0x1680 || (0x2000 <= n
        <= 0x200a) || n == 0x2028 || n == 0x2029 || n == 0x202f || n == 0x205f || n == 0x3000
}

/// Whether a character is white space.
pub fn is_whitespace(c: char) -> (r: bool)
    ensures
        r == is_space(c),
{
    let n: u32 = c as u32;
    (0x09 <= n && n <= 0x0d) || n == 0x20 || n == 0x85 || n == 0xa0 || n == 0x1680 || (0x2000
        <= n && n <= 0x200a) || n == 0x2028 || n == 0x2029 || n == 0x202f || n == 0x205f || n
        == 0x3000
}

/// The words of a text: its maximal runs of characters that are not white
/// space, in order.
pub open spec fn words(s: Seq<char>) -> Seq<Seq<char>>
    decreases s.len(),
{
    if s.len() == 0 {
        Seq::empty()
    } else {
        let before = words(s.drop_last());
        let c = s.last();
        if is_space(c) {
            before
        } else if s.len() >= 2 && !is_space(s[s.len() - 2]) && before.len() > 0 {
            before.drop_last().push(before.last().push(c))
        } else {
            before.push(seq![c])
        }
    }
}

/// The words of a text.
pub fn split_words(v: &Vec<char>) -> (out: Vec<Vec<char>>)
    ensures
        views(out@) == words(v@),
{
    let mut out: Vec<Vec<char>> = Vec::new();
    let mut current: Vec<char> = Vec::new();
    let mut i: usize = 0;
    assert(views(out@) == words(v@.take(0)));
    while i < v.len()
        invariant
            i <= v.len(),
            current@.len() > 0 <==> (i > 0 && !is_space(v@[i - 1])),
            current@.len() > 0 ==> words(v@.take(i as int)) == views(out@).push(current@),
            current@.len() == 0 ==> words(v@.take(i as int)) == views(out@),
        decreases v.len() - i,
    {
        let c = v[i];
        proof {
            let now = v@.take(i + 1);
            assert(now.drop_last() == v@.take(i as int));
            assert(now.last() == c);
            if i > 0 {
                assert(now[now.len() - 2] == v@[i - 1]);
            }
        }
        if is_whitespace(c) {
            if current.len() > 0 {
                proof {
                    assert(views(out@.push(current)) == views(out@).push(current@));
                }
                out.push(current);
                current = Vec::new();
            }
        } else {
            let ghost run = current@;
            current.push(c);
            proof {
                if run.len() > 0 {
                    let before = views(out@).push(run);
                    assert(before.drop_last() == views(out@));
                    assert(before.last() == run);
                    assert(words(v@.take(i + 1)) == views(out@).push(run.push(c)));
                } else {
                    assert(run.push(c) == seq![c]);
                    assert(words(v@.take(i + 1)) == views(out@).push(seq![c]));
                }
            }
        }
        i += 1;
    }
    assert(v@.take(v.len() as int) == v@);
    if current.len() > 0 {
        proof {
            assert(views(out@.push(current)) == views(out@).push(current@));
        }
        out.push(current);
    }
    out
}

/// The number of white-space characters at the start of a text.
pub open spec fn leading_spaces(s: Seq<char>) -> int
    decreases s.len(),
{
    if s.len() > 0 && is_space(s[0]) {
        1 + leading_spaces(s.drop_first())
    } else {
        0
    }
}

/// The number of white-space characters at the end of a text.
pub open spec fn trailing_spaces(s: Seq<char>) -> int
    decreases s.len(),
{
    if s.len() > 0 && is_space(s.last()) {
        1 + trailing_spaces(s.drop_last())
    } else {
        0
    }
}

/// A text without the white space at its start and at its end.
pub open spec fn trimmed(s: Seq<char>) -> Seq<char> {
    let from = leading_spaces(s);
    let rest = s.skip(from);
    rest.take(rest.len() - trailing_spaces(rest))
}

/// The counts of leading and trailing white space are what they say: they
/// stay within the text, cover only white space and stop at the first
/// character that is none.
pub proof fn lemma_spaces(s: Seq<char>)
    ensures
        0 <= leading_spaces(s) <= s.len(),
        forall|j: int| 0 <= j < leading_spaces(s) ==> is_space(s[j]),
        leading_spaces(s) < s.len() ==> !is_space(s[leading_spaces(s)]),
        0 <= trailing_spaces(s) <= s.len(),
        forall|j: int| s.len() - trailing_spaces(s) <= j < s.len() ==> is_space(s[j]),
        trailing_spaces(s) < s.len() ==> !is_space(s[s.len() - trailing_spaces(s) - 1]),
    decreases s.len(),
{
    if s.len() > 0 {
        lemma_spaces(s.drop_first());
        lemma_spaces(s.drop_last());
        if is_space(s[0]) {
            let t = s.drop_first();
            assert forall|j: int| 0 <= j < leading_spaces(s) implies is_space(s[j]) by {
                if j > 0 {
                    assert(s[j] == t[j - 1]);
                }
            }
            if leading_spaces(s) < s.len() {
                assert(s[leading_spaces(s)] == t[leading_spaces(t)]);
            }
        }
        if is_space(s.last()) {
            let t = s.drop_last();
            assert forall|j: int| s.len() - trailing_spaces(s) <= j < s.len() implies is_space(
                s[j],
            ) by {
                if j < s.len() - 1 {
                    assert(s[j] == t[j]);
                }
            }
            if trailing_spaces(s) < s.len() {
                assert(s[s.len() - trailing_spaces(s) - 1] == t[t.len() - trailing_spaces(t) - 1]);
            }
        }
    }
}

/// Where nothing before `k` but white space stands and `k` is the end or
/// holds none, `k` is the count of leading white space.
pub proof fn lemma_leading_is(s: Seq<char>, k: int)
    requires
        0 <= k <= s.len(),
        forall|j: int| 0 <= j < k ==> is_space(s[j]),
        k < s.len() ==> !is_space(s[k]),
    ensures
        leading_spaces(s) == k,
{
    lemma_spaces(s);
    let n = leading_spaces(s);
    if n < k {
        assert(is_space(s[n]));
    } else if k < n {
        assert(is_space(s[k]));
    }
}

/// The same for the end of the text, counted from the back.
pub proof fn lemma_trailing_is(s: Seq<char>, k: int)
    requires
        0 <= k <= s.len(),
        forall|j: int| s.len() - k <= j < s.len() ==> is_space(s[j]),
        k < s.len() ==> !is_space(s[s.len() - k - 1]),
    ensures
        trailing_spaces(s) == k,
{
    lemma_spaces(s);
    let n = trailing_spaces(s);
    if n < k {
        assert(is_space(s[s.len() - n - 1]));
    } else if k < n {
        assert(is_space(s[s.len() - k - 1]));
    }
}

/// The text without white space at either end.
pub fn trim_chars(v: &Vec<char>) -> (out: Vec<char>)
    ensures
        out@ == trimmed(v@),
{
    let mut from: usize = 0;
    while from < v.len() && is_whitespace(v[from])
        invariant
            from <= v.len(),
            forall|j: int| 0 <= j < from ==> is_space(v@[j]),
        decreases v.len() - from,
    {
        from += 1;
    }
    let mut to: usize = v.len();
    while to > from && is_whitespace(v[to - 1])
        invariant
            from <= to <= v.len(),
            forall|j: int| to <= j < v.len() ==> is_space(v@[j]),
        decreases to,
    {
        to -= 1;
    }
    proof {
        lemma_leading_is(v@, from as int);
        let rest = v@.skip(from as int);
        lemma_trailing_is(rest, v.len() - to);
        assert(rest.take(rest.len() - (v.len() - to)) == v@.subrange(from as int, to as int));
    }
    slice_of(v, from, to)
}

/// A line without one carriage return at its end, if it has one.
pub open spec fn without_cr(line: Seq<char>) -> Seq<char> {
    if line.len() > 0 && line.last() == '\r' {
        line.drop_last()
    } else {
        line
    }
}

/// The lines of a text. A line ends with a line feed, or with a carriage
/// return and a line feed; the ending is not part of the line. The last line
/// need not have an ending, and what follows the last line feed is a line
/// only where it is not empty.
pub open spec fn lines(s: Seq<char>) -> Seq<Seq<char>> {
    let pieces = split_on(s, '\n');
    let closed = pieces.len() - 1;
    Seq::new(
        if pieces.last().len() == 0 {
            closed as nat
        } else {
            pieces.len()
        },
        |i: int|
            if i < closed {
                without_cr(pieces[i])
            } else {
                pieces[i]
            },
    )
}

/// The lines of a text.
pub fn split_lines(v: &Vec<char>) -> (out: Vec<Vec<char>>)
    ensures
        views(out@) == lines(v@),
{
    let pieces = split_chars(v, '\n');
    proof {
        lemma_split_join(v@, '\n');
    }
    let closed: usize = pieces.len() - 1;
    let mut out: Vec<Vec<char>> = Vec::new();
    let mut i: usize = 0;
    while i < closed
        invariant
            i <= closed,
            closed == pieces.len() - 1,
            views(pieces@) == split_on(v@, '\n'),
            out@.len() == i,
            forall|k: int| 0 <= k < i ==> out@[k]@ == without_cr(pieces@[k]@),
        decreases closed - i,
    {
        let piece = &pieces[i];
        let line = if piece.len() > 0 && piece[piece.len() - 1] == '\r' {
            slice_of(piece, 0, piece.len() - 1)
        } else {
            slice_of(piece, 0, piece.len())
        };
        assert(line@ == without_cr(piece@));
        out.push(line);
        i += 1;
    }
    let tail = &pieces[closed];
    if tail.len() > 0 {
        let line = slice_of(tail, 0, tail.len());
        assert(line@ == tail@);
        out.push(line);
    }
    proof {
        let want = lines(v@);
        assert(views(pieces@).last() == tail@);
        assert(views(out@).len() == want.len());
        assert forall|k: int| 0 <= k < want.len() implies views(out@)[k] == want[k] by {
            assert(views(pieces@)[k] == pieces@[k]@);
        }
        assert(views(out@) =~= want);
    }
    out
}

} // verus!
