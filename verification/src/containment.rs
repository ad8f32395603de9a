//! Why a resolved path cannot leave its base by the text of the request
//! alone: the laws behind [`crate::path::candidate_path`].

use crate::path::{
    candidate, child_path, components, is_plain, is_rooted, keeps, plain_segments, sanitized,
    within, RootPolicy,
};
use crate::text::{index_of, join, lemma_index_of, lemma_index_of_is, split_on};
use vstd::prelude::*;

verus! {

/// A text without the separator is its own single piece.
pub proof fn lemma_split_whole(s: Seq<char>, sep: char)
    requires
        forall|j: int| 0 <= j < s.len() ==> s[j] != sep,
    ensures
        split_on(s, sep) == seq![s],
{
    lemma_index_of_is(s, sep, s.len() as int);
}

/// Splitting two texts joined by one separator gives the pieces of the first
/// followed by the pieces of the second.
pub proof fn lemma_split_concat(a: Seq<char>, b: Seq<char>, sep: char)
    ensures
        split_on(a + seq![sep] + b, sep) == split_on(a, sep) + split_on(b, sep),
    decreases a.len(),
{
    let whole = a + seq![sep] + b;
    lemma_index_of(a, sep);
    let i = index_of(a, sep);
    if 0 <= i < a.len() {
        lemma_index_of_is(whole, sep, i);
        assert(whole.take(i) == a.take(i));
        assert(whole.skip(i + 1) == a.skip(i + 1) + seq![sep] + b);
        lemma_split_concat(a.skip(i + 1), b, sep);
        assert(split_on(whole, sep) == seq![a.take(i)] + (split_on(a.skip(i + 1), sep) + split_on(
            b,
            sep,
        )));
        assert(split_on(a, sep) == seq![a.take(i)] + split_on(a.skip(i + 1), sep));
    } else {
        lemma_index_of_is(whole, sep, a.len() as int);
        assert(whole.take(a.len() as int) == a);
        assert(whole.skip(a.len() as int + 1) == b);
        assert(split_on(a, sep) == seq![a]);
    }
}

/// Pieces that hold no separator come back unchanged when their join is split.
pub proof fn lemma_split_of_join(segs: Seq<Seq<char>>, sep: char)
    requires
        segs.len() >= 1,
        forall|k: int, j: int| 0 <= k < segs.len() && 0 <= j < segs[k].len() ==> segs[k][j] != sep,
    ensures
        split_on(join(segs, seq![sep]), sep) == segs,
    decreases segs.len(),
{
    if segs.len() == 1 {
        lemma_split_whole(segs[0], sep);
        assert(segs == seq![segs[0]]);
    } else {
        let front = segs.drop_last();
        assert forall|k: int, j: int|
            0 <= k < front.len() && 0 <= j < front[k].len() implies front[k][j] != sep by {
            assert(front[k] == segs[k]);
        }
        lemma_split_of_join(front, sep);
        lemma_split_concat(join(front, seq![sep]), segs.last(), sep);
        lemma_split_whole(segs.last(), sep);
        assert(front + seq![segs.last()] == segs);
    }
}

/// Whatever a filter keeps was there before.
pub proof fn lemma_kept_was_there(s: Seq<Seq<char>>, plain_only: bool, i: int)
    requires
        0 <= i < s.filter(keeps(plain_only)).len(),
    ensures
        exists|j: int| 0 <= j < s.len() && s[j] == s.filter(keeps(plain_only))[i],
        keeps(plain_only)(s.filter(keeps(plain_only))[i]),
    decreases s.len(),
{
    reveal(Seq::filter);
    if s.len() > 0 {
        let front = s.drop_last();
        let kept = front.filter(keeps(plain_only));
        if i < kept.len() {
            lemma_kept_was_there(front, plain_only, i);
            let j = choose|j: int| 0 <= j < front.len() && front[j] == kept[i];
            assert(s[j] == front[j]);
        } else {
            assert(s[s.len() - 1] == s.last());
        }
    }
}

/// A filter that accepts every element changes nothing.
pub proof fn lemma_keep_all(s: Seq<Seq<char>>, plain_only: bool)
    requires
        forall|i: int| 0 <= i < s.len() ==> keeps(plain_only)(s[i]),
    ensures
        s.filter(keeps(plain_only)) == s,
    decreases s.len(),
{
    reveal(Seq::filter);
    if s.len() > 0 {
        let front = s.drop_last();
        assert forall|i: int| 0 <= i < front.len() implies keeps(plain_only)(front[i]) by {
            assert(front[i] == s[i]);
        }
        lemma_keep_all(front, plain_only);
        assert(keeps(plain_only)(s[s.len() - 1]));
        assert(front.push(s.last()) == s);
    }
}

/// An empty piece is never kept.
pub proof fn lemma_empty_piece_dropped(plain_only: bool)
    ensures
        seq![Seq::<char>::empty()].filter(keeps(plain_only)) == Seq::<Seq<char>>::empty(),
{
    reveal_with_fuel(Seq::filter, 2);
    let one = seq![Seq::<char>::empty()];
    assert(one.drop_last() == Seq::<Seq<char>>::empty());
    assert(one.last() == Seq::<char>::empty());
    assert(!keeps(plain_only)(one.last()));
    assert(one.drop_last().filter(keeps(plain_only)) == Seq::<Seq<char>>::empty());
}

/// Each plain segment of a path is plain and holds no `/`.
pub proof fn lemma_plain_segments_clean(path: Seq<char>)
    ensures
        forall|k: int|
            0 <= k < plain_segments(path).len() ==> is_plain(#[trigger] plain_segments(path)[k]),
        forall|k: int, j: int|
            0 <= k < plain_segments(path).len() && 0 <= j < plain_segments(path)[k].len()
                ==> plain_segments(path)[k][j] != '/',
{
    let pieces = split_on(path, '/');
    let segs = plain_segments(path);
    crate::text::lemma_split_join(path, '/');
    assert forall|k: int| 0 <= k < segs.len() implies is_plain(#[trigger] segs[k]) && (forall|
        j: int,
    | 0 <= j < segs[k].len() ==> segs[k][j] != '/') by {
        lemma_kept_was_there(pieces, true, k);
        let i = choose|i: int| 0 <= i < pieces.len() && pieces[i] == segs[k];
        assert forall|j: int| 0 <= j < segs[k].len() implies segs[k][j] != '/' by {
            assert(pieces[i][j] != '/');
        }
    }
}

/// A join begins with its first piece.
pub proof fn lemma_join_begins(segs: Seq<Seq<char>>, sep: Seq<char>)
    requires
        segs.len() >= 1,
    ensures
        segs[0].len() <= join(segs, sep).len(),
        join(segs, sep).take(segs[0].len() as int) == segs[0],
    decreases segs.len(),
{
    if segs.len() == 1 {
        assert(join(segs, sep).take(segs[0].len() as int) == segs[0]);
    } else {
        let front = segs.drop_last();
        lemma_join_begins(front, sep);
        assert(front[0] == segs[0]);
        let whole = join(front, sep) + sep + segs.last();
        assert(whole.take(segs[0].len() as int) == join(front, sep).take(segs[0].len() as int));
    }
}

/// A sanitized path is relative: it does not start with `/`.
pub proof fn lemma_sanitized_is_relative(path: Seq<char>)
    ensures
        !is_rooted(sanitized(path)),
        sanitized(path).len() == 0 <==> plain_segments(path).len() == 0,
{
    let segs = plain_segments(path);
    if segs.len() > 0 {
        lemma_plain_segments_clean(path);
        lemma_join_begins(segs, seq!['/']);
        assert(is_plain(segs[0]));
        let rel = join(segs, seq!['/']);
        assert(rel.take(segs[0].len() as int)[0] == segs[0][0]);
    }
}

/// Sanitizing leaves exactly the plain segments: a sanitized path has them as
/// its components, and sanitizing it again changes nothing.
pub proof fn lemma_sanitized_components(path: Seq<char>)
    ensures
        components(sanitized(path)) == plain_segments(path),
        plain_segments(sanitized(path)) == plain_segments(path),
        sanitized(sanitized(path)) == sanitized(path),
{
    reveal(Seq::filter);
    let segs = plain_segments(path);
    lemma_plain_segments_clean(path);
    if segs.len() == 0 {
        assert(sanitized(path) == Seq::<char>::empty());
        lemma_split_whole(Seq::<char>::empty(), '/');
        lemma_empty_piece_dropped(false);
        lemma_empty_piece_dropped(true);
    } else {
        lemma_split_of_join(segs, '/');
        assert forall|i: int| 0 <= i < segs.len() implies keeps(false)(segs[i]) && keeps(true)(
            segs[i],
        ) by {
            assert(is_plain(segs[i]));
        }
        lemma_keep_all(segs, false);
        lemma_keep_all(segs, true);
    }
}

/// Appending a sanitized request below a base adds plain segments to the
/// base's components and nothing else: no `..` can appear, and the result is
/// rooted exactly when the base is.
pub proof fn lemma_child_components(base: Seq<char>, request: Seq<char>)
    ensures
        components(child_path(base, sanitized(request))) == components(base) + plain_segments(
            request,
        ),
        is_rooted(child_path(base, sanitized(request))) == is_rooted(base),
{
    reveal(Seq::filter);
    let rel = sanitized(request);
    let segs = plain_segments(request);
    lemma_sanitized_is_relative(request);
    lemma_sanitized_components(request);
    let empty_piece = seq![Seq::<char>::empty()];
    lemma_empty_piece_dropped(false);
    if rel.len() == 0 {
        assert(components(base) + segs == components(base));
    } else if base.len() == 0 {
        assert(base == Seq::<char>::empty());
        lemma_split_whole(base, '/');
        assert(split_on(base, '/') == empty_piece);
        assert(components(base) + segs == segs);
    } else if base.last() == '/' {
        let stem = base.drop_last();
        assert(base == stem + seq!['/'] + Seq::<char>::empty());
        assert(base + rel == stem + seq!['/'] + rel);
        lemma_split_concat(stem, Seq::<char>::empty(), '/');
        lemma_split_concat(stem, rel, '/');
        lemma_split_whole(Seq::<char>::empty(), '/');
        Seq::filter_distributes_over_add(
            split_on(stem, '/'),
            empty_piece,
            keeps(false),
        );
        Seq::filter_distributes_over_add(
            split_on(stem, '/'),
            split_on(rel, '/'),
            keeps(false),
        );
        assert(components(base) == split_on(stem, '/').filter(keeps(false)));
    } else {
        lemma_split_concat(base, rel, '/');
        Seq::filter_distributes_over_add(
            split_on(base, '/'),
            split_on(rel, '/'),
            keeps(false),
        );
    }
}

/// No request can name, by its text alone, a path outside the base: whenever
/// the request is not taken verbatim, the candidate lies within the base.
pub proof fn lemma_candidate_within_base(
    base: Seq<char>,
    input: Option<Seq<char>>,
    policy: RootPolicy,
)
    requires
        policy == RootPolicy::FixedRoot || input is None || !is_rooted(input->0),
    ensures
        within(candidate(base, input, policy), base),
{
    let c = candidate(base, input, policy);
    assert(components(base).subrange(0, components(base).len() as int) == components(base));
    if c != base {
        let request = input->0;
        lemma_child_components(base, request);
        let cb = components(base);
        assert((cb + plain_segments(request)).subrange(0, cb.len() as int) == cb);
    }
}

} // verus!
