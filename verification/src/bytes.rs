//! Searching and splitting bytes.

use vstd::prelude::*;

verus! {

/// The position of the first `b` in `s`, or the length of `s` if there is none.
pub open spec fn first_index(s: Seq<u8>, b: u8) -> int
    decreases s.len(),
{
    if s.len() == 0 {
        0
    } else if s[0] == b {
        0
    } else {
        1 + first_index(s.drop_first(), b)
    }
}

/// `first_index` is in range, points at a `b`, and nothing before it is a `b`.
pub proof fn lemma_first_index(s: Seq<u8>, b: u8)
    ensures
        0 <= first_index(s, b) <= s.len(),
        first_index(s, b) < s.len() ==> s[first_index(s, b)] == b,
        forall|j: int| 0 <= j < first_index(s, b) ==> s[j] != b,
    decreases s.len(),
{
    if s.len() > 0 && s[0] != b {
        let rest = s.drop_first();
        lemma_first_index(rest, b);
        assert forall|j: int| 0 <= j < first_index(s, b) implies s[j] != b by {
            if j > 0 {
                assert(s[j] == rest[j - 1]);
            }
        }
    }
}

/// The position that has no `b` before it and is either the end or a `b` is
/// the one `first_index` names.
pub proof fn lemma_first_index_is(s: Seq<u8>, b: u8, i: int)
    requires
        0 <= i <= s.len(),
        i < s.len() ==> s[i] == b,
        forall|j: int| 0 <= j < i ==> s[j] != b,
    ensures
        first_index(s, b) == i,
{
    lemma_first_index(s, b);
    let f = first_index(s, b);
    if f < i {
        assert(s[f] == b);
    } else if i < f {
        assert(s[i] == b);
    }
}

/// Looks for the first `b` at or after `from`.
pub(crate) fn find_byte(bytes: &[u8], from: usize, b: u8) -> (at: usize)
    requires
        from <= bytes@.len(),
    ensures
        from <= at <= bytes@.len(),
        at == from + first_index(bytes@.subrange(from as int, bytes@.len() as int), b),
{
    let mut at = from;
    while at < bytes.len() && bytes[at] != b
        invariant
            from <= at <= bytes@.len(),
            forall|j: int| from <= j < at ==> bytes@[j] != b,
        decreases bytes@.len() - at,
    {
        at += 1;
    }
    proof {
        let rest = bytes@.subrange(from as int, bytes@.len() as int);
        lemma_first_index_is(rest, b, at - from);
    }
    at
}

/// The pieces of `s` between occurrences of `sep`, in order. There is always
/// at least one piece, and a piece may be empty.
pub open spec fn split_on(s: Seq<u8>, sep: u8) -> Seq<Seq<u8>>
    decreases s.len(),
{
    let i = first_index(s, sep);
    if 0 <= i < s.len() {
        seq![s.subrange(0, i)] + split_on(s.subrange(i + 1, s.len() as int), sep)
    } else {
        seq![s]
    }
}

/// Splitting gives at least one field.
pub proof fn lemma_split_on_some(s: Seq<u8>, sep: u8)
    ensures
        split_on(s, sep).len() >= 1,
    decreases s.len(),
{
    let i = first_index(s, sep);
    if 0 <= i < s.len() {
        lemma_split_on_some(s.subrange(i + 1, s.len() as int), sep);
    }
}

/// Where the first separator stands, splitting takes the field before it
/// and goes on behind it.
pub proof fn lemma_split_on_step(s: Seq<u8>, sep: u8, from: int, at: int)
    requires
        0 <= from <= at <= s.len(),
        at == from + first_index(s.subrange(from, s.len() as int), sep),
    ensures
        at < s.len() ==> split_on(s.subrange(from, s.len() as int), sep) == seq![
            s.subrange(from, at),
        ] + split_on(s.subrange(at + 1, s.len() as int), sep),
        at == s.len() ==> split_on(s.subrange(from, s.len() as int), sep) == seq![
            s.subrange(from, at),
        ],
{
    let rest = s.subrange(from, s.len() as int);
    lemma_first_index(rest, sep);
    if at < s.len() {
        assert(rest.subrange(0, at - from) == s.subrange(from, at));
        assert(rest.subrange(at - from + 1, rest.len() as int) == s.subrange(
            at + 1,
            s.len() as int,
        ));
    } else {
        assert(rest == s.subrange(from, at));
    }
}

/// A piece without the separator is a field of its own.
pub proof fn lemma_split_on_single(piece: Seq<u8>, sep: u8)
    requires
        forall|j: int| 0 <= j < piece.len() ==> piece[j] != sep,
    ensures
        first_index(piece, sep) == piece.len(),
        split_on(piece, sep) == seq![piece],
{
    lemma_first_index_is(piece, sep, piece.len() as int);
}

/// A piece without the separator, followed by the separator, is the first
/// field of what it begins.
pub proof fn lemma_split_on_concat(piece: Seq<u8>, rest: Seq<u8>, sep: u8)
    requires
        forall|j: int| 0 <= j < piece.len() ==> piece[j] != sep,
    ensures
        first_index(piece + seq![sep] + rest, sep) == piece.len(),
        split_on(piece + seq![sep] + rest, sep) == seq![piece] + split_on(rest, sep),
{
    let whole = piece + seq![sep] + rest;
    lemma_first_index_is(whole, sep, piece.len() as int);
    assert(whole.subrange(0, piece.len() as int) == piece);
    assert(whole.subrange(piece.len() as int + 1, whole.len() as int) == rest);
}

/// A piece without the separator, behind a separator, is the last field of
/// what it ends.
pub proof fn lemma_split_on_append(front: Seq<u8>, piece: Seq<u8>, sep: u8)
    requires
        forall|j: int| 0 <= j < piece.len() ==> piece[j] != sep,
    ensures
        split_on(front + seq![sep] + piece, sep) == split_on(front, sep).push(piece),
    decreases front.len(),
{
    let whole = front + seq![sep] + piece;
    lemma_first_index(front, sep);
    let i = first_index(front, sep);
    if i < front.len() {
        let rest = front.subrange(i + 1, front.len() as int);
        lemma_first_index_is(whole, sep, i);
        assert(whole.subrange(0, i) == front.subrange(0, i));
        assert(whole.subrange(i + 1, whole.len() as int) == rest + seq![sep] + piece);
        lemma_split_on_append(rest, piece, sep);
        assert(seq![front.subrange(0, i)] + split_on(rest, sep).push(piece) =~= (seq![
            front.subrange(0, i),
        ] + split_on(rest, sep)).push(piece));
    } else {
        lemma_split_on_concat(front, piece, sep);
        lemma_split_on_single(piece, sep);
        lemma_split_on_single(front, sep);
        assert(seq![front] + seq![piece] =~= seq![front].push(piece));
    }
}

/// Whether `s` begins with `prefix`.
pub open spec fn has_prefix(s: Seq<u8>, prefix: Seq<u8>) -> bool {
    prefix.len() <= s.len() && s.subrange(0, prefix.len() as int) == prefix
}

/// What follows `prefix` in `s`, if `s` begins with it.
pub open spec fn strip_prefix(s: Seq<u8>, prefix: Seq<u8>) -> Option<Seq<u8>> {
    if has_prefix(s, prefix) {
        Some(s.skip(prefix.len() as int))
    } else {
        None
    }
}

} // verus!
