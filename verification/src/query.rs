//! Query strings: percent-decoding and `key=value` fields.
//!
//! A query is a run of fields separated by `&`. A field is a key, and after
//! its first `=` a value; a field without `=` has the empty value, and a field
//! with an empty key is skipped. Keys and values are percent-decoded; an
//! escape that is cut short or is not hexadecimal stays as it is written.

use crate::ascii::{
    AMPERSAND, DIGIT_0, DIGIT_9, EQUALS, LOWER_A, LOWER_F, PERCENT, QUESTION, UPPER_A, UPPER_F,
};
use crate::bytes::{
    find_byte, first_index, lemma_first_index, lemma_first_index_is, lemma_split_on_append,
    lemma_split_on_single, split_on,
};
use crate::text::{
    ascii_bytes, lemma_ascii_bytes, lemma_ascii_concat, lemma_ascii_is_boundary,
    lemma_encode_concat, lemma_lossy_of_encoded, lossy_text, lossy_utf8,
};
use vstd::hash_map::StringHashMap;
use vstd::prelude::*;
use vstd::string::StringSliceAdditionalSpecFns;
use vstd::utf8::{encode_utf8, encode_utf8_decode_utf8, encode_utf8_valid_utf8, is_ascii_chars};

verus! {

/// The value of an ASCII hexadecimal digit, in either case.
pub open spec fn hex_value(c: u8) -> Option<u8> {
    if DIGIT_0 <= c <= DIGIT_9 {
        Some((c - DIGIT_0) as u8)
    } else if LOWER_A <= c <= LOWER_F {
        Some((10 + c - LOWER_A) as u8)
    } else if UPPER_A <= c <= UPPER_F {
        Some((10 + c - UPPER_A) as u8)
    } else {
        None
    }
}

/// Reads one hexadecimal digit.
pub fn hex(c: u8) -> (r: Option<u8>)
    ensures
        r == hex_value(c),
        r matches Some(v) ==> v < 16,
{
    if DIGIT_0 <= c && c <= DIGIT_9 {
        Some(c - DIGIT_0)
    } else if LOWER_A <= c && c <= LOWER_F {
        Some(10 + (c - LOWER_A))
    } else if UPPER_A <= c && c <= UPPER_F {
        Some(10 + (c - UPPER_A))
    } else {
        None
    }
}

/// The byte that `s` begins with an escape for: `%` and two hexadecimal
/// digits, the first of which counts sixteenfold.
pub open spec fn escaped_byte(s: Seq<u8>) -> Option<u8> {
    if s.len() >= 3 && s[0] == PERCENT && hex_value(s[1]) is Some && hex_value(s[2]) is Some {
        Some((hex_value(s[1])->0 * 16 + hex_value(s[2])->0) as u8)
    } else {
        None
    }
}

/// `s` with every escape replaced by the byte it stands for, read from the
/// left. What is not an escape is kept.
pub open spec fn percent_decoded(s: Seq<u8>) -> Seq<u8>
    decreases s.len(),
{
    if s.len() == 0 {
        Seq::empty()
    } else if escaped_byte(s) is Some {
        seq![escaped_byte(s)->0] + percent_decoded(s.subrange(3, s.len() as int))
    } else {
        seq![s[0]] + percent_decoded(s.drop_first())
    }
}

/// Percent-decodes bytes.
pub fn percent_decode_bytes(bytes: &[u8]) -> (out: Vec<u8>)
    ensures
        out@ == percent_decoded(bytes@),
{
    let n = bytes.len();
    let mut out: Vec<u8> = Vec::with_capacity(n);
    let mut i: usize = 0;
    assert(bytes@.subrange(0, n as int) == bytes@);
    while i < n
        invariant
            n == bytes@.len(),
            i <= n,
            out@ + percent_decoded(bytes@.subrange(i as int, n as int)) == percent_decoded(bytes@),
        decreases n - i,
    {
        let ghost rest = bytes@.subrange(i as int, n as int);
        let mut escape: Option<u8> = None;
        if bytes[i] == PERCENT && n - i > 2 {
            let high = hex(bytes[i + 1]);
            let low = hex(bytes[i + 2]);
            if let (Some(a), Some(b)) = (high, low) {
                assert((a << 4) | b == a * 16 + b) by (bit_vector)
                    requires
                        a < 16,
                        b < 16,
                ;
                escape = Some((a << 4) | b);
            }
        }
        assert(escape == escaped_byte(rest));
        match escape {
            Some(byte) => {
                assert(rest.subrange(3, rest.len() as int) == bytes@.subrange(
                    i + 3,
                    n as int,
                ));
                assert(out@.push(byte) + percent_decoded(rest.subrange(3, rest.len() as int))
                    == out@ + percent_decoded(rest));
                out.push(byte);
                i += 3;
            },
            None => {
                assert(rest.drop_first() == bytes@.subrange(i + 1, n as int));
                assert(out@.push(rest[0]) + percent_decoded(rest.drop_first()) == out@
                    + percent_decoded(rest));
                out.push(bytes[i]);
                i += 1;
            },
        }
    }
    assert(bytes@.subrange(n as int, n as int) == Seq::<u8>::empty());
    out
}

/// The text that a raw key or value stands for.
pub open spec fn decoded_text(raw: Seq<u8>) -> Seq<char> {
    lossy_utf8(percent_decoded(raw))
}

/// Percent-decodes a text. The decoded bytes are read as UTF-8, lossily.
pub fn percent_decode(s: &str) -> (r: String)
    ensures
        r@ == decoded_text(encode_utf8(s@)),
{
    let out = percent_decode_bytes(s.as_bytes());
    lossy_text(out.as_slice())
}

/// The path of a request target: what stands before its first `?`.
pub open spec fn path_part(target: Seq<u8>) -> Seq<u8> {
    target.subrange(0, first_index(target, QUESTION))
}

/// The query of a request target: what follows its first `?`, if it has one.
pub open spec fn query_part(target: Seq<u8>) -> Option<Seq<u8>> {
    let i = first_index(target, QUESTION);
    if i < target.len() {
        Some(target.subrange(i + 1, target.len() as int))
    } else {
        None
    }
}

/// Cuts a request target at its first `?` into path and query. The mark
/// itself belongs to neither: a target with a query is its path, the mark
/// and its query in a row.
pub fn split_path_and_query(path_q: &str) -> (r: (String, Option<String>))
    ensures
        encode_utf8(r.0@) == path_part(encode_utf8(path_q@)),
        match r.1 {
            Some(q) => query_part(encode_utf8(path_q@)) == Some(encode_utf8(q@)) && path_q@
                == r.0@ + seq!['?'] + q@,
            None => query_part(encode_utf8(path_q@)) is None && path_q@ == r.0@,
        },
{
    let bytes = path_q.as_bytes();
    let at = find_byte(bytes, 0, QUESTION);
    proof {
        assert(bytes@.subrange(0, bytes@.len() as int) == bytes@);
        lemma_first_index(bytes@, QUESTION);
    }
    if at < bytes.len() {
        proof {
            encode_utf8_valid_utf8(path_q@);
            lemma_ascii_is_boundary(bytes@, at as int);
        }
        let (head, rest) = path_q.split_at(at);
        let (_mark, tail) = rest.split_at(1);
        assert(tail.spec_bytes() == bytes@.subrange(at + 1, bytes@.len() as int));
        proof {
            let mark = seq!['?'];
            let joined = head@ + mark + tail@;
            lemma_ascii_bytes(mark);
            assert(ascii_bytes(mark) == seq![QUESTION]);
            lemma_encode_concat(head@, mark);
            lemma_encode_concat(head@ + mark, tail@);
            assert(encode_utf8(joined) == bytes@);
            encode_utf8_decode_utf8(joined);
            encode_utf8_decode_utf8(path_q@);
        }
        (head.to_owned(), Some(tail.to_owned()))
    } else {
        (path_q.to_owned(), None)
    }
}

/// The raw key of a field: what stands before its first `=`.
pub open spec fn field_key(field: Seq<u8>) -> Seq<u8> {
    field.subrange(0, first_index(field, EQUALS))
}

/// The raw value of a field: what follows its first `=`, or nothing.
pub open spec fn field_value(field: Seq<u8>) -> Seq<u8> {
    let i = first_index(field, EQUALS);
    if i < field.len() {
        field.subrange(i + 1, field.len() as int)
    } else {
        Seq::empty()
    }
}

/// The parameters that a run of fields sets, a later field replacing an
/// earlier one with the same decoded key.
pub open spec fn fields_map(fields: Seq<Seq<u8>>) -> Map<Seq<char>, Seq<char>>
    decreases fields.len(),
{
    if fields.len() == 0 {
        Map::empty()
    } else {
        let before = fields_map(fields.drop_last());
        let field = fields.last();
        if field_key(field).len() > 0 {
            before.insert(decoded_text(field_key(field)), decoded_text(field_value(field)))
        } else {
            before
        }
    }
}

/// The parameters that a query sets.
pub open spec fn query_map(query: Seq<u8>) -> Map<Seq<char>, Seq<char>> {
    fields_map(split_on(query, AMPERSAND))
}

/// What a parameter table holds, as texts.
pub open spec fn params_view(params: StringHashMap<String>) -> Map<Seq<char>, Seq<char>> {
    params@.map_values(|value: String| value@)
}

/// Reads the parameters of a query, or of a form body.
pub fn parse_query_params(qs: String) -> (params: StringHashMap<String>)
    ensures
        params_view(params) == query_map(encode_utf8(qs@)),
{
    let bytes = qs.as_str().as_bytes();
    let n = bytes.len();
    let mut params: StringHashMap<String> = StringHashMap::new();
    let mut start: usize = 0;
    let mut more = true;
    let ghost mut done: Seq<Seq<u8>> = Seq::empty();
    proof {
        assert(bytes@.subrange(0, n as int) == bytes@);
        assert(params_view(params) == fields_map(done));
    }
    while more
        invariant
            n == bytes@.len(),
            start <= n,
            more ==> done + split_on(bytes@.subrange(start as int, n as int), AMPERSAND)
                == split_on(bytes@, AMPERSAND),
            !more ==> done == split_on(bytes@, AMPERSAND),
            params_view(params) == fields_map(done),
        decreases n - start + (if more { 1int } else { 0int }),
    {
        let ghost rest = bytes@.subrange(start as int, n as int);
        let end = find_byte(bytes, start, AMPERSAND);
        let field = vstd::slice::slice_subrange(bytes, start, end);
        let cut = find_byte(field, 0, EQUALS);
        proof {
            lemma_first_index(rest, AMPERSAND);
            assert(field@ == rest.subrange(0, end - start));
            assert(field@.subrange(0, field@.len() as int) == field@);
            lemma_first_index(field@, EQUALS);
            assert(done.push(field@).drop_last() == done);
        }
        if cut > 0 {
            let raw_key = vstd::slice::slice_subrange(field, 0, cut);
            let key = lossy_text(percent_decode_bytes(raw_key).as_slice());
            let value = if cut < field.len() {
                let raw_value = vstd::slice::slice_subrange(field, cut + 1, field.len());
                lossy_text(percent_decode_bytes(raw_value).as_slice())
            } else {
                String::new()
            };
            proof {
                assert(percent_decoded(Seq::<u8>::empty()) == Seq::<u8>::empty());
                lemma_lossy_of_nothing();
                assert(key@ == decoded_text(field_key(field@)));
                assert(value@ == decoded_text(field_value(field@)));
                assert(params@.insert(key@, value).map_values(|value: String| value@)
                    == params_view(params).insert(key@, value@));
            }
            params.insert(key, value);
        }
        proof {
            assert(params_view(params) == fields_map(done.push(field@)));
        }
        if end < n {
            proof {
                assert(rest.subrange(end - start + 1, rest.len() as int) == bytes@.subrange(
                    end + 1,
                    n as int,
                ));
                assert(done.push(field@) + split_on(bytes@.subrange(end + 1, n as int), AMPERSAND)
                    == done + split_on(rest, AMPERSAND));
                done = done.push(field@);
            }
            start = end + 1;
        } else {
            proof {
                assert(field@ == rest);
                assert(done.push(field@) == done + split_on(rest, AMPERSAND));
                done = done.push(field@);
            }
            more = false;
        }
    }
    params
}

/// Nothing decodes to the empty text.
proof fn lemma_lossy_of_nothing()
    ensures
        lossy_utf8(Seq::<u8>::empty()) == Seq::<char>::empty(),
{
    lemma_lossy_of_encoded(Seq::<char>::empty());
    assert(encode_utf8(Seq::<char>::empty()) == Seq::<u8>::empty());
}

/// Bytes without a `%` decode to themselves.
pub proof fn lemma_percent_decoded_plain(s: Seq<u8>)
    requires
        forall|j: int| 0 <= j < s.len() ==> s[j] != PERCENT,
    ensures
        percent_decoded(s) == s,
    decreases s.len(),
{
    if s.len() > 0 {
        let rest = s.drop_first();
        assert(s[0] != PERCENT);
        assert forall|j: int| 0 <= j < rest.len() implies rest[j] != PERCENT by {
            assert(rest[j] == s[j + 1]);
        }
        lemma_percent_decoded_plain(rest);
        assert(seq![s[0]] + rest == s);
    }
}

/// A text that is already decoded: ASCII without `%`, `&` or `=`.
pub open spec fn is_plain(text: Seq<char>) -> bool {
    is_ascii_chars(text) && forall|j: int|
        0 <= j < text.len() ==> #[trigger] text[j] != '%' && text[j] != '&' && text[j] != '='
}

/// The bytes of a plain text hold none of the three marks.
proof fn lemma_plain_bytes(text: Seq<char>)
    requires
        is_plain(text),
    ensures
        encode_utf8(text).len() == text.len(),
        forall|j: int|
            0 <= j < encode_utf8(text).len() ==> encode_utf8(text)[j] != PERCENT && encode_utf8(
                text,
            )[j] != AMPERSAND && encode_utf8(text)[j] != EQUALS,
{
    lemma_ascii_bytes(text);
    let bytes = encode_utf8(text);
    assert forall|j: int| 0 <= j < bytes.len() implies bytes[j] != PERCENT && bytes[j]
        != AMPERSAND && bytes[j] != EQUALS by {
        let c = text[j];
        assert(bytes[j] == c as u8);
        assert('\0' <= c <= '\u{7f}');
        assert(c != '%' && c != '&' && c != '=');
    }
}

/// Decoding leaves a plain text as it is: on what is already decoded,
/// decoding once more changes nothing.
pub proof fn lemma_decoding_keeps_plain_text(text: Seq<char>)
    requires
        is_plain(text),
    ensures
        decoded_text(encode_utf8(text)) == text,
{
    lemma_plain_bytes(text);
    lemma_percent_decoded_plain(encode_utf8(text));
    lemma_lossy_of_encoded(text);
}

/// The field that sets `key` to `value`.
pub open spec fn field_text(key: Seq<char>, value: Seq<char>) -> Seq<char> {
    key + seq!['='] + value
}

/// The query that sets the given parameters, one after the other.
pub open spec fn query_text(pairs: Seq<(Seq<char>, Seq<char>)>) -> Seq<char>
    decreases pairs.len(),
{
    if pairs.len() == 0 {
        Seq::empty()
    } else if pairs.len() == 1 {
        field_text(pairs[0].0, pairs[0].1)
    } else {
        query_text(pairs.drop_last()) + seq!['&'] + field_text(pairs.last().0, pairs.last().1)
    }
}

/// The parameters that a list of pairs sets, a later pair replacing an
/// earlier one with the same key.
pub open spec fn pairs_map(pairs: Seq<(Seq<char>, Seq<char>)>) -> Map<Seq<char>, Seq<char>>
    decreases pairs.len(),
{
    if pairs.len() == 0 {
        Map::empty()
    } else {
        pairs_map(pairs.drop_last()).insert(pairs.last().0, pairs.last().1)
    }
}

/// Whether every pair has a plain value and a plain key that is not empty.
pub open spec fn all_plain(pairs: Seq<(Seq<char>, Seq<char>)>) -> bool {
    forall|i: int|
        0 <= i < pairs.len() ==> is_plain((#[trigger] pairs[i]).0) && pairs[i].0.len() > 0
            && is_plain(pairs[i].1)
}

/// The bytes of a field of plain texts, and what the field sets.
proof fn lemma_plain_field(key: Seq<char>, value: Seq<char>)
    requires
        is_plain(key),
        is_plain(value),
    ensures
        is_ascii_chars(field_text(key, value)),
        encode_utf8(field_text(key, value)) == encode_utf8(key) + seq![EQUALS] + encode_utf8(
            value,
        ),
        forall|j: int|
            0 <= j < encode_utf8(field_text(key, value)).len() ==> encode_utf8(
                field_text(key, value),
            )[j] != AMPERSAND,
        field_key(encode_utf8(field_text(key, value))) == encode_utf8(key),
        field_value(encode_utf8(field_text(key, value))) == encode_utf8(value),
{
    let mark = seq!['='];
    assert(is_ascii_chars(mark));
    lemma_ascii_bytes(mark);
    assert(ascii_bytes(mark) == seq![EQUALS]);
    lemma_ascii_concat(key, mark);
    lemma_ascii_concat(key + mark, value);
    lemma_plain_bytes(key);
    lemma_plain_bytes(value);
    let kb = encode_utf8(key);
    let vb = encode_utf8(value);
    let field = kb + seq![EQUALS] + vb;
    lemma_first_index_is(field, EQUALS, kb.len() as int);
    assert(field.subrange(0, kb.len() as int) == kb);
    assert(field.subrange(kb.len() as int + 1, field.len() as int) == vb);
    assert forall|j: int| 0 <= j < field.len() implies field[j] != AMPERSAND by {
        if j < kb.len() {
            assert(field[j] == kb[j]);
        } else if j > kb.len() {
            assert(field[j] == vb[j - kb.len() - 1]);
        }
    }
}

/// Writing parameters out and reading them back gives the same
/// parameters: a query made of plain keys and values, with `=` between key
/// and value and `&` between fields, sets exactly those parameters.
pub proof fn lemma_query_round_trip(pairs: Seq<(Seq<char>, Seq<char>)>)
    requires
        all_plain(pairs),
    ensures
        is_ascii_chars(query_text(pairs)),
        query_map(encode_utf8(query_text(pairs))) == pairs_map(pairs),
    decreases pairs.len(),
{
    if pairs.len() == 0 {
        let nothing = Seq::<char>::empty();
        assert(encode_utf8(nothing) == Seq::<u8>::empty());
        lemma_split_on_single(Seq::<u8>::empty(), AMPERSAND);
        lemma_first_index(Seq::<u8>::empty(), EQUALS);
        let fields = seq![Seq::<u8>::empty()];
        assert(fields.drop_last() == Seq::<Seq<u8>>::empty());
        assert(fields_map(fields.drop_last()) == Map::<Seq<char>, Seq<char>>::empty());
        assert(fields.last() == Seq::<u8>::empty());
        assert(field_key(fields.last()).len() == 0);
        assert(fields_map(fields) == Map::<Seq<char>, Seq<char>>::empty());
    } else {
        let key = pairs.last().0;
        let value = pairs.last().1;
        assert(is_plain(key) && key.len() > 0 && is_plain(value));
        lemma_plain_field(key, value);
        lemma_plain_bytes(key);
        lemma_decoding_keeps_plain_text(key);
        lemma_decoding_keeps_plain_text(value);
        let field = encode_utf8(field_text(key, value));
        if pairs.len() == 1 {
            lemma_split_on_single(field, AMPERSAND);
            let fields = seq![field];
            assert(fields.drop_last() == Seq::<Seq<u8>>::empty());
            assert(fields_map(fields.drop_last()) == Map::<Seq<char>, Seq<char>>::empty());
            assert(pairs.drop_last() == Seq::<(Seq<char>, Seq<char>)>::empty());
            assert(pairs_map(pairs.drop_last()) == Map::<Seq<char>, Seq<char>>::empty());
        } else {
            let before = pairs.drop_last();
            assert(all_plain(before)) by {
                assert forall|i: int| 0 <= i < before.len() implies is_plain(
                    (#[trigger] before[i]).0,
                ) && before[i].0.len() > 0 && is_plain(before[i].1) by {
                    assert(before[i] == pairs[i]);
                }
            }
            lemma_query_round_trip(before);
            let mark = seq!['&'];
            assert(is_ascii_chars(mark));
            lemma_ascii_bytes(mark);
            assert(ascii_bytes(mark) == seq![AMPERSAND]);
            lemma_ascii_concat(query_text(before), mark);
            lemma_ascii_concat(query_text(before) + mark, field_text(key, value));
            let front = encode_utf8(query_text(before));
            lemma_split_on_append(front, field, AMPERSAND);
            let fields = split_on(front, AMPERSAND).push(field);
            assert(fields.drop_last() == split_on(front, AMPERSAND));
        }
    }
}

} // verus!
