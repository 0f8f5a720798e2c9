//! Character sequences: finding a separator, splitting on it and joining again.
//!
//! Host names and paths are both lists of pieces around a separator. The
//! functions here give that reading once, as `split`, together with the facts
//! that make it the inverse of `join`.

use vstd::prelude::*;

verus! {

/// Position of the first `sep` in `s`, or `s.len()` if `s` holds none.
pub open spec fn first_index(s: Seq<char>, sep: char) -> int
    decreases s.len(),
{
    if s.len() == 0 || s[0] == sep {
        0
    } else {
        1 + first_index(s.drop_first(), sep)
    }
}

/// The pieces of `s` around each occurrence of `sep`, in order.
///
/// There is always at least one piece; `n` separators give `n + 1` pieces,
/// some of which may be empty.
pub open spec fn split(s: Seq<char>, sep: char) -> Seq<Seq<char>>
    decreases s.len(),
{
    let i = first_index(s, sep);
    if i < 0 || i >= s.len() {
        seq![s]
    } else {
        seq![s.take(i)] + split(s.skip(i + 1), sep)
    }
}

/// The pieces written one after another with `sep` between neighbours.
pub open spec fn join(parts: Seq<Seq<char>>, sep: char) -> Seq<char>
    decreases parts.len(),
{
    if parts.len() == 0 {
        Seq::empty()
    } else if parts.len() == 1 {
        parts[0]
    } else {
        parts[0] + seq![sep] + join(parts.drop_first(), sep)
    }
}

/// No piece holds the separator.
pub open spec fn free_of(parts: Seq<Seq<char>>, sep: char) -> bool {
    forall|i: int, j: int|
        0 <= i < parts.len() && 0 <= j < parts[i].len() ==> (#[trigger] parts[i][j]) != sep
}

/// The views of a list of strings.
pub open spec fn strings(v: Seq<String>) -> Seq<Seq<char>> {
    Seq::new(v.len(), |i: int| v[i]@)
}

/// The views of a list of string slices.
pub open spec fn texts(v: Seq<&str>) -> Seq<Seq<char>> {
    Seq::new(v.len(), |i: int| v[i]@)
}

/// `first_index` is in range, nothing before it is the separator, and it
/// points at a separator unless it is the length.
pub proof fn lemma_first_index(s: Seq<char>, sep: char)
    ensures
        0 <= first_index(s, sep) <= s.len(),
        forall|j: int| 0 <= j < first_index(s, sep) ==> s[j] != sep,
        first_index(s, sep) < s.len() ==> s[first_index(s, sep)] == sep,
    decreases s.len(),
{
    if s.len() == 0 || s[0] == sep {
    } else {
        let t = s.drop_first();
        lemma_first_index(t, sep);
        assert forall|j: int| 0 <= j < first_index(s, sep) implies s[j] != sep by {
            if j > 0 {
                assert(s[j] == t[j - 1]);
            }
        }
        assert(s[first_index(s, sep)] == t[first_index(t, sep)] || first_index(s, sep) == s.len());
    }
}

/// A position with the properties of `first_index` is `first_index`.
pub proof fn lemma_first_index_is(s: Seq<char>, sep: char, k: int)
    requires
        0 <= k <= s.len(),
        forall|j: int| 0 <= j < k ==> s[j] != sep,
        k < s.len() ==> s[k] == sep,
    ensures
        first_index(s, sep) == k,
{
    lemma_first_index(s, sep);
    let f = first_index(s, sep);
    if f < k {
        assert(s[f] == sep);
    } else if k < f {
        assert(s[k] == sep);
    }
}

/// A sequence without the separator is its own single piece.
pub proof fn lemma_split_whole(s: Seq<char>, sep: char)
    requires
        forall|j: int| 0 <= j < s.len() ==> s[j] != sep,
    ensures
        split(s, sep) == seq![s],
{
    lemma_first_index_is(s, sep, s.len() as int);
}

/// Splitting at a known first separator.
pub proof fn lemma_split_at(s: Seq<char>, sep: char, k: int)
    requires
        0 <= k < s.len(),
        forall|j: int| 0 <= j < k ==> s[j] != sep,
        s[k] == sep,
    ensures
        split(s, sep) == seq![s.take(k)] + split(s.skip(k + 1), sep),
{
    lemma_first_index_is(s, sep, k);
}

/// `split` gives at least one piece and none of them holds the separator.
pub proof fn lemma_split_pieces(s: Seq<char>, sep: char)
    ensures
        split(s, sep).len() >= 1,
        free_of(split(s, sep), sep),
    decreases s.len(),
{
    lemma_first_index(s, sep);
    let i = first_index(s, sep);
    if i >= s.len() {
        assert(split(s, sep) == seq![s]);
    } else {
        let rest = split(s.skip(i + 1), sep);
        lemma_split_pieces(s.skip(i + 1), sep);
        let all = split(s, sep);
        assert(all == seq![s.take(i)] + rest);
        assert forall|a: int, b: int| 0 <= a < all.len() && 0 <= b < all[a].len() implies (
        #[trigger] all[a][b]) != sep by {
            if a == 0 {
                assert(all[0] == s.take(i));
            } else {
                assert(all[a] == rest[a - 1]);
            }
        }
    }
}

/// Joining the pieces of a split gives the sequence back.
pub proof fn lemma_join_split(s: Seq<char>, sep: char)
    ensures
        join(split(s, sep), sep) == s,
    decreases s.len(),
{
    lemma_first_index(s, sep);
    let i = first_index(s, sep);
    if i >= s.len() {
        assert(split(s, sep) == seq![s]);
    } else {
        let tail = s.skip(i + 1);
        let rest = split(tail, sep);
        lemma_join_split(tail, sep);
        lemma_split_pieces(tail, sep);
        let all = split(s, sep);
        assert(all == seq![s.take(i)] + rest);
        assert(all.drop_first() =~= rest);
        assert(all[0] == s.take(i));
        assert(join(all, sep) == s.take(i) + seq![sep] + tail);
        assert(s.take(i) + seq![sep] + tail =~= s);
    }
}

/// Splitting a join of separator-free pieces gives the pieces back.
pub proof fn lemma_split_join(parts: Seq<Seq<char>>, sep: char)
    requires
        parts.len() >= 1,
        free_of(parts, sep),
    ensures
        split(join(parts, sep), sep) == parts,
    decreases parts.len(),
{
    if parts.len() == 1 {
        assert forall|j: int| 0 <= j < parts[0].len() implies parts[0][j] != sep by {
            assert(parts[0][j] != sep);
        }
        lemma_split_whole(parts[0], sep);
        assert(seq![parts[0]] =~= parts);
    } else {
        let rest = parts.drop_first();
        assert forall|i: int, j: int| 0 <= i < rest.len() && 0 <= j < rest[i].len() implies (
        #[trigger] rest[i][j]) != sep by {
            assert(rest[i] == parts[i + 1]);
            assert(parts[i + 1][j] != sep);
        }
        lemma_split_join(rest, sep);
        let s = join(parts, sep);
        let k = parts[0].len() as int;
        assert(s == parts[0] + seq![sep] + join(rest, sep));
        assert forall|j: int| 0 <= j < k implies s[j] != sep by {
            assert(s[j] == parts[0][j]);
        }
        assert(s[k] == sep);
        lemma_split_at(s, sep, k);
        assert(s.take(k) =~= parts[0]);
        assert(s.skip(k + 1) =~= join(rest, sep));
        assert(seq![parts[0]] + rest =~= parts);
    }
}

/// The pieces of `a`, a separator and `b` are the pieces of `a` followed by
/// the pieces of `b`.
pub proof fn lemma_split_concat(a: Seq<char>, b: Seq<char>, sep: char)
    ensures
        split(a + seq![sep] + b, sep) == split(a, sep) + split(b, sep),
    decreases a.len(),
{
    let s = a + seq![sep] + b;
    lemma_first_index(a, sep);
    let i = first_index(a, sep);
    if i >= a.len() {
        assert forall|j: int| 0 <= j < a.len() implies s[j] != sep by {
            assert(s[j] == a[j]);
        }
        lemma_split_at(s, sep, a.len() as int);
        assert(s.take(a.len() as int) =~= a);
        assert(s.skip(a.len() as int + 1) =~= b);
        assert(split(a, sep) == seq![a]);
    } else {
        assert forall|j: int| 0 <= j < i implies s[j] != sep by {
            assert(s[j] == a[j]);
        }
        assert(s[i] == a[i]);
        lemma_split_at(s, sep, i);
        let a_tail = a.skip(i + 1);
        assert(s.skip(i + 1) =~= a_tail + seq![sep] + b);
        assert(s.take(i) =~= a.take(i));
        lemma_split_concat(a_tail, b, sep);
        assert(split(a, sep) == seq![a.take(i)] + split(a_tail, sep));
        assert(seq![a.take(i)] + (split(a_tail, sep) + split(b, sep)) =~= (seq![a.take(i)] + split(
            a_tail,
            sep,
        )) + split(b, sep));
    }
}

/// Joining one more piece: after a separator, unless it is the first.
pub proof fn lemma_join_push(parts: Seq<Seq<char>>, piece: Seq<char>, sep: char)
    ensures
        join(parts.push(piece), sep) == if parts.len() == 0 {
            piece
        } else {
            join(parts, sep) + seq![sep] + piece
        },
    decreases parts.len(),
{
    let all = parts.push(piece);
    if parts.len() == 0 {
        assert(all[0] == piece);
    } else if parts.len() == 1 {
        assert(all.drop_first() =~= seq![piece]);
        assert(join(all.drop_first(), sep) == piece);
        assert(all[0] == parts[0]);
    } else {
        let rest = parts.drop_first();
        lemma_join_push(rest, piece, sep);
        assert(all.drop_first() =~= rest.push(piece));
        assert(all[0] == parts[0]);
        assert(parts[0] + seq![sep] + (join(rest, sep) + seq![sep] + piece) =~= (parts[0] + seq![sep]
            + join(rest, sep)) + seq![sep] + piece);
    }
}

/// The lower-case form of an ASCII letter; any other character is itself.
pub open spec fn lower_char(c: char) -> char {
    if 'A' <= c <= 'Z' {
        ((c as u8) + 32) as char
    } else {
        c
    }
}

/// A text with its ASCII letters in lower case.
pub open spec fn ascii_lower(s: Seq<char>) -> Seq<char> {
    Seq::new(s.len(), |i: int| lower_char(s[i]))
}

/// `core::str::from_utf8`: the string slice that `bytes` encode, if they are
/// valid UTF-8, and nothing if they are not.
#[verifier::external_body]
pub(crate) fn utf8_text<'a>(bytes: &'a [u8]) -> (r: Option<&'a str>)
    ensures
        r is Some <==> vstd::utf8::valid_utf8(bytes@),
        r matches Some(s) ==> s@ == vstd::utf8::decode_utf8(bytes@),
{
    core::str::from_utf8(bytes).ok()
}

/// The lower-case form of an ASCII letter; any other character is itself.
pub fn to_lower(c: char) -> (r: char)
    ensures
        r == lower_char(c),
{
    if 'A' <= c && c <= 'Z' {
        ((c as u8) + 32) as char
    } else {
        c
    }
}

/// Whether two texts are the same but for the case of their ASCII letters.
pub fn eq_ignore_case(a: &str, b: &str) -> (r: bool)
    ensures
        r == (ascii_lower(a@) == ascii_lower(b@)),
{
    let x = chars_of(a);
    let y = chars_of(b);
    if x.len() != y.len() {
        assert(ascii_lower(a@).len() != ascii_lower(b@).len());
        return false;
    }
    let n = x.len();
    let mut i: usize = 0;
    while i < n
        invariant
            x@ == a@,
            y@ == b@,
            n == x@.len(),
            n == y@.len(),
            i <= n,
            forall|j: int| 0 <= j < i ==> lower_char(#[trigger] x@[j]) == lower_char(y@[j]),
        decreases n - i,
    {
        if to_lower(x[i]) != to_lower(y[i]) {
            assert(ascii_lower(a@)[i as int] != ascii_lower(b@)[i as int]);
            return false;
        }
        i = i + 1;
    }
    assert(ascii_lower(a@) =~= ascii_lower(b@));
    true
}

/// The position of the first of `names` that is `name`.
pub fn find_name(names: &Vec<String>, name: &str) -> (r: Option<usize>)
    ensures
        strings(names@).index_of_first(name@) == match r {
            Some(i) => Some(i as int),
            None => None,
        },
{
    let ghost all = strings(names@);
    let n = names.len();
    let mut i: usize = 0;
    while i < n
        invariant
            i <= n,
            n == names@.len(),
            all == strings(names@),
            forall|j: int| 0 <= j < i ==> all[j] != name@,
        decreases n - i,
    {
        assert(all[i as int] == names@[i as int]@);
        if str_eq(names[i].as_str(), name) {
            proof {
                all.index_of_first_ensures(name@);
                assert(all.contains(name@));
            }
            return Some(i);
        }
        i = i + 1;
    }
    proof {
        all.index_of_first_ensures(name@);
    }
    None
}

/// The characters of a string slice, in order.
pub fn chars_of(s: &str) -> (v: Vec<char>)
    ensures
        v@ == s@,
{
    broadcast use vstd::string::group_string_axioms;

    let mut v: Vec<char> = Vec::new();
    for c in it: s.chars()
        invariant
            it.seq() == s@,
            v@ =~= it.seq().take(it.index()),
    {
        v.push(c);
    }
    assert(v@ =~= s@);
    v
}

/// Whether two string slices hold the same characters.
pub fn str_eq(a: &str, b: &str) -> (r: bool)
    ensures
        r == (a@ == b@),
{
    broadcast use vstd::utf8::encode_utf8_decode_utf8;

    let x = a.as_bytes();
    let y = b.as_bytes();
    if x.len() != y.len() {
        return false;
    }
    let n = x.len();
    let mut i: usize = 0;
    while i < n
        invariant
            x@ == vstd::utf8::encode_utf8(a@),
            y@ == vstd::utf8::encode_utf8(b@),
            n == x@.len(),
            n == y@.len(),
            i <= n,
            x@.take(i as int) == y@.take(i as int),
        decreases n - i,
    {
        if x[i] != y[i] {
            return false;
        }
        assert(x@.take(i + 1) =~= x@.take(i as int).push(x@[i as int]));
        assert(y@.take(i + 1) =~= y@.take(i as int).push(y@[i as int]));
        i = i + 1;
    }
    assert(x@ =~= x@.take(n as int));
    assert(y@ =~= y@.take(n as int));
    assert(vstd::utf8::decode_utf8(vstd::utf8::encode_utf8(a@)) == a@);
    assert(vstd::utf8::decode_utf8(vstd::utf8::encode_utf8(b@)) == b@);
    true
}

/// The pieces of a string slice around each `sep`, as slices of it.
pub fn split_str<'a>(s: &'a str, sep: char) -> (pieces: Vec<&'a str>)
    ensures
        texts(pieces@) == split(s@, sep),
{
    broadcast use vstd::string::group_string_axioms;

    let n = s.unicode_len();
    let mut pieces: Vec<&'a str> = Vec::new();
    let mut start: usize = 0;
    let mut i: usize = 0;
    assert(s@.skip(0) =~= s@);
    assert(texts(pieces@) + split(s@, sep) =~= split(s@, sep));
    for c in it: s.chars()
        invariant
            it.seq() == s@,
            n == s@.len(),
            i == it.index(),
            start <= i <= n,
            forall|j: int| start <= j < i ==> s@[j] != sep,
            split(s@, sep) == texts(pieces@) + split(s@.skip(start as int), sep),
    {
        if c == sep {
            let piece = s.substring_char(start, i);
            proof {
                let rest = s@.skip(start as int);
                let k = i - start;
                assert forall|j: int| 0 <= j < k implies rest[j] != sep by {
                    assert(rest[j] == s@[start + j]);
                }
                assert(rest[k] == s@[i as int]);
                lemma_split_at(rest, sep, k);
                assert(rest.take(k) =~= s@.subrange(start as int, i as int));
                assert(rest.skip(k + 1) =~= s@.skip(i + 1));
                assert(texts(pieces@.push(piece)) =~= texts(pieces@) + seq![piece@]);
                assert(texts(pieces@) + (seq![piece@] + split(s@.skip(i + 1), sep)) =~= (texts(
                    pieces@,
                ) + seq![piece@]) + split(s@.skip(i + 1), sep));
            }
            pieces.push(piece);
            start = i + 1;
        }
        i = i + 1;
    }
    let piece = s.substring_char(start, n);
    proof {
        let rest = s@.skip(start as int);
        assert forall|j: int| 0 <= j < rest.len() implies rest[j] != sep by {
            assert(rest[j] == s@[start + j]);
        }
        lemma_split_whole(rest, sep);
        assert(rest =~= s@.subrange(start as int, n as int));
        assert(texts(pieces@.push(piece)) =~= texts(pieces@) + seq![piece@]);
    }
    pieces.push(piece);
    pieces
}

} // verus!
