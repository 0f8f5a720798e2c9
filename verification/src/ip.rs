//! Recognising IP address literals.
//!
//! A host name may not be an IP address, so the host parser has to know what
//! the text of one looks like: a dotted quad, or the colon-separated groups of
//! IPv6 with their one optional `::` and optional dotted-quad tail.

use crate::text::{split, split_str, texts};
use vstd::prelude::*;

verus! {

/// A decimal digit.
pub open spec fn is_digit(c: char) -> bool {
    '0' <= c <= '9'
}

/// A hexadecimal digit of either case.
pub open spec fn is_hex_digit(c: char) -> bool {
    is_digit(c) || 'a' <= c <= 'f' || 'A' <= c <= 'F'
}

/// The number that a run of decimal digits writes.
pub open spec fn decimal_value(s: Seq<char>) -> nat
    decreases s.len(),
{
    if s.len() == 0 {
        0
    } else {
        decimal_value(s.drop_last()) * 10 + (s.last() as nat - '0' as nat) as nat
    }
}

/// One part of a dotted quad: one to three digits, no leading zero on a
/// longer part, at most 255.
pub open spec fn is_octet(s: Seq<char>) -> bool {
    &&& 1 <= s.len() <= 3
    &&& forall|i: int| 0 <= i < s.len() ==> is_digit(#[trigger] s[i])
    &&& s.len() > 1 ==> s[0] != '0'
    &&& decimal_value(s) <= 255
}

/// A dotted quad: exactly four octets separated by `.`.
pub open spec fn is_ipv4_literal(s: Seq<char>) -> bool {
    let parts = split(s, '.');
    parts.len() == 4 && forall|i: int| 0 <= i < 4 ==> is_octet(#[trigger] parts[i])
}

/// One 16-bit group of an IPv6 address: one to four hexadecimal digits.
pub open spec fn is_group(s: Seq<char>) -> bool {
    1 <= s.len() <= 4 && forall|i: int| 0 <= i < s.len() ==> is_hex_digit(#[trigger] s[i])
}

/// How many 16-bit groups the colon-separated `parts` write, if they are
/// well formed: each part a group, except that the last may be a dotted quad
/// where `quad_allowed`, which counts for two. `None` if they are not.
pub open spec fn group_count(parts: Seq<Seq<char>>, quad_allowed: bool) -> Option<nat> {
    if forall|i: int| 0 <= i < parts.len() ==> is_group(#[trigger] parts[i]) {
        Some(parts.len())
    } else if quad_allowed && parts.len() >= 1 && is_ipv4_literal(parts.last()) && forall|i: int|
        0 <= i < parts.len() - 1 ==> is_group(#[trigger] parts[i]) {
        Some(parts.len() + 1)
    } else {
        None
    }
}

/// The parts of one side of a `::`: none for an empty side.
pub open spec fn side_parts(side: Seq<char>) -> Seq<Seq<char>> {
    if side.len() == 0 {
        Seq::empty()
    } else {
        split(side, ':')
    }
}

/// Whether a `::` starts at position `j` of `s`.
pub open spec fn gap_at(s: Seq<char>, j: int) -> bool {
    0 <= j && j + 1 < s.len() && s[j] == ':' && s[j + 1] == ':'
}

/// Position of the first `::` in `s`, or `s.len()` if there is none.
pub open spec fn first_gap(s: Seq<char>) -> int
    decreases s.len(),
{
    if s.len() < 2 {
        s.len() as int
    } else if s[0] == ':' && s[1] == ':' {
        0
    } else {
        1 + first_gap(s.drop_first())
    }
}

/// The text of an IPv6 address.
///
/// Without `::` it is eight groups, the last two of which may be written as a
/// dotted quad. With `::`, which stands for one or more zero groups, both
/// sides together write at most seven groups, and only the right side may end
/// in a dotted quad.
pub open spec fn is_ipv6_literal(s: Seq<char>) -> bool {
    let gap = first_gap(s);
    if gap < 0 || gap >= s.len() {
        group_count(split(s, ':'), true) == Some(8nat)
    } else {
        let head = group_count(side_parts(s.take(gap)), false);
        let tail = group_count(side_parts(s.skip(gap + 2)), true);
        head is Some && tail is Some && head->0 + tail->0 <= 7
    }
}

/// The text of an IPv4 or IPv6 address.
pub open spec fn is_ip_literal(s: Seq<char>) -> bool {
    is_ipv4_literal(s) || is_ipv6_literal(s)
}

/// `first_gap` is in range, points at a `::` unless it is the length, and no
/// `::` starts before it.
pub proof fn lemma_first_gap(s: Seq<char>)
    ensures
        0 <= first_gap(s) <= s.len(),
        first_gap(s) < s.len() ==> gap_at(s, first_gap(s)),
        forall|j: int| 0 <= j < first_gap(s) ==> !#[trigger] gap_at(s, j),
    decreases s.len(),
{
    if s.len() < 2 {
    } else if s[0] == ':' && s[1] == ':' {
    } else {
        let t = s.drop_first();
        lemma_first_gap(t);
        let g = first_gap(t);
        if g < t.len() {
            assert(s[g + 1] == t[g]);
            assert(s[g + 2] == t[g + 1]);
        }
        assert forall|j: int| 0 <= j < first_gap(s) implies !#[trigger] gap_at(s, j) by {
            if j > 0 && j + 1 < s.len() {
                assert(s[j] == t[j - 1]);
                assert(s[j + 1] == t[j]);
                assert(!gap_at(t, j - 1));
            }
        }
    }
}

/// A position with the properties of `first_gap` is `first_gap`.
pub proof fn lemma_first_gap_is(s: Seq<char>, k: int)
    requires
        0 <= k <= s.len(),
        k < s.len() ==> gap_at(s, k),
        forall|j: int| 0 <= j < k ==> !#[trigger] gap_at(s, j),
    ensures
        first_gap(s) == k,
{
    lemma_first_gap(s);
    let g = first_gap(s);
    if g < k {
        assert(!gap_at(s, g));
    } else if k < g {
        assert(!gap_at(s, k));
    }
}

/// Whether `part` is one part of a dotted quad.
pub fn octet(part: &str) -> (r: bool)
    ensures
        r == is_octet(part@),
{
    broadcast use vstd::string::group_string_axioms;

    let mut value: u32 = 0;
    let mut count: usize = 0;
    let mut leading_zero = false;
    for c in it: part.chars()
        invariant
            it.seq() == part@,
            count == it.index(),
            count <= 3,
            value == decimal_value(part@.take(count as int)),
            count == 0 ==> value == 0,
            count == 1 ==> value <= 9,
            count == 2 ==> value <= 99,
            value <= 999,
            forall|i: int| 0 <= i < count ==> is_digit(#[trigger] part@[i]),
            leading_zero == (count >= 1 && part@[0] == '0'),
    {
        if c < '0' || c > '9' {
            assert(!is_digit(part@[count as int]));
            return false;
        }
        if count >= 3 {
            return false;
        }
        if count == 0 && c == '0' {
            leading_zero = true;
        }
        proof {
            let next = part@.take(count + 1);
            assert(next.drop_last() =~= part@.take(count as int));
            assert(next.last() == c);
        }
        value = value * 10 + (c as u32 - '0' as u32);
        count = count + 1;
    }
    assert(part@.take(count as int) =~= part@);
    count >= 1 && !(leading_zero && count > 1) && value <= 255
}

/// Whether `part` is one 16-bit group.
pub fn group(part: &str) -> (r: bool)
    ensures
        r == is_group(part@),
{
    broadcast use vstd::string::group_string_axioms;

    let mut count: usize = 0;
    for c in it: part.chars()
        invariant
            it.seq() == part@,
            count == it.index(),
            count <= 4,
            forall|i: int| 0 <= i < count ==> is_hex_digit(#[trigger] part@[i]),
    {
        let hex = ('0' <= c && c <= '9') || ('a' <= c && c <= 'f') || ('A' <= c && c <= 'F');
        if !hex {
            assert(!is_hex_digit(part@[count as int]));
            return false;
        }
        if count >= 4 {
            return false;
        }
        count = count + 1;
    }
    count >= 1
}

/// Whether `s` is a dotted quad.
pub fn ipv4_literal(s: &str) -> (r: bool)
    ensures
        r == is_ipv4_literal(s@),
{
    let parts = split_str(s, '.');
    if parts.len() != 4 {
        return false;
    }
    let mut i: usize = 0;
    while i < 4
        invariant
            i <= 4,
            parts@.len() == 4,
            texts(parts@) == split(s@, '.'),
            forall|j: int| 0 <= j < i ==> is_octet(#[trigger] split(s@, '.')[j]),
        decreases 4 - i,
    {
        assert(texts(parts@)[i as int] == parts@[i as int]@);
        if !octet(parts[i]) {
            return false;
        }
        i = i + 1;
    }
    true
}

/// `group_count`, as far as it matters: `None` also where more than eight
/// groups are written, which no address has.
pub open spec fn short_group_count(parts: Seq<Seq<char>>, quad_allowed: bool) -> Option<nat> {
    match group_count(parts, quad_allowed) {
        Some(n) => if n <= 8 {
            Some(n)
        } else {
            None
        },
        None => None,
    }
}

/// The number of groups that `parts` write, if they are well formed and write
/// at most eight.
fn count_groups(parts: &Vec<&str>, quad_allowed: bool) -> (r: Option<usize>)
    ensures
        r is Some <==> short_group_count(texts(parts@), quad_allowed) is Some,
        r matches Some(n) ==> n == short_group_count(texts(parts@), quad_allowed)->0,
{
    let ghost views = texts(parts@);
    let n = parts.len();
    if n > 8 {
        return None;
    }
    let mut i: usize = 0;
    while i < n
        invariant
            i <= n,
            n == parts@.len(),
            n <= 8,
            views == texts(parts@),
            forall|j: int| 0 <= j < i ==> is_group(#[trigger] views[j]),
        decreases n - i,
    {
        assert(views[i as int] == parts@[i as int]@);
        if !group(parts[i]) {
            if quad_allowed && i + 1 == n && n < 8 && ipv4_literal(parts[i]) {
                assert(views.last() == views[i as int]);
                return Some(n + 1);
            }
            assert(!is_group(views[i as int]));
            return None;
        }
        i = i + 1;
    }
    Some(n)
}

/// The parts of one side of a `::`.
fn side_of<'a>(side: &'a str) -> (parts: Vec<&'a str>)
    ensures
        texts(parts@) == side_parts(side@),
{
    if side.is_empty() {
        let parts: Vec<&'a str> = Vec::new();
        assert(texts(parts@) =~= Seq::<Seq<char>>::empty());
        parts
    } else {
        split_str(side, ':')
    }
}

/// The position of the first `::` among the characters of `s`, or their
/// number if there is none.
fn find_gap(s: &str) -> (r: usize)
    ensures
        r == first_gap(s@),
{
    broadcast use vstd::string::group_string_axioms;

    let n = s.unicode_len();
    let mut i: usize = 0;
    let mut after_colon = false;
    for c in it: s.chars()
        invariant
            it.seq() == s@,
            n == s@.len(),
            i == it.index(),
            after_colon == (i >= 1 && s@[i - 1] == ':'),
            forall|j: int| 0 <= j < i - 1 ==> !#[trigger] gap_at(s@, j),
    {
        if c == ':' {
            if after_colon {
                proof {
                    lemma_first_gap_is(s@, i - 1);
                }
                return i - 1;
            }
            after_colon = true;
        } else {
            after_colon = false;
        }
        i = i + 1;
    }
    proof {
        lemma_first_gap_is(s@, n as int);
    }
    n
}

/// Whether `s` is the text of an IPv6 address.
pub fn ipv6_literal(s: &str) -> (r: bool)
    ensures
        r == is_ipv6_literal(s@),
{
    let n = s.unicode_len();
    let gap = find_gap(s);
    proof {
        lemma_first_gap(s@);
    }
    if gap >= n {
        let parts = split_str(s, ':');
        match count_groups(&parts, true) {
            Some(count) => count == 8,
            None => false,
        }
    } else {
        let head = side_of(s.substring_char(0, gap));
        let tail = side_of(s.substring_char(gap + 2, n));
        assert(s@.subrange(0, gap as int) =~= s@.take(gap as int));
        assert(s@.subrange(gap + 2, n as int) =~= s@.skip(gap + 2));
        match (count_groups(&head, false), count_groups(&tail, true)) {
            (Some(a), Some(b)) => a + b <= 7,
            _ => false,
        }
    }
}

/// Whether `s` is the text of an IPv4 or IPv6 address.
pub fn ip_literal(s: &str) -> (r: bool)
    ensures
        r == is_ip_literal(s@),
{
    ipv4_literal(s) || ipv6_literal(s)
}

} // verus!
