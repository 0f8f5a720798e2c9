//! Host names and host patterns.
//!
//! A host pattern is an RFC 1123 host name that may begin with one wildcard
//! label, `*.example.com`. Both are kept as their labels in reverse order, the
//! top-level domain first, so that matching is a comparison of prefixes.

use crate::ip::{ip_literal, is_ip_literal};
use crate::text::{
    free_of, join, lemma_join_push, lemma_join_split, lemma_split_join, lemma_split_pieces, split,
    split_str, str_eq, strings, texts,
};
use vstd::prelude::*;

verus! {

/// Why a text is no host pattern.
#[derive(Debug, Clone, Copy, PartialEq, Eq, Structural)]
pub enum HostSpecParseError {
    /// The text is empty.
    EmptyStr,
    /// Two dots follow each other, or the text starts or ends with a dot.
    EmptyLabel,
    /// A label holds something else than `a-z`, `0-9` and `-`, or starts or
    /// ends with `-`.
    InvalidLabel,
    /// A `*` stands somewhere else than alone in front of other labels.
    InvalidWildcard,
    /// The text is an IP address.
    UnexpectedIp,
}

/// Why a text is no host name.
#[derive(Debug, Clone, Copy, PartialEq, Eq, Structural)]
pub enum HostnameParseError {
    /// The text is empty.
    EmptyStr,
    /// Two dots follow each other, or the text starts or ends with a dot.
    EmptyLabel,
    /// A label holds something else than `a-z`, `0-9` and `-`, or starts or
    /// ends with `-`.
    InvalidLabel,
    /// The text holds a `*` label.
    UnexpectedWildcard,
    /// The text is an IP address.
    UnexpectedIp,
}

/// What a host pattern says: its labels, top-level domain first, and whether
/// one more label of any content has to precede them.
pub struct HostPattern {
    pub labels: Seq<Seq<char>>,
    pub wildcard: bool,
}

/// A character that a label may hold.
pub open spec fn is_label_char(c: char) -> bool {
    'a' <= c <= 'z' || '0' <= c <= '9' || c == '-'
}

/// A label: lower-case letters, digits and hyphens, at least one character,
/// no hyphen at either end.
pub open spec fn is_label(l: Seq<char>) -> bool {
    &&& l.len() >= 1
    &&& forall|i: int| 0 <= i < l.len() ==> is_label_char(#[trigger] l[i])
    &&& l[0] != '-'
    &&& l.last() != '-'
}

/// The wildcard label.
pub open spec fn star() -> Seq<char> {
    seq!['*']
}

/// What is wrong with the label at position `i` of `parts`, the dot-separated
/// pieces of a text in the order in which they are written.
///
/// A label is at fault if it is empty, if the label to its right is a
/// wildcard, if it is a wildcard with nothing to its right, or if it is
/// neither a wildcard nor a valid label.
pub open spec fn fault(parts: Seq<Seq<char>>, i: int) -> Option<HostSpecParseError> {
    if parts[i].len() == 0 {
        Some(HostSpecParseError::EmptyLabel)
    } else if i + 1 < parts.len() && parts[i + 1] == star() {
        Some(HostSpecParseError::InvalidWildcard)
    } else if parts[i] == star() {
        if parts.len() == 1 {
            Some(HostSpecParseError::InvalidWildcard)
        } else {
            None
        }
    } else if !is_label(parts[i]) {
        Some(HostSpecParseError::InvalidLabel)
    } else {
        None
    }
}

/// The fault of the rightmost label at fault among positions `0..=i`.
pub open spec fn rightmost_fault(parts: Seq<Seq<char>>, i: int) -> Option<HostSpecParseError>
    decreases i + 1,
{
    if i < 0 {
        None
    } else if fault(parts, i) is Some {
        fault(parts, i)
    } else {
        rightmost_fault(parts, i - 1)
    }
}

/// The pattern that fault-free `parts` write.
pub open spec fn pattern_of(parts: Seq<Seq<char>>) -> HostPattern {
    if parts[0] == star() {
        HostPattern { labels: parts.skip(1).reverse(), wildcard: true }
    } else {
        HostPattern { labels: parts.reverse(), wildcard: false }
    }
}

/// What parsing a host pattern gives.
///
/// An IP address and the empty text are refused first. Otherwise the text is
/// read label by label from the right, and the first label at fault decides
/// the error.
pub open spec fn parse_host_spec(text: Seq<char>) -> Result<HostPattern, HostSpecParseError> {
    let parts = split(text, '.');
    if is_ip_literal(text) {
        Err(HostSpecParseError::UnexpectedIp)
    } else if text.len() == 0 {
        Err(HostSpecParseError::EmptyStr)
    } else if rightmost_fault(parts, parts.len() - 1) is Some {
        Err(rightmost_fault(parts, parts.len() - 1)->0)
    } else {
        Ok(pattern_of(parts))
    }
}

/// The error of a host name for an error of a host pattern.
pub open spec fn hostname_error(e: HostSpecParseError) -> HostnameParseError {
    match e {
        HostSpecParseError::EmptyStr => HostnameParseError::EmptyStr,
        HostSpecParseError::EmptyLabel => HostnameParseError::EmptyLabel,
        HostSpecParseError::InvalidLabel => HostnameParseError::InvalidLabel,
        HostSpecParseError::InvalidWildcard => HostnameParseError::UnexpectedWildcard,
        HostSpecParseError::UnexpectedIp => HostnameParseError::UnexpectedIp,
    }
}

/// What parsing a host name gives: the labels of the pattern that the text
/// writes, top-level domain first, unless that pattern has a wildcard.
pub open spec fn parse_hostname(text: Seq<char>) -> Result<Seq<Seq<char>>, HostnameParseError> {
    match parse_host_spec(text) {
        Err(e) => Err(hostname_error(e)),
        Ok(p) => if p.wildcard {
            Err(HostnameParseError::UnexpectedWildcard)
        } else {
            Ok(p.labels)
        },
    }
}

/// The dot-separated pieces that write a pattern, leftmost first.
pub open spec fn parts_of(p: HostPattern) -> Seq<Seq<char>> {
    if p.wildcard {
        seq![star()] + p.labels.reverse()
    } else {
        p.labels.reverse()
    }
}

/// The text that writes a pattern.
pub open spec fn text_of(p: HostPattern) -> Seq<char> {
    join(parts_of(p), '.')
}

/// A pattern that some text writes: at least one label, each of them valid,
/// and not the text of an IP address.
pub open spec fn pattern_wf(p: HostPattern) -> bool {
    &&& p.labels.len() >= 1
    &&& forall|i: int| 0 <= i < p.labels.len() ==> is_label(#[trigger] p.labels[i])
    &&& !is_ip_literal(text_of(p))
}

/// Whether a pattern matches the labels of a host name, both top-level
/// domain first.
///
/// Without a wildcard the labels are the same. With one, the host name has
/// exactly one label more, and the others are the pattern's.
pub open spec fn pattern_matches(p: HostPattern, host: Seq<Seq<char>>) -> bool {
    if p.wildcard {
        host.len() == p.labels.len() + 1 && host.take(p.labels.len() as int) == p.labels
    } else {
        host == p.labels
    }
}

/// A host pattern: a host name that may begin with one wildcard label.
#[derive(Debug, Clone)]
pub struct HostSpec {
    labels: Vec<String>,
    wildcard: bool,
}

/// A host name, as a request names it.
#[derive(Debug, Clone)]
pub struct Hostname {
    labels: Vec<String>,
}

impl View for HostSpec {
    type V = HostPattern;

    closed spec fn view(&self) -> HostPattern {
        HostPattern { labels: strings(self.labels@), wildcard: self.wildcard }
    }
}

impl View for Hostname {
    type V = Seq<Seq<char>>;

    closed spec fn view(&self) -> Seq<Seq<char>> {
        strings(self.labels@)
    }
}

impl From<HostSpecParseError> for HostnameParseError {
    fn from(error: HostSpecParseError) -> (r: HostnameParseError) {
        match error {
            HostSpecParseError::EmptyStr => HostnameParseError::EmptyStr,
            HostSpecParseError::EmptyLabel => HostnameParseError::EmptyLabel,
            HostSpecParseError::InvalidLabel => HostnameParseError::InvalidLabel,
            HostSpecParseError::InvalidWildcard => HostnameParseError::UnexpectedWildcard,
            HostSpecParseError::UnexpectedIp => HostnameParseError::UnexpectedIp,
        }
    }
}

impl vstd::std_specs::convert::FromSpecImpl<HostSpecParseError> for HostnameParseError {
    open spec fn obeys_from_spec() -> bool {
        true
    }

    open spec fn from_spec(error: HostSpecParseError) -> HostnameParseError {
        hostname_error(error)
    }
}

/// A star is no label, and a label is no star.
pub proof fn lemma_star_is_no_label()
    ensures
        !is_label(star()),
        star().len() == 1,
{
    assert(star()[0] == '*');
}

/// Where no label up to `i` is at fault, there is no rightmost fault.
pub proof fn lemma_no_fault(parts: Seq<Seq<char>>, i: int)
    requires
        -1 <= i < parts.len(),
        forall|j: int| 0 <= j <= i ==> (#[trigger] fault(parts, j)) is None,
    ensures
        rightmost_fault(parts, i) is None,
    decreases i + 1,
{
    if i >= 0 {
        lemma_no_fault(parts, i - 1);
    }
}

/// Where there is no rightmost fault, no label up to `i` is at fault.
pub proof fn lemma_fault_free(parts: Seq<Seq<char>>, i: int)
    requires
        -1 <= i < parts.len(),
        rightmost_fault(parts, i) is None,
    ensures
        forall|j: int| 0 <= j <= i ==> (#[trigger] fault(parts, j)) is None,
    decreases i + 1,
{
    if i >= 0 {
        lemma_fault_free(parts, i - 1);
    }
}

/// Whether `label` is a valid label.
pub fn label_ok(label: &str) -> (r: bool)
    ensures
        r == is_label(label@),
{
    broadcast use vstd::string::group_string_axioms;

    let mut count: usize = 0;
    let mut last_hyphen = false;
    let n = label.unicode_len();
    for c in it: label.chars()
        invariant
            it.seq() == label@,
            n == label@.len(),
            count == it.index(),
            forall|i: int| 0 <= i < count ==> is_label_char(#[trigger] label@[i]),
            count >= 1 ==> label@[0] != '-',
            last_hyphen == (count >= 1 && label@[count - 1] == '-'),
    {
        let fits = ('a' <= c && c <= 'z') || ('0' <= c && c <= '9') || c == '-';
        if !fits {
            assert(!is_label_char(label@[count as int]));
            return false;
        }
        if count == 0 && c == '-' {
            return false;
        }
        last_hyphen = c == '-';
        count = count + 1;
    }
    count >= 1 && !last_hyphen
}

impl HostSpec {
    /// Whether this pattern is one that some text writes.
    pub open spec fn wf(&self) -> bool {
        pattern_wf(self@)
    }

    /// Reads a host pattern.
    ///
    /// The text is a host name in the sense of RFC 1123, with two differences:
    /// it may not be an IP address, and it may begin with one wildcard label
    /// `*`, which then stands alone in front of at least one other label. A
    /// label consists of lower-case letters, digits and `-`, and begins and
    /// ends with a letter or a digit.
    pub fn from_str(value: &str) -> (r: Result<HostSpec, HostSpecParseError>)
        ensures
            r matches Ok(spec) ==> parse_host_spec(value@) == Ok::<HostPattern, HostSpecParseError>(spec@)
                && spec.wf(),
            r matches Err(e) ==> parse_host_spec(value@) == Err::<HostPattern, HostSpecParseError>(e),
    {
        if ip_literal(value) {
            return Err(HostSpecParseError::UnexpectedIp);
        }
        if value.is_empty() {
            return Err(HostSpecParseError::EmptyStr);
        }
        let pieces = split_str(value, '.');
        let ghost parts = split(value@, '.');
        proof {
            lemma_split_pieces(value@, '.');
            reveal_strlit("*");
            assert("*"@ =~= star());
        }
        let n = pieces.len();
        let mut labels: Vec<String> = Vec::new();
        let mut wildcard = false;
        let mut i: usize = n;
        while i > 0
            invariant
                i <= n,
                n == pieces@.len(),
                n >= 1,
                texts(pieces@) == parts,
                parts == split(value@, '.'),
                !is_ip_literal(value@),
                value@.len() > 0,
                "*"@ == star(),
                forall|j: int| i <= j < n ==> (#[trigger] fault(parts, j)) is None,
                wildcard == (i < n && parts[i as int] == star()),
                strings(labels@) =~= parts.subrange(
                    if wildcard {
                        i + 1
                    } else {
                        i as int
                    },
                    n as int,
                ).reverse(),
            decreases i,
        {
            let label = pieces[i - 1];
            assert(parts[i - 1] == label@);
            if label.is_empty() {
                proof {
                    lemma_rightmost_fault_at(parts, n - 1, i - 1);
                }
                return Err(HostSpecParseError::EmptyLabel);
            }
            if wildcard {
                proof {
                    lemma_rightmost_fault_at(parts, n - 1, i - 1);
                }
                return Err(HostSpecParseError::InvalidWildcard);
            }
            if str_eq(label, "*") {
                if n == 1 {
                    proof {
                        lemma_rightmost_fault_at(parts, n - 1, i - 1);
                    }
                    return Err(HostSpecParseError::InvalidWildcard);
                }
                wildcard = true;
                proof {
                    lemma_star_is_no_label();
                    assert(parts.subrange(i as int, n as int) =~= parts.subrange(i - 1 + 1, n as int));
                }
            } else {
                if !label_ok(label) {
                    proof {
                        lemma_rightmost_fault_at(parts, n - 1, i - 1);
                    }
                    return Err(HostSpecParseError::InvalidLabel);
                }
                let owned = label.to_owned();
                proof {
                    let before = parts.subrange(i as int, n as int);
                    let after = parts.subrange(i - 1, n as int);
                    assert(after.reverse() =~= before.reverse().push(parts[i - 1]));
                    assert(strings(labels@.push(owned)) =~= strings(labels@).push(owned@));
                }
                labels.push(owned);
            }
            i = i - 1;
        }
        let spec = HostSpec { labels, wildcard };
        proof {
            lemma_no_fault(parts, n - 1);
            assert(parts.subrange(0, n as int) =~= parts);
            assert(parts.subrange(1, n as int) =~= parts.skip(1));
            assert(spec@ == pattern_of(parts));
            lemma_parsed_is_wf(value@);
        }
        Ok(spec)
    }

    /// Whether this pattern matches a host name.
    pub fn matches(&self, hostname: &Hostname) -> (r: bool)
        ensures
            r == pattern_matches(self@, hostname@),
    {
        let m = self.labels.len();
        let n = hostname.labels.len();
        assert(self@.labels.len() == m && hostname@.len() == n);
        if self.wildcard {
            if n == 0 || n - 1 != m {
                return false;
            }
        } else if n != m {
            return false;
        }
        let mut i: usize = 0;
        while i < m
            invariant
                i <= m,
                m == self.labels@.len(),
                n == hostname.labels@.len(),
                m <= n,
                forall|j: int|
                    0 <= j < i ==> (#[trigger] self.labels@[j])@ == hostname.labels@[j]@,
            decreases m - i,
        {
            if self.labels[i] != hostname.labels[i] {
                assert(strings(self.labels@)[i as int] != strings(hostname.labels@)[i as int]);
                assert(hostname@.take(m as int)[i as int] == hostname@[i as int]);
                return false;
            }
            i = i + 1;
        }
        assert(hostname@.take(m as int) =~= self@.labels);
        if !self.wildcard {
            assert(hostname@.take(m as int) =~= hostname@);
        }
        true
    }

    /// The text that writes this pattern: its labels in the order in which
    /// they are read, separated by dots, after `*.` if it has a wildcard.
    pub fn stringify(&self) -> (r: String)
        ensures
            r@ == text_of(self@),
    {
        let mut text = String::new();
        let ghost parts = parts_of(self@);
        let ghost lead: int = if self.wildcard { 1 } else { 0 };
        let m = self.labels.len();
        if self.wildcard {
            text.append("*");
            proof {
                reveal_strlit("*");
                assert(text@ =~= star());
                assert(parts.take(1) =~= seq![star()]);
            }
        }
        proof {
            reveal_strlit(".");
            assert("."@ =~= seq!['.']);
            assert(parts.len() == m + lead);
        }
        let mut i: usize = m;
        while i > 0
            invariant
                i <= m,
                m == self.labels@.len(),
                parts == parts_of(self@),
                lead == (if self.wildcard { 1int } else { 0int }),
                parts.len() == m + lead,
                "."@ == seq!['.'],
                text@ == join(parts.take(lead + m - i), '.'),
            decreases i,
        {
            let ghost done = parts.take(lead + m - i);
            let label = self.labels[i - 1].as_str();
            proof {
                assert(parts[lead + m - i] == label@);
                assert(parts.take(lead + m - i + 1) =~= done.push(label@));
                lemma_join_push(done, label@, '.');
            }
            if self.wildcard || i < m {
                text.append(".");
            }
            text.append(label);
            i = i - 1;
            assert(text@ =~= join(parts.take(lead + m - i), '.'));
        }
        assert(parts.take(lead + m) =~= parts);
        text
    }

    /// The labels, top-level domain first.
    pub fn labels(&self) -> (r: &Vec<String>)
        ensures
            strings(r@) == self@.labels,
    {
        &self.labels
    }

    /// Whether the pattern begins with a wildcard label.
    pub fn is_wildcard(&self) -> (r: bool)
        ensures
            r == self@.wildcard,
    {
        self.wildcard
    }
}

impl Hostname {
    /// Reads a host name: a host pattern without a wildcard.
    pub fn from_str(s: &str) -> (r: Result<Hostname, HostnameParseError>)
        ensures
            r matches Ok(name) ==> parse_hostname(s@) == Ok::<Seq<Seq<char>>, HostnameParseError>(
                name@,
            ),
            r matches Err(e) ==> parse_hostname(s@) == Err::<Seq<Seq<char>>, HostnameParseError>(e),
    {
        match HostSpec::from_str(s) {
            Err(e) => Err(HostnameParseError::from(e)),
            Ok(spec) => {
                if spec.wildcard {
                    Err(HostnameParseError::UnexpectedWildcard)
                } else {
                    Ok(Hostname { labels: spec.labels })
                }
            },
        }
    }

    /// The labels, top-level domain first.
    pub fn labels(&self) -> (r: &Vec<String>)
        ensures
            strings(r@) == self@,
    {
        &self.labels
    }
}

/// The rightmost fault is the fault at `k` where nothing to the right of `k`
/// is at fault and `k` is.
pub proof fn lemma_rightmost_fault_at(parts: Seq<Seq<char>>, i: int, k: int)
    requires
        0 <= k <= i < parts.len(),
        fault(parts, k) is Some,
        forall|j: int| k < j <= i ==> (#[trigger] fault(parts, j)) is None,
    ensures
        rightmost_fault(parts, i) == fault(parts, k),
    decreases i - k,
{
    if i > k {
        assert(fault(parts, i) is None);
        lemma_rightmost_fault_at(parts, i - 1, k);
    }
}

/// The pieces of a pattern whose labels are valid: none holds a dot, none is at
/// fault, and they write the pattern.
pub proof fn lemma_parts_of_wf(p: HostPattern)
    requires
        p.labels.len() >= 1,
        forall|i: int| 0 <= i < p.labels.len() ==> is_label(#[trigger] p.labels[i]),
    ensures
        parts_of(p).len() >= 1,
        free_of(parts_of(p), '.'),
        forall|j: int| 0 <= j < parts_of(p).len() ==> (#[trigger] fault(parts_of(p), j)) is None,
        pattern_of(parts_of(p)) == p,
        text_of(p).len() >= 1,
{
    let parts = parts_of(p);
    let rev = p.labels.reverse();
    let lead: int = if p.wildcard { 1 } else { 0 };
    lemma_star_is_no_label();
    assert forall|j: int| lead <= j < parts.len() implies is_label(#[trigger] parts[j]) by {
        assert(parts[j] == rev[j - lead]);
        assert(rev[j - lead] == p.labels[p.labels.len() - 1 - (j - lead)]);
    }
    assert forall|a: int, b: int| 0 <= a < parts.len() && 0 <= b < parts[a].len() implies (
    #[trigger] parts[a][b]) != '.' by {
        if a >= lead {
            assert(is_label(parts[a]));
            assert(is_label_char(parts[a][b]));
        } else {
            assert(parts[a] == star());
        }
    }
    assert forall|j: int| 0 <= j < parts.len() implies (#[trigger] fault(parts, j)) is None by {
        if j >= lead {
            assert(is_label(parts[j]));
            assert(parts[j] != star());
            if j + 1 < parts.len() {
                assert(is_label(parts[j + 1]));
                assert(parts[j + 1] != star());
            }
        } else {
            assert(parts[j] == star());
            assert(is_label(parts[1]));
            assert(parts[1] != star());
        }
    }
    if p.wildcard {
        assert(parts[0] == star());
        assert(parts.skip(1) =~= rev);
    } else {
        assert(is_label(parts[0]));
        assert(parts[0] != star());
    }
    assert(rev.reverse() =~= p.labels);
    lemma_split_join(parts, '.');
    if text_of(p).len() == 0 {
        assert(split(text_of(p), '.') == seq![text_of(p)]);
        assert(parts[0] == text_of(p));
    }
}

/// What parsing accepts is a well-formed pattern, and writing that pattern
/// gives back the text that was parsed.
pub proof fn lemma_parsed_is_wf(text: Seq<char>)
    requires
        parse_host_spec(text) is Ok,
    ensures
        pattern_wf(parse_host_spec(text)->Ok_0),
        text_of(parse_host_spec(text)->Ok_0) == text,
{
    let parts = split(text, '.');
    let p = pattern_of(parts);
    lemma_split_pieces(text, '.');
    lemma_fault_free(parts, parts.len() - 1);
    lemma_star_is_no_label();
    let lead: int = if p.wildcard { 1 } else { 0 };
    assert(fault(parts, 0) is None);
    if p.wildcard {
        assert(parts.len() >= 2);
    }
    let body = parts.skip(lead);
    assert(p.labels == body.reverse());
    assert forall|j: int| lead <= j < parts.len() implies is_label(#[trigger] parts[j]) by {
        assert(fault(parts, j) is None);
        if parts[j] == star() {
            // a star to the right of position j - 1 puts that position at fault
            assert(fault(parts, j - 1) is None);
        }
    }
    assert forall|i: int| 0 <= i < p.labels.len() implies is_label(#[trigger] p.labels[i]) by {
        assert(p.labels[i] == body[body.len() - 1 - i]);
        assert(body[body.len() - 1 - i] == parts[lead + body.len() - 1 - i]);
    }
    assert(body.reverse().reverse() =~= body);
    if p.wildcard {
        assert(seq![star()] + body =~= parts);
    } else {
        assert(body =~= parts);
    }
    assert(parts_of(p) == parts);
    lemma_join_split(text, '.');
}

/// Writing a pattern and reading the text again gives the same pattern: for
/// every well-formed pattern `p`, the text of `p` parses to `p`. So a pattern
/// that is serialised and parsed again matches exactly the host names that it
/// matched before.
pub proof fn lemma_host_spec_round_trip(p: HostPattern)
    requires
        pattern_wf(p),
    ensures
        parse_host_spec(text_of(p)) == Ok::<HostPattern, HostSpecParseError>(p),
        forall|host: Seq<Seq<char>>|
            pattern_matches(parse_host_spec(text_of(p))->Ok_0, host) == pattern_matches(p, host),
{
    lemma_parts_of_wf(p);
    let parts = parts_of(p);
    lemma_split_join(parts, '.');
    lemma_no_fault(parts, parts.len() - 1);
}

/// A pattern with a wildcard matches exactly the host names that put one
/// label, whatever it is, in front of the labels of the pattern.
pub proof fn lemma_wildcard_matches(p: HostPattern, host: Seq<Seq<char>>)
    requires
        p.wildcard,
    ensures
        pattern_matches(p, host) <==> exists|label: Seq<char>| host == p.labels.push(label),
{
    if pattern_matches(p, host) {
        assert(host =~= p.labels.push(host.last()));
    }
    if exists|label: Seq<char>| host == p.labels.push(label) {
        let label = choose|label: Seq<char>| host == p.labels.push(label);
        assert(host.take(p.labels.len() as int) =~= p.labels);
    }
}

} // verus!
