//! Predicates over a request: its path, its method and its header fields.
//!
//! A matcher holds up to one predicate of each kind; a request has to meet all
//! that are there. The request is given by its parts: the path and the method
//! as text, and the header fields in the map in which `http` keeps them.

use crate::web::pattern::{regex_matches, Pattern};
use crate::text::{
    ascii_lower, eq_ignore_case, join, lemma_join_push, lemma_split_concat, lemma_split_pieces,
    split, split_str, str_eq, strings, texts, utf8_text,
};
use http::{HeaderMap, HeaderValue, Method};
use std::str::FromStr;
use vstd::prelude::*;
use vstd::utf8::{decode_utf8, valid_utf8};

verus! {

/// `http::HeaderMap`: the header fields of a message. Nothing of its inside
/// is known here; what it holds is named by `header_fields`.
#[verifier::external_type_specification]
#[verifier::external_body]
#[verifier::reject_recursive_types(T)]
pub struct ExHeaderMap<T>(http::HeaderMap<T>);

/// `http::HeaderValue`: the value of one header field, as the map keeps it.
#[verifier::external_type_specification]
#[verifier::external_body]
pub struct ExHeaderValue(http::HeaderValue);

/// `http::method::InvalidMethod`: the error of `http` for a text that is no
/// method. It carries nothing.
#[verifier::external_type_specification]
#[verifier::external_body]
pub struct ExInvalidMethod(http::method::InvalidMethod);

/// Why a text is no path prefix.
#[derive(Debug, Clone, Copy, PartialEq, Eq, Structural)]
pub enum PathPrefixParseError {
    /// The text is empty.
    Empty,
    /// The text does not begin with `/`.
    NoSlashPrefix,
    /// Two slashes follow each other, or the text is a slash alone.
    ConsecutiveSlashes,
}

/// The segments of a text without the empty segment that a trailing slash
/// leaves.
pub open spec fn canonical(segments: Seq<Seq<char>>) -> Seq<Seq<char>> {
    if segments.len() >= 2 && segments.last().len() == 0 {
        segments.drop_last()
    } else {
        segments
    }
}

/// The segments of a path prefix: the empty segment in front of the first
/// slash, then one or more segments, none of them empty.
pub open spec fn is_prefix_form(segments: Seq<Seq<char>>) -> bool {
    &&& segments.len() >= 2
    &&& segments[0].len() == 0
    &&& forall|i: int| 1 <= i < segments.len() ==> (#[trigger] segments[i]).len() > 0
}

/// What parsing a path prefix gives: the segments between the slashes of the
/// text, the empty one before the first slash included, a trailing slash
/// ignored.
pub open spec fn parse_path_prefix(text: Seq<char>) -> Result<
    Seq<Seq<char>>,
    PathPrefixParseError,
> {
    let segments = split(text, '/');
    if text.len() == 0 {
        Err(PathPrefixParseError::Empty)
    } else if segments[0].len() > 0 {
        Err(PathPrefixParseError::NoSlashPrefix)
    } else if !is_prefix_form(canonical(segments)) {
        Err(PathPrefixParseError::ConsecutiveSlashes)
    } else {
        Ok(canonical(segments))
    }
}

/// Whether the segments of `path` begin with the segments `prefix`.
pub open spec fn prefix_matches(prefix: Seq<Seq<char>>, path: Seq<char>) -> bool {
    prefix.is_prefix_of(split(path, '/'))
}

/// A path prefix, kept as its segments. It matches a path segment by
/// segment, so `/abc` is a prefix of `/abc/def` and not of `/abcdef`.
#[derive(Debug, Clone)]
pub struct PathPrefix(Vec<String>);

impl View for PathPrefix {
    type V = Seq<Seq<char>>;

    closed spec fn view(&self) -> Seq<Seq<char>> {
        strings(self.0@)
    }
}

impl PathPrefix {
    /// Whether the segments are those of a parsed prefix.
    pub open spec fn wf(&self) -> bool {
        is_prefix_form(self@) && crate::text::free_of(self@, '/')
    }

    /// Reads a path prefix. It begins with `/`, holds no two slashes in a
    /// row and at least one segment; a slash at its end is dropped.
    pub fn from_str(string: &str) -> (r: Result<PathPrefix, PathPrefixParseError>)
        ensures
            r matches Ok(p) ==> parse_path_prefix(string@) == Ok::<
                Seq<Seq<char>>,
                PathPrefixParseError,
            >(p@) && p.wf(),
            r matches Err(e) ==> parse_path_prefix(string@) == Err::<
                Seq<Seq<char>>,
                PathPrefixParseError,
            >(e),
    {
        if string.is_empty() {
            return Err(PathPrefixParseError::Empty);
        }
        let pieces = split_str(string, '/');
        let ghost segments = split(string@, '/');
        proof {
            lemma_split_pieces(string@, '/');
        }
        let n = pieces.len();
        assert(segments[0] == pieces@[0]@);
        if !pieces[0].is_empty() {
            return Err(PathPrefixParseError::NoSlashPrefix);
        }
        assert(segments[n - 1] == pieces@[n - 1]@);
        let end = if n >= 2 && pieces[n - 1].is_empty() {
            n - 1
        } else {
            n
        };
        let ghost kept = canonical(segments);
        assert(kept =~= segments.take(end as int));
        if end < 2 {
            return Err(PathPrefixParseError::ConsecutiveSlashes);
        }
        let mut stored: Vec<String> = Vec::new();
        let mut i: usize = 0;
        while i < end
            invariant
                i <= end <= n,
                n == pieces@.len(),
                end >= 2,
                texts(pieces@) == segments,
                kept == segments.take(end as int),
                kept == canonical(segments),
                segments == split(string@, '/'),
                string@.len() > 0,
                segments[0].len() == 0,
                forall|j: int| 1 <= j < i ==> (#[trigger] kept[j]).len() > 0,
                strings(stored@) =~= kept.take(i as int),
            decreases end - i,
        {
            let piece = pieces[i];
            assert(segments[i as int] == piece@);
            assert(kept[i as int] == piece@);
            if i >= 1 && piece.is_empty() {
                return Err(PathPrefixParseError::ConsecutiveSlashes);
            }
            let owned = piece.to_owned();
            proof {
                assert(strings(stored@.push(owned)) =~= strings(stored@).push(owned@));
                assert(kept.take(i + 1) =~= kept.take(i as int).push(kept[i as int]));
            }
            stored.push(owned);
            i = i + 1;
        }
        assert(kept.take(end as int) =~= kept);
        let prefix = PathPrefix(stored);
        proof {
            assert(prefix@ == kept);
            assert forall|a: int, b: int|
                0 <= a < kept.len() && 0 <= b < kept[a].len() implies (#[trigger] kept[a][b])
                != '/' by {
                assert(kept[a] == segments[a]);
                assert(segments[a][b] != '/');
            }
        }
        Ok(prefix)
    }

    /// Whether `value_to_match`, read as segments between slashes, begins
    /// with the segments of this prefix.
    pub fn matches(&self, value_to_match: &str) -> (r: bool)
        ensures
            r == prefix_matches(self@, value_to_match@),
    {
        let pieces = split_str(value_to_match, '/');
        let ghost segments = split(value_to_match@, '/');
        let m = self.0.len();
        assert(self@.len() == m);
        if pieces.len() < m {
            return false;
        }
        let mut i: usize = 0;
        while i < m
            invariant
                i <= m,
                m == self.0@.len(),
                m <= pieces@.len(),
                texts(pieces@) == segments,
                segments == split(value_to_match@, '/'),
                forall|j: int| 0 <= j < i ==> (#[trigger] self.0@[j])@ == segments[j],
            decreases m - i,
        {
            assert(segments[i as int] == pieces@[i as int]@);
            if !str_eq(self.0[i].as_str(), pieces[i]) {
                assert(self@[i as int] != segments.subrange(0, m as int)[i as int]);
                return false;
            }
            i = i + 1;
        }
        assert(self@ =~= segments.subrange(0, m as int));
        true
    }

    /// The prefix as text: its segments joined by slashes.
    pub fn stringify(&self) -> (r: String)
        ensures
            r@ == join(self@, '/'),
    {
        let mut text = String::new();
        let m = self.0.len();
        proof {
            reveal_strlit("/");
            assert("/"@ =~= seq!['/']);
        }
        let mut i: usize = 0;
        while i < m
            invariant
                i <= m,
                m == self.0@.len(),
                "/"@ == seq!['/'],
                text@ == join(self@.take(i as int), '/'),
            decreases m - i,
        {
            let segment = self.0[i].as_str();
            proof {
                assert(self@[i as int] == segment@);
                assert(self@.take(i + 1) =~= self@.take(i as int).push(segment@));
                lemma_join_push(self@.take(i as int), segment@, '/');
            }
            if i > 0 {
                text.append("/");
            }
            text.append(segment);
            i = i + 1;
            assert(text@ =~= join(self@.take(i as int), '/'));
        }
        assert(self@.take(m as int) =~= self@);
        text
    }

    /// The segments, the empty one before the first slash included.
    pub fn segments(&self) -> (r: &Vec<String>)
        ensures
            strings(r@) == self@,
    {
        &self.0
    }
}

/// A prefix that matches a path matches every longer path that continues
/// with a slash: if `prefix` matches `path`, it matches `path` followed by any
/// `rest` that begins with `/`.
pub proof fn lemma_prefix_matches_longer(prefix: Seq<Seq<char>>, path: Seq<char>, rest: Seq<char>)
    requires
        prefix_matches(prefix, path),
        rest.len() > 0,
        rest[0] == '/',
    ensures
        prefix_matches(prefix, path + rest),
{
    let tail = rest.skip(1);
    assert(path + rest =~= path + seq!['/'] + tail);
    lemma_split_concat(path, tail, '/');
    let short = split(path, '/');
    let long = split(path + rest, '/');
    assert(long == short + split(tail, '/'));
    assert(long.subrange(0, prefix.len() as int) =~= short.subrange(0, prefix.len() as int));
}

/// Writing a prefix and reading the text again gives the same prefix: the
/// segments of a parsed prefix, joined by slashes, parse to those segments.
pub proof fn lemma_path_prefix_round_trip(segments: Seq<Seq<char>>)
    requires
        is_prefix_form(segments),
        crate::text::free_of(segments, '/'),
    ensures
        parse_path_prefix(join(segments, '/')) == Ok::<Seq<Seq<char>>, PathPrefixParseError>(
            segments,
        ),
{
    let text = join(segments, '/');
    crate::text::lemma_split_join(segments, '/');
    assert(text == segments[0] + seq!['/'] + join(segments.drop_first(), '/'));
    assert(text.len() > 0);
    assert(segments.last() == segments[segments.len() - 1]);
    assert(canonical(segments) == segments);
}

/// A predicate over the path of a request.
#[derive(Debug)]
#[allow(inconsistent_fields)]
pub enum PathMatch {
    /// The path is exactly `value`.
    Exact { value: String },
    /// The path begins with the segments of `value`.
    Prefix { value: PathPrefix },
    /// `value` finds a match somewhere in the path.
    Regex { value: Pattern },
}

impl PathMatch {
    /// Whether the predicate holds of `path`.
    pub open spec fn accepts(&self, path: Seq<char>) -> bool {
        match self {
            PathMatch::Exact { value } => value@ == path,
            PathMatch::Prefix { value } => prefix_matches(value@, path),
            PathMatch::Regex { value } => regex_matches(value@, path),
        }
    }

    /// Whether the predicate holds of the path `value_to_match`.
    pub fn matches(&self, value_to_match: &str) -> (r: bool)
        ensures
            r == self.accepts(value_to_match@),
    {
        match self {
            PathMatch::Exact { value } => str_eq(value.as_str(), value_to_match),
            PathMatch::Prefix { value } => value.matches(value_to_match),
            PathMatch::Regex { value } => value.is_match(value_to_match),
        }
    }
}

/// A character of an HTTP token: a letter, a digit, or one of
/// ``!#$%&'*+-.^_`|~``.
pub open spec fn is_token_char(c: char) -> bool {
    ||| 'a' <= c <= 'z'
    ||| 'A' <= c <= 'Z'
    ||| '0' <= c <= '9'
    ||| c == '!'
    ||| c == '#'
    ||| c == '$'
    ||| c == '%'
    ||| c == '&'
    ||| c == '\''
    ||| c == '*'
    ||| c == '+'
    ||| c == '-'
    ||| c == '.'
    ||| c == '^'
    ||| c == '_'
    ||| c == '`'
    ||| c == '|'
    ||| c == '~'
}

/// The name of an HTTP method: a token of at least one character.
pub open spec fn is_method_token(s: Seq<char>) -> bool {
    s.len() >= 1 && forall|i: int| 0 <= i < s.len() ==> is_token_char(#[trigger] s[i])
}

/// Why a text is no method.
#[derive(Debug, Clone, Copy, PartialEq, Eq, Structural)]
pub enum MethodParseError {
    /// The text is empty or holds a character that no token has.
    InvalidMethod,
}

/// `http::Method::from_str`, and `Method::as_str` on the method it returns.
/// The crate accepts a text as a method if and only if it is a token: not
/// empty, and every byte a token character. The method keeps the text as it
/// was given.
#[verifier::external_body]
fn method_text(s: &str) -> (r: Result<String, http::method::InvalidMethod>)
    ensures
        r is Ok <==> is_method_token(s@),
        r matches Ok(text) ==> text@ == s@,
{
    match Method::from_str(s) {
        Ok(method) => Ok(method.as_str().to_owned()),
        Err(e) => Err(e),
    }
}

/// A predicate over the method of a request: it is the method named here.
#[derive(Debug, Clone)]
pub struct MethodMatch(String);

impl View for MethodMatch {
    type V = Seq<char>;

    closed spec fn view(&self) -> Seq<char> {
        self.0@
    }
}

impl MethodMatch {
    /// Reads the name of a method. Any token is one; the names are case
    /// sensitive.
    pub fn parse(s: &str) -> (r: Result<MethodMatch, MethodParseError>)
        ensures
            r is Ok <==> is_method_token(s@),
            r matches Ok(m) ==> m@ == s@,
    {
        match method_text(s) {
            Ok(text) => Ok(MethodMatch(text)),
            Err(_) => Err(MethodParseError::InvalidMethod),
        }
    }

    /// The name of the method.
    pub fn stringify(&self) -> (r: String)
        ensures
            r@ == self@,
    {
        self.0.clone()
    }

    /// Whether `req_method` is the method named here.
    pub fn matches(&self, req_method: &str) -> (r: bool)
        ensures
            r == (self@ == req_method@),
    {
        str_eq(self.0.as_str(), req_method)
    }
}

/// The header fields of a map: for each field name that it holds, in lower
/// case, the bytes of the first value under that name.
pub uninterp spec fn header_fields(map: HeaderMap<HeaderValue>) -> Map<Seq<char>, Seq<u8>>;

/// The first value of the field `name`, whatever the case of its letters.
pub open spec fn field_value(fields: Map<Seq<char>, Seq<u8>>, name: Seq<char>) -> Option<Seq<u8>> {
    if fields.contains_key(ascii_lower(name)) {
        Some(fields[ascii_lower(name)])
    } else {
        None
    }
}

/// `http::HeaderMap::get` with a `&str` key, and `HeaderValue::as_bytes` on
/// the value it returns. The map keeps field names in lower case and looks a
/// text up by its lower-case form; a text that is no field name is under no
/// key. Of several values under one name it returns the first.
#[verifier::external_body]
pub(crate) fn first_value<'a>(map: &'a HeaderMap<HeaderValue>, name: &str) -> (r: Option<&'a [u8]>)
    ensures
        r is Some <==> field_value(header_fields(*map), name@) is Some,
        r matches Some(bytes) ==> bytes@ == field_value(header_fields(*map), name@)->0,
{
    match map.get(name) {
        Some(value) => Some(value.as_bytes()),
        None => None,
    }
}

/// A predicate over the header fields of a request.
#[derive(Debug)]
#[allow(inconsistent_fields)]
pub enum HeaderMatch {
    /// The field `name` is there and its first value is the text `value`.
    Exact { value: String, name: String },
    /// The field `name` is there and `value` finds a match in its first
    /// value, read as text.
    Regex { value: Pattern, name: String },
}

impl HeaderMatch {
    /// The name of the field that the predicate looks at.
    pub open spec fn field(&self) -> Seq<char> {
        match self {
            HeaderMatch::Exact { value, name } => name@,
            HeaderMatch::Regex { value, name } => name@,
        }
    }

    /// Whether the predicate holds of a field with the first value `found`,
    /// or of a request without the field where `found` is `None`. A value that
    /// is no UTF-8 text meets no predicate.
    pub open spec fn accepts_value(&self, found: Option<Seq<u8>>) -> bool {
        match found {
            None => false,
            Some(bytes) => valid_utf8(bytes) && match self {
                HeaderMatch::Exact { value, name } => decode_utf8(bytes) == value@,
                HeaderMatch::Regex { value, name } => regex_matches(value@, decode_utf8(bytes)),
            },
        }
    }

    /// Whether the predicate holds of the header fields `fields`.
    pub open spec fn accepts(&self, fields: Map<Seq<char>, Seq<u8>>) -> bool {
        self.accepts_value(field_value(fields, self.field()))
    }

    /// The name of the field that the predicate looks at.
    pub fn name(&self) -> (r: &str)
        ensures
            r@ == self.field(),
    {
        match self {
            HeaderMatch::Exact { value, name } => name.as_str(),
            HeaderMatch::Regex { value, name } => name.as_str(),
        }
    }

    /// Whether the predicate holds of a field whose first value is `found`.
    pub fn matches_value(&self, found: Option<&[u8]>) -> (r: bool)
        ensures
            r == self.accepts_value(
                match found {
                    Some(bytes) => Some(bytes@),
                    None => None,
                },
            ),
    {
        match found {
            None => false,
            Some(bytes) => match utf8_text(bytes) {
                None => false,
                Some(text) => match self {
                    HeaderMatch::Exact { value, name } => str_eq(text, value.as_str()),
                    HeaderMatch::Regex { value, name } => value.is_match(text),
                },
            },
        }
    }

    /// Whether the predicate holds of the header fields in `header_map`. The
    /// field is looked up without regard to the case of its name.
    pub fn matches(&self, header_map: &HeaderMap<HeaderValue>) -> (r: bool)
        ensures
            r == self.accepts(header_fields(*header_map)),
    {
        let found = first_value(header_map, self.name());
        self.matches_value(found)
    }
}

/// Whether an earlier entry of `entries` looks at the same field as the
/// entry at `i`, names compared without regard to case.
pub open spec fn shadowed(entries: Seq<HeaderMatch>, i: int) -> bool {
    exists|j: int|
        0 <= j < i && ascii_lower(#[trigger] entries[j].field()) == ascii_lower(entries[i].field())
}

/// Whether the header fields meet a list of predicates: each entry has to
/// hold, except those that an earlier entry for the same field shadows.
pub open spec fn headers_accept(entries: Seq<HeaderMatch>, fields: Map<Seq<char>, Seq<u8>>) -> bool {
    forall|i: int|
        0 <= i < entries.len() ==> shadowed(entries, i) || (#[trigger] entries[i]).accepts(fields)
}

/// Predicates over a request. Those that are there all have to hold; one
/// that is absent holds of every request.
#[derive(Debug)]
pub struct Matcher {
    pub path: Option<PathMatch>,
    pub method: Option<MethodMatch>,
    pub headers: Option<Vec<HeaderMatch>>,
}

impl Matcher {
    /// Whether the matcher holds of a request with this path, this method
    /// and these header fields.
    pub open spec fn accepts(
        &self,
        path: Seq<char>,
        method: Seq<char>,
        fields: Map<Seq<char>, Seq<u8>>,
    ) -> bool {
        &&& self.path matches Some(p) ==> p.accepts(path)
        &&& self.method matches Some(m) ==> m@ == method
        &&& self.headers matches Some(entries) ==> headers_accept(entries@, fields)
    }

    /// Whether the matcher holds of the request with the given path, method
    /// and header fields.
    pub fn matches(&self, path: &str, method: &str, headers: &HeaderMap<HeaderValue>) -> (r: bool)
        ensures
            r == self.accepts(path@, method@, header_fields(*headers)),
    {
        let path_match = match &self.path {
            Some(p) => p.matches(path),
            None => true,
        };
        let method_match = match &self.method {
            Some(m) => m.matches(method),
            None => true,
        };
        let headers_match = match &self.headers {
            Some(entries) => headers_match(entries, headers),
            None => true,
        };
        path_match && method_match && headers_match
    }
}

/// Whether an earlier entry looks at the same field as the entry at `i`.
pub fn is_shadowed(entries: &Vec<HeaderMatch>, i: usize) -> (r: bool)
    requires
        i < entries@.len(),
    ensures
        r == shadowed(entries@, i as int),
{
    let name = entries[i].name();
    let mut j: usize = 0;
    while j < i
        invariant
            j <= i < entries@.len(),
            name@ == entries@[i as int].field(),
            forall|k: int|
                0 <= k < j ==> ascii_lower(#[trigger] entries@[k].field()) != ascii_lower(name@),
        decreases i - j,
    {
        if eq_ignore_case(entries[j].name(), name) {
            return true;
        }
        j = j + 1;
    }
    false
}

/// Whether the header fields in `headers` meet the predicates `entries`.
pub fn headers_match(entries: &Vec<HeaderMatch>, headers: &HeaderMap<HeaderValue>) -> (r: bool)
    ensures
        r == headers_accept(entries@, header_fields(*headers)),
{
    let n = entries.len();
    let mut i: usize = 0;
    while i < n
        invariant
            i <= n,
            n == entries@.len(),
            forall|k: int|
                0 <= k < i ==> shadowed(entries@, k) || (#[trigger] entries@[k]).accepts(
                    header_fields(*headers),
                ),
        decreases n - i,
    {
        if !is_shadowed(entries, i) && !entries[i].matches(headers) {
            return false;
        }
        i = i + 1;
    }
    true
}

} // verus!
