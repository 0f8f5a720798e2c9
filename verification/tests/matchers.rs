use gateway::web::matchers::{
    HeaderMatch, Matcher, MethodMatch, MethodParseError, PathMatch, PathPrefix,
    PathPrefixParseError,
};
use gateway::web::pattern::{Pattern, PatternError};
use http::header::{HeaderName, HeaderValue};
use http::HeaderMap;

fn headers(fields: &[(&'static str, &[u8])]) -> HeaderMap<HeaderValue> {
    let mut map = HeaderMap::new();
    for (name, value) in fields {
        map.append(
            HeaderName::from_static(name),
            HeaderValue::from_bytes(value).unwrap(),
        );
    }
    map
}

#[test]
fn parse_fails_without_first_slash() {
    let prefix = PathPrefix::from_str("abc");

    assert!(prefix.is_err())
}

#[test]
fn parse_fails_on_consecutive_slashes() {
    let prefix = PathPrefix::from_str("/abc//");

    assert!(prefix.is_err());

    let prefix = PathPrefix::from_str("//");

    assert!(prefix.is_err());
}

#[test]
fn prefix_matches() {
    let prefix = PathPrefix::from_str("/abc").unwrap();

    assert!(prefix.matches("/abc"));
    assert!(prefix.matches("/abc/def"));
    assert!(prefix.matches("/abc/def/"));
    assert!(prefix.matches("/abc/def/ghi"));
    assert!(!prefix.matches("/abcdef"));
}

#[test]
fn trailing_slash_in_definition_is_ignored() {
    let prefix = PathPrefix::from_str("/abc/").unwrap();

    assert!(prefix.matches("/abc"));
    assert!(prefix.matches("/abc/def"));
    assert!(prefix.matches("/abc/def/"));
    assert!(prefix.matches("/abc/def/ghi"));
    assert!(!prefix.matches("/abcdef"));
}

#[test]
fn exact_matcher() {
    let matcher = PathMatch::Exact {
        value: "/exact".to_owned(),
    };

    assert!(matcher.matches("/exact"));
    assert!(!matcher.matches("/exactly"));
    assert!(!matcher.matches("/"));
}

#[test]
fn prefix_matcher() {
    let matcher = PathMatch::Prefix {
        value: PathPrefix::from_str("/prefix").unwrap(),
    };

    assert!(matcher.matches("/prefix"));
    assert!(matcher.matches("/prefix/"));
    assert!(matcher.matches("/prefix/one"));
    assert!(matcher.matches("/prefix/one/two"));
    assert!(matcher.matches("/prefix/one/three"));
    assert!(!matcher.matches("/not-prefix/one/three"));
}

#[test]
fn regex_matcher() {
    let matcher = PathMatch::Regex {
        value: Pattern::new("/prefix/[0-9]+$").unwrap(),
    };

    assert!(!matcher.matches("/prefix"));
    assert!(!matcher.matches("/prefix"));

    assert!(matcher.matches("/prefix/1"));
    assert!(matcher.matches("/prefix/123"));
    assert!(matcher.matches("/prefix/123213809124091289490"));

    assert!(!matcher.matches("prefix/1"));
    assert!(!matcher.matches("/prefix/a"));
    assert!(!matcher.matches("/prefix/123a"));
    assert!(!matcher.matches("/prefix/123foo"));
    assert!(!matcher.matches("/prefix/123/foo"));

    let matcher = PathMatch::Regex {
        value: Pattern::new("/prefix/[0-9A-Za-z-_]+/foo$").unwrap(),
    };

    assert!(matcher.matches("/prefix/123foobarbaz/foo"));
    assert!(matcher.matches("/prefix/123-foo-bar_baz/foo"));
    assert!(!matcher.matches("/prefix/123-foo-bar_baz/foobar"));

    // The search is not anchored at the start unless the pattern says so.
    assert!(matcher.matches("another/prefix/123-foo-bar_baz/foo"));
}

#[test]
fn prefix_takes_whole_segments_only() {
    let prefix = PathPrefix::from_str("/abc").unwrap();

    assert!(prefix.matches("/abc"));
    assert!(prefix.matches("/abc/"));
    assert!(prefix.matches("/abc/def"));
    assert!(!prefix.matches("/abcdef"));
    assert!(!prefix.matches("/ab"));
}

#[test]
fn path_prefix_errors() {
    assert_eq!(
        PathPrefix::from_str("").unwrap_err(),
        PathPrefixParseError::Empty
    );
    assert_eq!(
        PathPrefix::from_str("abc").unwrap_err(),
        PathPrefixParseError::NoSlashPrefix
    );
    assert_eq!(
        PathPrefix::from_str("abc//def").unwrap_err(),
        PathPrefixParseError::NoSlashPrefix
    );
    for text in ["/", "//", "///", "/abc//", "//abc", "/a//b", "/a/b///c", "/a/b//"] {
        assert_eq!(
            PathPrefix::from_str(text).unwrap_err(),
            PathPrefixParseError::ConsecutiveSlashes,
            "{}",
            text
        );
    }
}

#[test]
fn path_prefix_segments() {
    let prefix = PathPrefix::from_str("/abc/def/").unwrap();
    assert_eq!(*prefix.segments(), vec!["", "abc", "def"]);
    assert_eq!(prefix.stringify(), "/abc/def");

    let prefix = PathPrefix::from_str("/x").unwrap();
    assert_eq!(*prefix.segments(), vec!["", "x"]);
    assert_eq!(prefix.stringify(), "/x");
    assert!(PathPrefix::from_str(&prefix.stringify()).is_ok());
}

#[test]
fn prefix_needs_whole_segments() {
    let prefix = PathPrefix::from_str("/abc/def").unwrap();

    assert!(prefix.matches("/abc/def"));
    assert!(prefix.matches("/abc/def/x"));
    assert!(!prefix.matches("/abc"));
    assert!(!prefix.matches("/abc/de"));
    assert!(!prefix.matches("/abc/defg"));
    assert!(!prefix.matches("abc/def"));
    assert!(!prefix.matches(""));
}

#[test]
fn a_matching_prefix_matches_longer_paths() {
    let prefix = PathPrefix::from_str("/abc").unwrap();
    for path in ["/abc", "/abc/", "/abc/def"] {
        assert!(prefix.matches(path));
        for rest in ["/", "/rest", "//", "/a/b/c", "/\u{e9}"] {
            let longer = format!("{}{}", path, rest);
            assert!(prefix.matches(&longer), "{}", longer);
        }
    }
}

#[test]
fn method_names() {
    for name in ["GET", "POST", "get", "PURGE", "M-SEARCH", "a!#$%&'*+-.^_`|~9", "VERY-LONG-METHOD-NAME"] {
        let method = MethodMatch::parse(name).unwrap();
        assert_eq!(method.stringify(), name);
        assert!(method.matches(name));
    }
    for name in ["", "G ET", "GET ", "G/T", "G\u{e9}T", "GET\n", "(GET)", "G,T", "G:T"] {
        assert_eq!(
            MethodMatch::parse(name).unwrap_err(),
            MethodParseError::InvalidMethod,
            "{:?}",
            name
        );
    }
}

#[test]
fn method_matches_by_equality() {
    let get = MethodMatch::parse("GET").unwrap();

    assert!(get.matches("GET"));
    assert!(!get.matches("get"));
    assert!(!get.matches("POST"));
    assert!(!get.matches("GETS"));
    assert!(!get.matches(""));
}

#[test]
fn patterns() {
    assert!(Pattern::new("foo(bar").is_err());
    assert!(Pattern::new("[").is_err());

    let pattern = Pattern::new("^a+b$").unwrap();
    assert_eq!(pattern.as_str(), "^a+b$");
    assert!(pattern.is_match("aab"));
    assert!(!pattern.is_match("aabb"));
    assert!(!pattern.is_match("^a+b$"));
}

#[test]
fn what_compiling_gave_is_handed_on() {
    let refused = regex::Regex::new("foo(bar").unwrap_err();
    assert_eq!(
        Pattern::from_compiled(Err(refused)).unwrap_err(),
        PatternError::Rejected
    );
    assert_eq!(Pattern::new("foo(bar").unwrap_err(), PatternError::Rejected);

    let compiled = Pattern::new("^ab?c$");
    let pattern = Pattern::from_compiled(Ok(compiled.unwrap())).unwrap();
    assert_eq!(pattern.as_str(), "^ab?c$");
    assert!(pattern.is_match("ac"));
    assert!(pattern.is_match("abc"));
    assert!(!pattern.is_match("abbc"));
}

#[test]
fn exact_header() {
    let matcher = HeaderMatch::Exact {
        name: "x-a".to_owned(),
        value: "1".to_owned(),
    };

    assert_eq!(matcher.name(), "x-a");
    assert!(matcher.matches(&headers(&[("x-a", b"1")])));
    assert!(matcher.matches(&headers(&[("x-b", b"2"), ("x-a", b"1")])));
    assert!(!matcher.matches(&headers(&[("x-a", b"11")])));
    assert!(!matcher.matches(&headers(&[("x-a", b"")])));
    assert!(!matcher.matches(&headers(&[("x-b", b"1")])));
    assert!(!matcher.matches(&headers(&[])));
}

#[test]
fn header_names_ignore_case() {
    let matcher = HeaderMatch::Exact {
        name: "X-Request-Id".to_owned(),
        value: "abc".to_owned(),
    };

    assert!(matcher.matches(&headers(&[("x-request-id", b"abc")])));
    assert!(!matcher.matches(&headers(&[("x-request-id", b"ABC")])));
}

#[test]
fn the_first_value_of_a_header_counts() {
    let matcher = HeaderMatch::Exact {
        name: "x-a".to_owned(),
        value: "1".to_owned(),
    };

    assert!(matcher.matches(&headers(&[("x-a", b"1"), ("x-a", b"2")])));
    assert!(!matcher.matches(&headers(&[("x-a", b"2"), ("x-a", b"1")])));
}

#[test]
fn header_values_are_read_as_utf8() {
    let exact = HeaderMatch::Exact {
        name: "x-a".to_owned(),
        value: "caf\u{e9}".to_owned(),
    };
    let regex = HeaderMatch::Regex {
        name: "x-a".to_owned(),
        value: Pattern::new("^caf.$").unwrap(),
    };
    let anything = HeaderMatch::Regex {
        name: "x-a".to_owned(),
        value: Pattern::new("").unwrap(),
    };

    let utf8 = headers(&[("x-a", "caf\u{e9}".as_bytes())]);
    assert!(exact.matches(&utf8));
    assert!(regex.matches(&utf8));
    assert!(anything.matches(&utf8));

    // 0xe9 alone is Latin-1, not UTF-8: nothing matches it.
    let latin1 = headers(&[("x-a", b"caf\xe9")]);
    assert!(!exact.matches(&latin1));
    assert!(!regex.matches(&latin1));
    assert!(!anything.matches(&latin1));
}

#[test]
fn header_match_on_a_given_value() {
    let exact = HeaderMatch::Exact {
        name: "x-a".to_owned(),
        value: "1".to_owned(),
    };
    let regex = HeaderMatch::Regex {
        name: "x-a".to_owned(),
        value: Pattern::new("^[0-9]+$").unwrap(),
    };

    assert!(exact.matches_value(Some(b"1")));
    assert!(!exact.matches_value(Some(b"2")));
    assert!(!exact.matches_value(Some(b"\xff")));
    assert!(!exact.matches_value(None));
    assert!(regex.matches_value(Some(b"123")));
    assert!(!regex.matches_value(Some(b"12a")));
    assert!(!regex.matches_value(Some(b"\xff")));
    assert!(!regex.matches_value(None));
}

#[test]
fn regex_header() {
    let matcher = HeaderMatch::Regex {
        name: "user-agent".to_owned(),
        value: Pattern::new("curl/[0-9]+").unwrap(),
    };

    assert_eq!(matcher.name(), "user-agent");
    assert!(matcher.matches(&headers(&[("user-agent", b"curl/8.1")])));
    assert!(matcher.matches(&headers(&[("user-agent", b"x curl/8 y")])));
    assert!(!matcher.matches(&headers(&[("user-agent", b"wget")])));
    assert!(!matcher.matches(&headers(&[])));
}

#[test]
fn matcher_and() {
    let matcher = Matcher {
        path: Some(PathMatch::Exact {
            value: "/x".to_owned(),
        }),
        method: Some(MethodMatch::parse("GET").unwrap()),
        headers: Some(vec![HeaderMatch::Exact {
            name: "x-a".to_owned(),
            value: "1".to_owned(),
        }]),
    };

    assert!(matcher.matches("/x", "GET", &headers(&[("x-a", b"1")])));
    assert!(!matcher.matches("/x", "GET", &headers(&[])));
    assert!(!matcher.matches("/x", "POST", &headers(&[("x-a", b"1")])));
    assert!(!matcher.matches("/y", "GET", &headers(&[("x-a", b"1")])));
}

#[test]
fn absent_fields_hold_of_everything() {
    let matcher = Matcher {
        path: None,
        method: None,
        headers: None,
    };
    assert!(matcher.matches("/anything", "DELETE", &headers(&[])));

    let matcher = Matcher {
        path: None,
        method: None,
        headers: Some(vec![]),
    };
    assert!(matcher.matches("", "", &headers(&[("x", b"y")])));

    let matcher = Matcher {
        path: None,
        method: Some(MethodMatch::parse("PUT").unwrap()),
        headers: None,
    };
    assert!(matcher.matches("/a", "PUT", &headers(&[])));
    assert!(!matcher.matches("/a", "GET", &headers(&[])));
}

#[test]
fn all_header_entries_have_to_hold() {
    let matcher = Matcher {
        path: None,
        method: None,
        headers: Some(vec![
            HeaderMatch::Exact {
                name: "x-a".to_owned(),
                value: "1".to_owned(),
            },
            HeaderMatch::Exact {
                name: "x-b".to_owned(),
                value: "2".to_owned(),
            },
        ]),
    };

    assert!(matcher.matches("/", "GET", &headers(&[("x-a", b"1"), ("x-b", b"2")])));
    assert!(!matcher.matches("/", "GET", &headers(&[("x-a", b"1")])));
    assert!(!matcher.matches("/", "GET", &headers(&[("x-b", b"2")])));
    assert!(!matcher.matches("/", "GET", &headers(&[("x-a", b"1"), ("x-b", b"3")])));
}

#[test]
fn a_later_entry_for_the_same_header_is_ignored() {
    let matcher = Matcher {
        path: None,
        method: None,
        headers: Some(vec![
            HeaderMatch::Exact {
                name: "x-a".to_owned(),
                value: "1".to_owned(),
            },
            HeaderMatch::Exact {
                name: "X-A".to_owned(),
                value: "2".to_owned(),
            },
        ]),
    };

    // Only the first entry for x-a is looked at.
    assert!(matcher.matches("/", "GET", &headers(&[("x-a", b"1")])));
    assert!(!matcher.matches("/", "GET", &headers(&[("x-a", b"2")])));
}
