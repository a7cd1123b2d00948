use url2::Url2ErrorKind;
use url2::Url2;

#[test]
fn round_trip_without_query() {
    for s in ["test:foo", "https://example.com/a/b", "test://bob/path#frag"] {
        let v = Url2::parse(s);
        let again = Url2::parse(&v.to_string());
        assert_eq!(v, again);
        assert_eq!(v.as_str(), again.as_str());
    }
}

#[test]
fn parse_normalizes_through_url() {
    assert_eq!("https://example.com/", Url2::parse("HTTPS://Example.COM").as_str());
}

#[test]
fn last_occurrence_wins() {
    let mut v = Url2::parse("none:?a=1&a=2");
    assert_eq!(Some("2"), v.query_unique_get("a"));
    let view = v.query_unique();
    assert_eq!(Some("2"), view.get("a"));
    view.close();
    assert_eq!("none:?a=2", v.as_str());
}

#[test]
fn write_back_on_close() {
    let mut v = Url2::default();
    v.query_unique().set_pair("a", "1").set_pair("b", "2").close();
    assert!("none:?a=1&b=2" == v.as_str() || "none:?b=2&a=1" == v.as_str());
}

#[test]
fn later_set_pair_wins() {
    let mut v = Url2::default();
    v.query_unique().set_pair("a", "1").set_pair("a", "2");
    assert_eq!("none:?a=2", v.as_str());
}

#[test]
fn read_only_view_keeps_query() {
    let mut v = Url2::parse("none:?a=1&b=2");
    let view = v.query_unique();
    assert_eq!(Some("1"), view.get("a"));
    assert!(view.contains_key("b"));
    view.close();
    assert!("none:?a=1&b=2" == v.as_str() || "none:?b=2&a=1" == v.as_str());
    assert_eq!(Some("1"), v.query_unique_get("a"));
    assert_eq!(Some("2"), v.query_unique_get("b"));
    v.query_unique().close();
    assert!("none:?a=1&b=2" == v.as_str() || "none:?b=2&a=1" == v.as_str());
}

#[test]
fn remove_then_close() {
    let mut v = Url2::parse("scheme:?a=1&b=2");
    let mut view = v.query_unique();
    assert_eq!(Some("2".to_string()), view.remove("b"));
    view.close();
    assert_eq!("scheme:?a=1", v.as_str());
}

#[test]
fn remove_without_close() {
    let mut v = Url2::parse("https://test.com/?a=1&b=2");
    v.query_unique().remove("b");
    assert_eq!("https://test.com/?a=1", v.as_str());
}

#[test]
fn remove_absent_key() {
    let mut v = Url2::parse("none:?a=1");
    let mut view = v.query_unique();
    assert_eq!(None, view.remove("zz"));
    view.close();
    assert_eq!("none:?a=1", v.as_str());
}

#[test]
fn absent_key() {
    let mut v = Url2::parse("none:?a=1");
    assert_eq!(None, v.query_unique_get("b"));
    assert!(!v.query_unique_contains_key("b"));
    assert!(v.query_unique_contains_key("a"));
    let mut empty = Url2::default();
    assert_eq!(None, empty.query_unique_get("a"));
    assert!(!empty.query_unique_contains_key("a"));
    assert_eq!("none:", empty.as_str());
}

#[test]
fn parse_failure_is_an_error() {
    let r = Url2::try_parse("");
    assert!(r.is_err());
    let e = r.unwrap_err();
    assert!(matches!(e.kind(), Url2ErrorKind::UrlParseError(url::ParseError::RelativeUrlWithoutBase)));
    assert!(matches!(e.into_kind(), Url2ErrorKind::UrlParseError(url::ParseError::RelativeUrlWithoutBase)));
}

#[test]
fn other_parse_failures() {
    assert!(Url2::try_parse("/relative/path").is_err());
    assert!(Url2::try_parse("http://").is_err());
}

#[test]
fn default_is_placeholder() {
    assert_eq!("none:", Url2::default().as_str());
    assert_eq!("none:", String::from(Url2::default()));
}

#[test]
fn view_insert_and_pairs() {
    let mut v = Url2::parse("none:?x=1");
    let mut view = v.query_unique();
    assert_eq!(Some("1".to_string()), view.insert("x", "2"));
    assert_eq!(None, view.insert("y", "3"));
    let mut pairs = view.pairs();
    pairs.sort();
    assert_eq!(vec![("x".to_string(), "2".to_string()), ("y".to_string(), "3".to_string())], pairs);
    view.close();
    assert!("none:?x=2&y=3" == v.as_str() || "none:?y=3&x=2" == v.as_str());
}

#[test]
fn values_are_encoded_and_decoded() {
    let mut v = Url2::default();
    v.query_unique().set_pair("a b", "c&d");
    assert_eq!("none:?a+b=c%26d", v.as_str());
    let mut w = Url2::parse("none:?a%20b=c%26d");
    assert_eq!(Some("c&d"), w.query_unique_get("a b"));
}

#[test]
fn stale_cache_after_raw_query_change() {
    let mut v = Url2::parse("none:?a=1");
    assert!(v.query_unique_contains_key("a"));
    v.as_url_mut().set_query(Some("b=2"));
    assert_eq!("none:?b=2", v.as_str());
    assert!(!v.query_unique_contains_key("b"));
    assert!(v.query_unique_contains_key("a"));
}

#[test]
fn fragment_is_kept() {
    let mut v = Url2::parse("https://test.com/p?a=1#top");
    v.query_unique().set_pair("b", "2");
    assert!(v.as_str() == "https://test.com/p?a=1&b=2#top" || v.as_str() == "https://test.com/p?b=2&a=1#top");
}

#[test]
fn equality_ignores_cache() {
    let mut a = Url2::parse("none:?a=1");
    let b = Url2::parse("none:?a=1");
    assert!(a.query_unique_contains_key("a"));
    assert_eq!(a, b);
    assert_ne!(Url2::parse("test:bob"), Url2::parse("test:bo"));
    assert_eq!("test", Url2::parse("test:bob").as_url().scheme());
}

#[test]
fn error_from_kind() {
    let e = url2::Url2Error::from(Url2ErrorKind::UrlParseError(url::ParseError::EmptyHost));
    assert!(matches!(e.kind(), Url2ErrorKind::UrlParseError(url::ParseError::EmptyHost)));
    let f = url2::Url2Error::from(url::ParseError::InvalidPort);
    assert!(matches!(f.into_kind(), Url2ErrorKind::UrlParseError(url::ParseError::InvalidPort)));
}

#[test]
fn clone_keeps_url() {
    let mut a = Url2::parse("none:?k=v");
    assert!(a.query_unique_contains_key("k"));
    let b = a.clone();
    assert_eq!(a, b);
    assert_eq!("none:?k=v", b.as_str());
}

#[test]
fn compares_with_parsed_url() {
    let v = Url2::parse("https://example.com/x");
    let u = url::Url::parse("https://example.com/x").unwrap();
    assert!(v == u);
    let w = url::Url::parse("https://example.com/y").unwrap();
    assert!(v != w);
}
