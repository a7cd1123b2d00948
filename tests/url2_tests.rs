use url::Url;
use url2::Url2;

#[test]
fn it_can_display() {
    assert_eq!("test:foo", &Url2::parse("test:foo").to_string());
    assert_eq!("test:foo", &Url2::parse("test:foo").into_string());
}

#[test]
fn it_can_parse() {
    let url_a = Url2::try_parse("test:bob").unwrap();
    let url_b = Url2::parse("test:bob");
    let url_c = Url2::try_parse(&format!("{}:{}", "test", "bob")).unwrap();
    let url_d = Url2::parse(&format!("{}:{}", "test", "bob"));
    assert_eq!(url_a, url_b);
    assert_eq!(url_a, url_c);
    assert_eq!(url_a, url_d);
}

#[test]
fn it_can_convert_from() {
    let url = Url2::default();
    let url: Url = url.into();
    let url: Url2 = url.into();
    let url: Url = url.into();
    let url: Url2 = (&url).into();
    assert_eq!("none:", url.as_str());
}

#[test]
fn it_can_edit_query_unique() {
    let mut url = Url2::default();
    url.query_unique()
        .set_pair("a", "test1")
        .set_pair("b", "test2");
    assert!("none:?a=test1&b=test2" == url.as_str() || "none:?b=test2&a=test1" == url.as_str());
    assert_eq!(true, url.query_unique_contains_key("a"));
    assert_eq!(false, url.query_unique_contains_key("c"));
    assert_eq!(Some("test1"), url.query_unique_get("a"));
    assert_eq!(None, url.query_unique_get("c"));
}

#[test]
fn it_can_try_parse_macro() {
    assert_eq!(
        "test://bob/?a=42",
        &Url2::try_parse(&format!("{}://{}?a={}", "test", "bob", 42))
            .unwrap()
            .to_string(),
    );
    assert_eq!(
        "test://bob/?a=42",
        &Url2::try_parse(&format!("{}://{}?a={}", "test", "bob", 42,))
            .unwrap()
            .to_string(),
    );
}

#[test]
fn it_can_parse_macro() {
    assert_eq!(
        "test://bob/?a=42",
        &Url2::parse(&format!("{}://{}?a={}", "test", "bob", 42)).to_string(),
    );
    assert_eq!(
        "test://bob/?a=42",
        &Url2::parse(&format!("{}://{}?a={}", "test", "bob", 42,)).to_string(),
    );
}
