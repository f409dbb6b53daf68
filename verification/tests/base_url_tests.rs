use postmarkee::{check_base_url, BaseUrl};
use url::Url;

#[test]
fn test_default() {
    let url = BaseUrl::default().as_url().clone();
    assert_eq!(url, "https://api.postmarkapp.com/");
}

#[test]
fn test_not_http_url() {
    let url: Url = "wss://example.com".parse().unwrap();
    let error = BaseUrl::try_from(url).unwrap_err();
    assert_eq!(
        error.message(),
        "expecting an HTTP URL, was `wss://example.com/`"
    );
}

#[test]
fn test_not_base_url() {
    let url: Url = "data:text/plain,Stuff".parse().unwrap();
    let error = BaseUrl::try_from(url).unwrap_err();
    assert_eq!(
        error.message(),
        "expecting a base URL, was `data:text/plain,Stuff`"
    );
}

#[test]
fn accepts_http_and_https() {
    let url: Url = "http://localhost:8080/".parse().unwrap();
    let base = BaseUrl::try_from(url).unwrap();
    assert_eq!(base.as_url().as_str(), "http://localhost:8080/");

    let url: Url = "https://api.postmarkapp.com".parse().unwrap();
    assert!(BaseUrl::try_from(url).is_ok());
}

#[test]
fn check_decides_on_scheme_and_base() {
    assert_eq!(check_base_url(false, &"http".to_string()), None);
    assert_eq!(check_base_url(false, &"https".to_string()), None);
    assert_eq!(
        check_base_url(false, &"ftp".to_string()),
        Some("expecting an HTTP URL")
    );
    assert_eq!(
        check_base_url(false, &"wss".to_string()),
        Some("expecting an HTTP URL")
    );
    assert_eq!(
        check_base_url(true, &"http".to_string()),
        Some("expecting a base URL")
    );
    assert_eq!(
        check_base_url(true, &"data".to_string()),
        Some("expecting a base URL")
    );
}

#[test]
fn into_inner_gives_the_serialization() {
    let url: Url = "https://example.org/api".parse().unwrap();
    let base = BaseUrl::try_from(url).unwrap();
    assert_eq!(base.into_inner(), "https://example.org/api");
}
