use patrol::selector::{Selector, SelectorParseError};
use patrol::url::{Url, UrlParseError};

#[test]
fn url_accepts_an_absolute_url_and_keeps_it() {
    for text in ["https://example.com", "http://localhost:8080/a?b=c#d", "about:blank"] {
        let url = Url::new(text.to_owned()).unwrap();
        assert_eq!(url.as_str(), text);
        assert_eq!(url.clone().into_string(), text);
    }
}

#[test]
fn url_rejects_what_is_no_absolute_url() {
    for text in ["", "not a url", "/relative/path", "example.com", "http://"] {
        assert_eq!(Url::new(text.to_owned()), Err(UrlParseError));
    }
}

#[test]
fn url_is_not_normalised() {
    let url = Url::new("HTTP://Example.COM".to_owned()).unwrap();
    assert_eq!(url.as_str(), "HTTP://Example.COM");
}

#[test]
fn url_error_has_its_text() {
    assert_eq!(UrlParseError.to_string(), "failed to parse the URL.");
}

#[test]
fn selector_accepts_a_css_selector_and_keeps_it() {
    for text in ["p", "div > p.note", "#main, .side", "a[href^='http']", "li:nth-child(2)"] {
        let selector = Selector::new(text.to_owned()).unwrap();
        assert_eq!(selector.as_str(), text);
        assert_eq!(selector.clone().into_string(), text);
    }
}

#[test]
fn selector_rejects_what_is_no_css_selector() {
    for text in ["", "div >", "p..x", "[", "a:::b"] {
        assert_eq!(Selector::new(text.to_owned()), Err(SelectorParseError));
    }
}

#[test]
fn selector_error_has_its_text() {
    assert_eq!(SelectorParseError.to_string(), "failed to parse the selector.");
}

#[test]
fn url_and_selector_turn_into_their_text() {
    let url = Url::new("https://example.com/a".to_owned()).unwrap();
    let text: String = url.into();
    assert_eq!(text, "https://example.com/a");
    let selector = Selector::new("div > p".to_owned()).unwrap();
    let text: String = selector.into();
    assert_eq!(text, "div > p");
}
