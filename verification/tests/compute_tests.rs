use talkshows::compute::Compute;
use talkshows::extract::selection;
use talkshows::html::{parse_document, parse_selector, Scope};

const PAGE: &str = r#"<html><body><p class="a"><a href="/eins"> Eins </a></p><p class="a"><a href="/zwei">Zwei</a></p></body></html>"#;

#[test]
fn to_url_leaves_an_exhausted_selection_as_it_was() {
    let doc = parse_document(PAGE);
    let sel = parse_selector(".a > a").unwrap();
    let mut s = selection(&Scope::Doc(&doc), &sel);
    assert_eq!(s.to_url("https://example.org").as_deref(), Some("https://example.org/eins"));
    assert_eq!(s.to_url("https://example.org").as_deref(), Some("https://example.org/zwei"));
    assert!(s.is_empty());
    assert_eq!(s.to_url("https://example.org"), None);
    assert!(s.is_empty());
    assert!(s.peek().is_none());
}

#[test]
fn to_text_leaves_an_exhausted_selection_as_it_was() {
    let doc = parse_document(PAGE);
    let sel = parse_selector(".a > a").unwrap();
    let mut s = selection(&Scope::Doc(&doc), &sel);
    assert_eq!(s.to_text(), Some("Eins"));
    assert_eq!(s.to_text(), Some("Zwei"));
    assert_eq!(s.to_text(), None);
    assert!(s.is_empty());
}
