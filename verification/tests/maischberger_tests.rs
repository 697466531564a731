use talkshows::maischberger::{parse_listing, parse_guests, paragraph_guest, Queries, MaischbergerCrawl};
use talkshows::crawl::{Action, Event};
use talkshows::extract::PageError;
use talkshows::time::DateTime;

const LISTING: &str = r#"<html><body>
<div class="viewA">
  <p class="ressort">Sendung vom 12.02.2020, Das Erste</p>
  <h3 class="headline"><a href="/information/talk/maischberger/sendung/folge1.html">Folge Eins</a></h3>
</div>
<div class="right"><a href="/information/talk/maischberger/sendung/index~page2.html">vor</a></div>
</body></html>"#;

const DETAIL: &str = r#"<html><body>
<p><strong>Die Gäste:</strong></p>
<p><strong>Max Muster</strong>, CDU (Bundestagsabgeordneter)</p>
<p>Ein gewöhnlicher Absatz</p>
<p><strong>Erika Beispiel</strong> (Journalistin)</p>
<p><strong> </strong></p>
</body></html>"#;

#[test]
fn maischberger_queries_compile() {
    assert!(Queries::new().is_ok());
}

#[test]
fn listing_reads_date_from_line() {
    let q = Queries::new().unwrap();
    let l = parse_listing(&q, LISTING).unwrap();
    assert_eq!(l.teasers.len(), 1);
    assert_eq!(l.teasers[0].name, "Folge Eins");
    assert_eq!(l.teasers[0].time, DateTime { year: 2020, month: 2, day: 12, hour: 22, minute: 50, second: 0 });
    assert_eq!(l.teasers[0].url, "https://www.daserste.de/information/talk/maischberger/sendung/folge1.html");
    assert_eq!(l.next.as_deref(), Some("https://www.daserste.de/information/talk/maischberger/sendung/index~page2.html"));
}

#[test]
fn listing_without_date_fails() {
    let q = Queries::new().unwrap();
    let page = LISTING.replace("12.02.2020", "morgen");
    assert_eq!(parse_listing(&q, &page).err(), Some(PageError::NoMatch));
}

#[test]
fn guests_from_bold_paragraphs() {
    let q = Queries::new().unwrap();
    let ps = parse_guests(&q, DETAIL).unwrap();
    assert_eq!(ps.len(), 2);
    assert_eq!(ps[0].name, "Max Muster");
    assert_eq!(ps[0].party.as_deref(), Some("CDU"));
    assert_eq!(ps[0].title.as_deref(), Some("Bundestagsabgeordneter"));
    assert_eq!(ps[1].name, "Erika Beispiel");
    assert_eq!(ps[1].party, None);
    assert_eq!(ps[1].title.as_deref(), Some("Journalistin"));
}

#[test]
fn paragraph_that_does_not_match_fails() {
    let q = Queries::new().unwrap();
    assert_eq!(paragraph_guest(&q, Some("Nur ein Name".to_string())).err(), Some(PageError::NoMatch));
    assert!(paragraph_guest(&q, Some("  Gäste  ".to_string())).unwrap().is_none());
    assert!(paragraph_guest(&q, None).unwrap().is_none());
}

#[test]
fn crawl_stops_when_no_next_page() {
    let (mut c, a) = MaischbergerCrawl::new().unwrap();
    assert!(matches!(a, Action::Fetch(_)));
    let page = LISTING.replace(r#"<div class="right"><a href="/information/talk/maischberger/sendung/index~page2.html">vor</a></div>"#, "");
    match c.step(Event::Page(page)) {
        Action::FetchAnyStatus(u) => assert_eq!(u, "https://www.daserste.de/information/talk/maischberger/sendung/folge1.html"),
        _ => panic!("expected the episode page"),
    }
    match c.step(Event::Page(DETAIL.to_string())) {
        Action::Lookup(u) => assert_eq!(u, "https://www.daserste.de/information/talk/maischberger/sendung/folge1.html"),
        _ => panic!("expected a lookup"),
    }
    match c.step(Event::Known(false)) {
        Action::Finish(es) => {
            assert_eq!(es.len(), 1);
            assert_eq!(es[0].participants.len(), 2);
        },
        _ => panic!("expected the end"),
    }
}
