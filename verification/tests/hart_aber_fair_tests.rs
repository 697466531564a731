use talkshows::hart_aber_fair::{parse_listing, parse_entry, Queries, HartAberFairCrawl};
use talkshows::crawl::{Action, Event};
use talkshows::extract::PageError;
use talkshows::time::DateTime;

const LISTING: &str = r#"<html><body>
<div class="teaser"><a href="/daserste/hartaberfair/sendungen/folge1.html">1</a></div>
<div class="teaser"><a href="/daserste/hartaberfair/sendungen/folge2.html">2</a></div>
</body></html>"#;

const DETAIL: &str = r#"<html><body>
<div class="teaser"><a href="/x"><h4>Thema<span>Sendung</span> Klimawandel: Was nun? </h4><p><span class="mediaDate">18.11.2019</span></p></a></div>
<div class="modConStage"><div class="modMini">
  <div class="teaser"><a href="/g1"><h4>Dr. Erika Muster, SPD</h4><p>Ministerin | Berlin</p></a></div>
  <div class="teaser"><a href="/g2"><h4>Im Gespräch: Max Mann</h4></a></div>
</div></div>
</body></html>"#;

#[test]
fn hart_aber_fair_queries_compile() {
    assert!(Queries::new().is_ok());
}

#[test]
fn listing_gives_episode_addresses() {
    let q = Queries::new().unwrap();
    let links = parse_listing(&q, LISTING).unwrap();
    assert_eq!(links, vec![
        "https://www1.wdr.de/daserste/hartaberfair/sendungen/folge1.html".to_string(),
        "https://www1.wdr.de/daserste/hartaberfair/sendungen/folge2.html".to_string(),
    ]);
}

#[test]
fn listing_link_without_target_fails() {
    let q = Queries::new().unwrap();
    assert_eq!(parse_listing(&q, r#"<div class="teaser"><a>1</a></div>"#).err(), Some(PageError::MissingAttribute));
}

#[test]
fn episode_page_gives_time_title_and_guests() {
    let q = Queries::new().unwrap();
    let e = parse_entry(&q, "https://www1.wdr.de/f".to_string(), DETAIL).unwrap();
    assert_eq!(e.time, DateTime { year: 2019, month: 11, day: 18, hour: 21, minute: 0, second: 0 });
    assert_eq!(e.name, "Klimawandel: Was nun?");
    assert_eq!(e.url, "https://www1.wdr.de/f");
    assert_eq!(e.participants.len(), 2);
    assert_eq!(e.participants[0].name, "Erika Muster");
    assert_eq!(e.participants[0].party.as_deref(), Some("SPD"));
    assert_eq!(e.participants[0].title.as_deref(), Some("Ministerin  Berlin"));
    assert_eq!(e.participants[1].name, "Max Mann");
    assert_eq!(e.participants[1].party, None);
    assert_eq!(e.participants[1].title, None);
}

#[test]
fn episode_page_without_date_or_title_uses_defaults() {
    let q = Queries::new().unwrap();
    let e = parse_entry(&q, "u".to_string(), "<html><body></body></html>").unwrap();
    assert_eq!(e.time, DateTime { year: 2020, month: 5, day: 25, hour: 21, minute: 0, second: 0 });
    assert_eq!(e.name, "Kinder und Eltern zuletzt - scheitern Schulen an Corona?");
    assert!(e.participants.is_empty());
}

#[test]
fn crawl_hands_over_episodes_last_first() {
    let (mut c, _) = HartAberFairCrawl::new().unwrap();
    match c.step(Event::Page(LISTING.to_string())) {
        Action::Fetch(u) => assert!(u.ends_with("folge1.html")),
        _ => panic!("expected the first episode"),
    }
    match c.step(Event::Page(DETAIL.to_string())) {
        Action::Fetch(u) => assert!(u.ends_with("folge2.html")),
        _ => panic!("expected the second episode"),
    }
    match c.step(Event::Page("<html></html>".to_string())) {
        Action::Finish(es) => {
            assert_eq!(es.len(), 2);
            assert!(es[0].url.ends_with("folge2.html"));
            assert!(es[1].url.ends_with("folge1.html"));
        },
        _ => panic!("expected the end"),
    }
    assert!(c.is_done());
}
