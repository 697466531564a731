use talkshows::anne_will::{parse_listing, guests_link, parse_guests, participants_from_text, Queries, AnneWillCrawl};
use talkshows::crawl::{Action, Event};
use talkshows::extract::PageError;
use talkshows::time::DateTime;

const LISTING: &str = r#"<html><body>
<div class="teaser">
  <div class="dachzeile"><a href="/"> 01.03.20 | 21:45 Uhr </a></div>
  <h2 class="headline"><a href="/annewill/sendung1.html"> Episode One </a></h2>
  <p class="teasertext"><a href="/x">Mit Olaf Scholz, Annalena Baerbock und Christian Lindner</a></p>
</div>
<div class="teaser">
  <div class="dachzeile"><a href="/">23.02.20 | 21:45 Uhr</a></div>
  <h2 class="headline"><a href="/annewill/sendung2.html">Episode Two</a></h2>
  <p class="teasertext"><a href="/y">Ein Einzelgast</a></p>
</div>
<div class="next"><a href="/annewill/archiv/index2.html">weiter</a></div>
</body></html>"#;

const GUESTS: &str = r#"<html><body>
<div class="box">
  <h3>Olaf Scholz (SPD)</h3>
  <img src="/img/scholz.jpg">
  <p><em>Bundesfinanzminister</em> Der Vizekanzler. </p>
  <p>Nur Text</p>
  <p><br><strong>Jane Doe</strong> <strong>Journalistin</strong></p>
  <p><em>Bio:</em> Sie schreibt.</p>
</div>
</body></html>"#;

fn dt(year: i32, month: u32, day: u32, hour: u32, minute: u32) -> DateTime {
    DateTime { year, month, day, hour, minute, second: 0 }
}

#[test]
fn anne_will_queries_compile() {
    assert!(Queries::new().is_ok());
}

#[test]
fn listing_gives_teasers_and_next_page() {
    let q = Queries::new().unwrap();
    let l = parse_listing(&q, LISTING).unwrap();
    assert_eq!(l.teasers.len(), 2);
    assert_eq!(l.teasers[0].name, "Episode One");
    assert_eq!(l.teasers[0].time, dt(2020, 3, 1, 21, 45));
    assert_eq!(l.teasers[0].participants_text, "Mit Olaf Scholz, Annalena Baerbock und Christian Lindner");
    assert_eq!(l.teasers[0].url, "https://daserste.ndr.de/annewill/sendung1.html");
    assert_eq!(l.teasers[1].time, dt(2020, 2, 23, 21, 45));
    assert_eq!(l.next.as_deref(), Some("https://daserste.ndr.de/annewill/archiv/index2.html"));
}

#[test]
fn listing_with_bad_time_fails() {
    let q = Queries::new().unwrap();
    let page = LISTING.replace("01.03.20 | 21:45 Uhr", "gestern");
    assert_eq!(parse_listing(&q, &page).err(), Some(PageError::BadTime));
}

#[test]
fn listing_without_teasers_is_empty() {
    let q = Queries::new().unwrap();
    let l = parse_listing(&q, "<html><body><p>leer</p></body></html>").unwrap();
    assert!(l.teasers.is_empty());
    assert!(l.next.is_none());
}

#[test]
fn guests_link_only_for_guest_pages() {
    let q = Queries::new().unwrap();
    let with = r#"<p class="teasertext"><a href="/annewill/Die-Gaeste,gaeste100.html">Gäste</a></p>"#;
    let without = r#"<p class="teasertext"><a href="/annewill/video.html">Video</a></p>"#;
    assert_eq!(guests_link(&q, with).unwrap().as_deref(), Some("https://daserste.ndr.de/annewill/Die-Gaeste,gaeste100.html"));
    assert_eq!(guests_link(&q, without).unwrap(), None);
    assert_eq!(guests_link(&q, "<p>nichts</p>").unwrap(), None);
}

#[test]
fn participants_line_with_several_names() {
    let q = Queries::new().unwrap();
    let ps = participants_from_text(&q, "Mit Olaf Scholz, Annalena Baerbock und Christian Lindner").unwrap();
    let names: Vec<&str> = ps.iter().map(|p| p.name.as_str()).collect();
    assert_eq!(names, vec!["Olaf Scholz", "Annalena Baerbock", "Christian Lindner"]);
    let ps = participants_from_text(&q, "Mit A, B, C und D").unwrap();
    let names: Vec<&str> = ps.iter().map(|p| p.name.as_str()).collect();
    assert_eq!(names, vec!["A", "B", "C", "D"]);
    assert!(ps.iter().all(|p| p.title.is_none() && p.party.is_none()));
}

#[test]
fn participants_line_without_list_is_one_guest() {
    let q = Queries::new().unwrap();
    let ps = participants_from_text(&q, "  Ein Einzelgast ").unwrap();
    assert_eq!(ps.len(), 1);
    assert_eq!(ps[0].name, "Ein Einzelgast");
}

#[test]
fn guest_page_gives_guests_in_order() {
    let q = Queries::new().unwrap();
    let ps = parse_guests(&q, GUESTS).unwrap();
    assert_eq!(ps.len(), 2);
    assert_eq!(ps[0].name, "Olaf Scholz");
    assert_eq!(ps[0].party.as_deref(), Some("SPD"));
    assert_eq!(ps[0].image_url.as_deref(), Some("https://daserste.ndr.de/img/scholz.jpg"));
    assert_eq!(ps[0].biografie.as_deref(), Some("Der Vizekanzler."));
    assert_eq!(ps[0].title, None);
    assert_eq!(ps[1].name, "Jane Doe");
    assert_eq!(ps[1].title.as_deref(), Some("Journalistin"));
    assert_eq!(ps[1].party, None);
    assert_eq!(ps[1].image_url, None);
    assert_eq!(ps[1].biografie.as_deref(), Some("Sie schreibt."));
}

#[test]
fn biography_before_any_name_fails() {
    let q = Queries::new().unwrap();
    let page = r#"<div class="box"><p><em>Bio</em> Text</p></div>"#;
    assert_eq!(parse_guests(&q, page).err(), Some(PageError::MissingName));
}

#[test]
fn guest_page_without_box_fails() {
    let q = Queries::new().unwrap();
    assert_eq!(parse_guests(&q, "<p>x</p>").err(), Some(PageError::MissingElement));
}

#[test]
fn crawl_reads_pages_until_a_stored_episode() {
    let (mut c, a) = AnneWillCrawl::new().unwrap();
    match a {
        Action::Fetch(u) => assert_eq!(u, "https://daserste.ndr.de/annewill/archiv/index.html"),
        _ => panic!("expected a fetch"),
    }
    let a = c.step(Event::Page(LISTING.to_string()));
    match a {
        Action::FetchAnyStatus(u) => assert_eq!(u, "https://daserste.ndr.de/annewill/sendung1.html"),
        _ => panic!("expected the first episode"),
    }
    let detail_with_guests = r#"<p class="teasertext"><a href="/annewill/Gaeste1.html">Gäste</a></p>"#;
    let a = c.step(Event::Page(detail_with_guests.to_string()));
    match a {
        Action::FetchAnyStatus(u) => assert_eq!(u, "https://daserste.ndr.de/annewill/Gaeste1.html"),
        _ => panic!("expected the guest page"),
    }
    let a = c.step(Event::Page(GUESTS.to_string()));
    match a {
        Action::FetchAnyStatus(u) => assert_eq!(u, "https://daserste.ndr.de/annewill/sendung2.html"),
        _ => panic!("expected the second episode"),
    }
    let a = c.step(Event::Page("<p>keine Gäste-Seite</p>".to_string()));
    match a {
        Action::Lookup(u) => assert_eq!(u, "https://daserste.ndr.de/annewill/sendung2.html"),
        _ => panic!("expected a lookup"),
    }
    let a = c.step(Event::Known(true));
    assert!(c.is_done());
    match a {
        Action::Finish(entries) => {
            assert_eq!(entries.len(), 2);
            assert_eq!(entries[0].name, "Episode Two");
            assert_eq!(entries[0].participants.len(), 1);
            assert_eq!(entries[0].participants[0].name, "Ein Einzelgast");
            assert_eq!(entries[1].name, "Episode One");
            assert_eq!(entries[1].participants.len(), 2);
        },
        _ => panic!("expected the end of the crawl"),
    }
}

#[test]
fn crawl_follows_next_page_when_not_stored() {
    let (mut c, _) = AnneWillCrawl::new().unwrap();
    let _ = c.step(Event::Page(LISTING.to_string()));
    let _ = c.step(Event::Page("<p></p>".to_string()));
    let _ = c.step(Event::Page("<p></p>".to_string()));
    let a = c.step(Event::Known(false));
    match a {
        Action::Fetch(u) => assert_eq!(u, "https://daserste.ndr.de/annewill/archiv/index2.html"),
        _ => panic!("expected the next listing page"),
    }
    assert!(!c.is_done());
}

#[test]
fn crawl_of_empty_archive_fails() {
    let (mut c, _) = AnneWillCrawl::new().unwrap();
    match c.step(Event::Page("<p></p>".to_string())) {
        Action::Fail(e) => assert_eq!(e, PageError::MissingElement),
        _ => panic!("expected a failure"),
    }
}
