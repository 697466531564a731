use talkshows::zdf::{search_url, parse_search_page, Queries, SearchAction, ZdfCrawl, ZdfSearch, ZdfShow};
use talkshows::markus_lanz;
use talkshows::maybrit_illner;
use talkshows::crawl::{Action, Event};
use talkshows::extract::PageError;
use talkshows::time::DateTime;

const SEARCH: &str = r#"<html><body>
<article class="b-content-teaser-item"><span class="teaser-cat-brand-ellipsis"> maybrit illner </span><a href="/politik/maybrit-illner/folge-1-100.html">1</a></article>
<article class="b-content-teaser-item"><span class="teaser-cat-brand-ellipsis">ZDFheute</span><a href="/nachrichten/x.html">x</a></article>
<article class="b-content-teaser-item"><span class="teaser-cat-brand-ellipsis">maybrit illner</span><a href="/politik/maybrit-illner/folge-2-100.html">2</a></article>
<div class="load-more-container"><a href="/suche?q=maybrit+illner&page=2">mehr</a></div>
</body></html>"#;

const ILLNER: &str = r#"<html><body>
<div class="other-infos"><span class="teaser-info">Talk</span><span class="teaser-info">14.05.2020</span></div>
<div class="title-wrap"><h1 class="big-headline"> Corona und die Folgen </h1></div>
<div class="guest-info">
  <div class="guest-name"><button>Im Einzegespräch: Jens Spahn (CDU)</button></div>
  <div class="guest-title"><p>Bundesgesundheitsminister</p></div>
  <div class="desc-text"><p> Der Minister ... </p></div>
</div>
<div class="guest-info">
  <div class="guest-name"><button>Im Einzel-Gespräch: Anna Beispiel</button></div>
</div>
</body></html>"#;

const LANZ: &str = r#"<html><body>
<div class="other-infos"><span class="teaser-info">07.05.2020</span></div>
<div class="title-wrap"><h1 class="big-headline">Markus Lanz vom 7. Mai</h1></div>
<div class="b-post-content"><div class="grid-container"><div class="large-8"><p><b>Max Muster (Virologe)</b></p><p>Er forscht.</p><p><b>Erika Beispiel</b></p><p>Sie schreibt.</p></div></div></div>
</body></html>"#;

#[test]
fn zdf_queries_compile() {
    assert!(Queries::new().is_ok());
    assert!(markus_lanz::Queries::new().is_ok());
    assert!(maybrit_illner::Queries::new().is_ok());
}

#[test]
fn search_url_joins_words_with_plus() {
    assert_eq!(
        search_url("maybrit illner"),
        "https://www.zdf.de/suche?q=maybrit+illner&synth=true&sender=ZDF&contentTypes=episode"
    );
}

#[test]
fn search_page_keeps_only_the_brand() {
    let q = Queries::new().unwrap();
    let p = parse_search_page(&q, SEARCH, "maybrit illner").unwrap();
    assert_eq!(p.results, vec![
        "https://www.zdf.de/politik/maybrit-illner/folge-1-100.html".to_string(),
        "https://www.zdf.de/politik/maybrit-illner/folge-2-100.html".to_string(),
    ]);
    assert_eq!(p.next.as_deref(), Some("https://www.zdf.de/suche?q=maybrit+illner&page=2"));
}

#[test]
fn empty_search_page_has_no_next_page() {
    let q = Queries::new().unwrap();
    let page = r#"<div class="load-more-container"><a href="/suche?page=3">mehr</a></div>"#;
    let p = parse_search_page(&q, page, "maybrit illner").unwrap();
    assert!(p.results.is_empty());
    assert!(p.next.is_none());
}

#[test]
fn search_result_without_brand_fails() {
    let q = Queries::new().unwrap();
    let page = r#"<article class="b-content-teaser-item"><a href="/x">x</a></article>"#;
    assert_eq!(parse_search_page(&q, page, "maybrit illner").err(), Some(PageError::MissingElement));
}

#[test]
fn illner_episode_page() {
    let q = maybrit_illner::Queries::new().unwrap();
    let e = maybrit_illner::parse_entry(&q, "u".to_string(), ILLNER).unwrap();
    assert_eq!(e.time, DateTime { year: 2020, month: 5, day: 14, hour: 22, minute: 15, second: 0 });
    assert_eq!(e.name, "Corona und die Folgen");
    assert_eq!(e.participants.len(), 2);
    assert_eq!(e.participants[0].name, "Jens Spahn");
    assert_eq!(e.participants[0].party.as_deref(), Some("CDU"));
    assert_eq!(e.participants[0].title.as_deref(), Some("Bundesgesundheitsminister"));
    assert_eq!(e.participants[0].biografie.as_deref(), Some("Der Minister ..."));
    assert_eq!(e.participants[1].name, "Anna Beispiel");
    assert_eq!(e.participants[1].party, None);
    assert_eq!(e.participants[1].title, None);
}

#[test]
fn lanz_episode_page_pairs_names_and_biographies() {
    let q = markus_lanz::Queries::new().unwrap();
    let e = markus_lanz::parse_entry(&q, "u".to_string(), LANZ).unwrap();
    assert_eq!(e.time, DateTime { year: 2020, month: 5, day: 7, hour: 23, minute: 15, second: 0 });
    assert_eq!(e.name, "Markus Lanz vom 7. Mai");
    assert_eq!(e.participants.len(), 2);
    assert_eq!(e.participants[0].name, "Max Muster");
    assert_eq!(e.participants[0].title.as_deref(), Some("Virologe"));
    assert_eq!(e.participants[0].biografie.as_deref(), Some("Er forscht."));
    assert_eq!(e.participants[1].name, "Erika Beispiel");
    assert_eq!(e.participants[1].title, None);
}

#[test]
fn lanz_biography_without_name_fails() {
    let q = markus_lanz::Queries::new().unwrap();
    let lines = vec!["!!!", "bio"];
    assert_eq!(markus_lanz::guests_from_lines(&q, &lines).err(), Some(PageError::MissingName));
}

#[test]
fn zdf_search_collects_all_pages() {
    let (mut s, a) = ZdfSearch::new("maybrit illner", Vec::new()).unwrap();
    match a {
        SearchAction::Fetch(u) => assert_eq!(
            u,
            "https://www.zdf.de/suche?q=maybrit+illner&synth=true&sender=ZDF&contentTypes=episode"
        ),
        _ => panic!("expected the first search page"),
    }
    match s.step(SEARCH.to_string()) {
        SearchAction::Fetch(u) => assert_eq!(u, "https://www.zdf.de/suche?q=maybrit+illner&page=2"),
        _ => panic!("expected the next search page"),
    }
    assert!(!s.is_done());
    match s.step("<html></html>".to_string()) {
        SearchAction::Finish(found) => assert_eq!(
            found,
            vec![
                "https://www.zdf.de/politik/maybrit-illner/folge-1-100.html".to_string(),
                "https://www.zdf.de/politik/maybrit-illner/folge-2-100.html".to_string(),
            ]
        ),
        _ => panic!("expected the end of the search"),
    }
    assert!(s.is_done());
}

#[test]
fn zdf_search_for_any_term_keeps_earlier_results() {
    let (mut s, a) = ZdfSearch::new("a b", vec!["https://www.zdf.de/alt".to_string()]).unwrap();
    match a {
        SearchAction::Fetch(u) => assert_eq!(
            u,
            "https://www.zdf.de/suche?q=a+b&synth=true&sender=ZDF&contentTypes=episode"
        ),
        _ => panic!("expected the first search page"),
    }
    let page = "<div class='b-content-teaser-item'><span class='teaser-cat-brand-ellipsis'> a b </span><a href='/x'>1</a></div><div class='b-content-teaser-item'><span class='teaser-cat-brand-ellipsis'>c</span><a href='/y'>2</a></div>";
    match s.step(page.to_string()) {
        SearchAction::Finish(found) => assert_eq!(
            found,
            vec!["https://www.zdf.de/alt".to_string(), "https://www.zdf.de/x".to_string()]
        ),
        _ => panic!("a page without a next link ends the search"),
    }
}

#[test]
fn zdf_search_fails_on_result_without_brand() {
    let (mut s, _) = ZdfSearch::new("a b", Vec::new()).unwrap();
    let page = "<div class='b-content-teaser-item'><a href='/x'>1</a></div>";
    match s.step(page.to_string()) {
        SearchAction::Fail(e) => assert_eq!(e, PageError::MissingElement),
        _ => panic!("expected a failure"),
    }
    assert!(s.is_done());
}

#[test]
fn zdf_crawl_reads_episodes_found() {
    let links = vec![
        "https://www.zdf.de/politik/maybrit-illner/folge-1-100.html".to_string(),
        "https://www.zdf.de/politik/maybrit-illner/folge-2-100.html".to_string(),
    ];
    let (mut c, a) = ZdfCrawl::new(ZdfShow::MaybritIllner, links).unwrap();
    match a {
        Action::Fetch(u) => assert_eq!(u, "https://www.zdf.de/politik/maybrit-illner/folge-1-100.html"),
        _ => panic!("expected the first episode"),
    }
    match c.step(Event::Page(ILLNER.to_string())) {
        Action::Fetch(u) => assert_eq!(u, "https://www.zdf.de/politik/maybrit-illner/folge-2-100.html"),
        _ => panic!("expected the second episode"),
    }
    match c.step(Event::Page(ILLNER.to_string())) {
        Action::Finish(es) => {
            assert_eq!(es.len(), 2);
            assert!(es[0].url.ends_with("folge-2-100.html"));
        },
        _ => panic!("expected the end"),
    }
    assert!(c.is_done());
}

#[test]
fn zdf_crawl_without_links_ends_at_once() {
    let (c, a) = ZdfCrawl::new(ZdfShow::MarkusLanz, Vec::new()).unwrap();
    match a {
        Action::Finish(es) => assert!(es.is_empty()),
        _ => panic!("expected the end"),
    }
    assert!(c.is_done());
}

#[test]
fn illner_guest_line_with_unknown_prefix_fails() {
    let q = maybrit_illner::Queries::new().unwrap();
    let page = ILLNER.replace("Im Einzegespräch: ", "Im Einzelgespräch: ");
    assert_eq!(maybrit_illner::parse_entry(&q, "u".to_string(), &page).err(), Some(PageError::NoMatch));
}
