use indonesian_media_crawler::article::Timestamp;
use indonesian_media_crawler::detik::{DetikCrawler, DetikScraper};
use indonesian_media_crawler::page::PageDocument;
use indonesian_media_crawler::scraper::{Scraper, ScrapingResult};
use indonesian_media_crawler::{Crawler, CrawlerResult};

fn strings(v: &[&str]) -> Vec<String> {
    v.iter().map(|s| s.to_string()).collect()
}

fn empty_page() -> PageDocument {
    PageDocument {
        content_type: None,
        title: None,
        description: None,
        publish_date: None,
        thumbnail_url: None,
        author: None,
        keywords: None,
        body_paragraphs: vec![],
        links: vec![],
    }
}

fn article_page() -> PageDocument {
    PageDocument {
        content_type: Some("singlepagenews".to_string()),
        title: Some("Polisi soal Pistol di Kasus Cekcok Pemobil vs Pemotor".to_string()),
        description: Some("Polisi menjelaskan soal pistol.".to_string()),
        publish_date: Some("2022/12/10 13:19:56".to_string()),
        thumbnail_url: Some("https://akcdn.detik.net.id/visual/x.jpeg?w=650".to_string()),
        author: Some("Mulia Budi".to_string()),
        keywords: Some("pria berpistol, cekcok ,viral".to_string()),
        body_paragraphs: strings(&[
            "Paragraf   pertama dengan <em>penekanan</em>.",
            "<strong>Lihat juga ini</strong>",
            "Baris satu<br>baris dua",
            "Kutipan dari <a href=\"https://www.detik.com/x\">tautan</a> ini.",
            "Kutipan dari tautan ini.",
            "   ",
        ]),
        links: vec![],
    }
}

#[test]
fn classification_needs_the_news_content_type() {
    let c = DetikCrawler;
    assert!(!c.can_be_scrapped(&empty_page()));

    let mut page = empty_page();
    page.content_type = Some("gallery".to_string());
    assert!(!c.can_be_scrapped(&page));

    page.content_type = Some("singlepagenews".to_string());
    assert!(c.can_be_scrapped(&page));
}

#[test]
fn links_only_page_yields_links() {
    let c = DetikCrawler;
    let mut page = empty_page();
    page.links = strings(&["https://news.detik.com/a", "https://news.detik.com/b"]);
    match c.crawl(&page) {
        CrawlerResult::Links(links) => {
            assert_eq!(links, strings(&["https://news.detik.com/a", "https://news.detik.com/b"]));
        }
        CrawlerResult::DocumentAndLinks(_, _) => panic!("page is not extractable"),
    }
}

#[test]
fn link_discovery_filters_normalizes_sorts_and_dedups() {
    let c = DetikCrawler;
    let mut page = empty_page();
    page.links = strings(&[
        "  https://sport.detik.com/z/  ",
        "https://news.detik.com/a",
        "https://news.detik.com/a/",
        "#fragment",
        "",
        "http://news.detik.com/insecure",
        "https://other.example.com/page",
        "https://evil.example.com/detik.com/path",
        "https://www.detik.com",
    ]);
    let links = c.extract_links(&page);
    assert_eq!(
        links,
        strings(&[
            "https://news.detik.com/a",
            "https://sport.detik.com/z",
            "https://www.detik.com",
        ])
    );
}

#[test]
fn extraction_collects_metadata_and_cleans_paragraphs() {
    let c = DetikCrawler;
    let page = article_page();
    let (doc, links) = match c.crawl(&page) {
        CrawlerResult::DocumentAndLinks(doc, links) => (doc, links),
        CrawlerResult::Links(_) => panic!("page is extractable"),
    };
    assert_eq!(links, Vec::<String>::new());
    assert_eq!(
        doc.title,
        Some("Polisi soal Pistol di Kasus Cekcok Pemobil vs Pemotor".to_string())
    );
    assert_eq!(doc.description, Some("Polisi menjelaskan soal pistol.".to_string()));
    assert_eq!(doc.author, Some("Mulia Budi".to_string()));
    assert_eq!(
        doc.thumbnail_url,
        Some("https://akcdn.detik.net.id/visual/x.jpeg?w=650".to_string())
    );
    assert_eq!(
        doc.published_date,
        Some(Timestamp {
            year: 2022,
            month: 12,
            day: 10,
            hour: 13,
            minute: 19,
            second: 56,
            offset_seconds: 25200,
        })
    );
    assert_eq!(doc.keywords, strings(&["pria berpistol", "cekcok", "viral"]));
    assert_eq!(
        doc.paragraphs,
        strings(&[
            "Paragraf pertama dengan penekanan.",
            "Baris satu\nbaris dua",
            "Kutipan dari tautan ini.",
        ])
    );
}

#[test]
fn unparsable_publish_date_is_dropped() {
    let c = DetikCrawler;
    let mut page = article_page();
    page.publish_date = Some("yesterday at noon".to_string());
    match c.crawl(&page) {
        CrawlerResult::DocumentAndLinks(doc, _) => assert_eq!(doc.published_date, None),
        CrawlerResult::Links(_) => panic!("page is extractable"),
    }
}

#[test]
fn keywords_missing_means_no_keywords() {
    let c = DetikCrawler;
    let mut page = article_page();
    page.keywords = None;
    match c.crawl(&page) {
        CrawlerResult::DocumentAndLinks(doc, _) => assert_eq!(doc.keywords, Vec::<String>::new()),
        CrawlerResult::Links(_) => panic!("page is extractable"),
    }
}

#[test]
fn crawler_skips_syndication_note_and_strips_rules() {
    let c = DetikCrawler;
    let mut page = article_page();
    page.body_paragraphs = strings(&[
        "<strong>Artikel ini telah naik di detikJateng</strong>",
        "Isi berita<strong>-----</strong>",
    ]);
    match c.crawl(&page) {
        CrawlerResult::DocumentAndLinks(doc, _) => {
            assert_eq!(doc.paragraphs, strings(&["Isi berita"]));
        }
        CrawlerResult::Links(_) => panic!("page is extractable"),
    }
}

#[test]
fn scraper_keeps_syndication_note() {
    let s = DetikScraper {};
    let mut page = article_page();
    page.body_paragraphs = strings(&["<strong>Artikel ini telah naik di detikJateng</strong>"]);
    match s.scrap(&page) {
        ScrapingResult::DocumentAndLinks(doc, _) => {
            assert_eq!(
                doc.paragraphs,
                strings(&["<strong>Artikel ini telah naik di detikJateng</strong>"])
            );
        }
        ScrapingResult::Links(_) => panic!("page is extractable"),
    }
}

#[test]
fn scraper_matches_crawler_on_plain_pages() {
    let s = DetikScraper {};
    let page = article_page();
    assert!(s.can_be_scrapped(&page));
    assert_eq!(s.scrap_links(&page), Vec::<String>::new());
    match s.scrap(&page) {
        ScrapingResult::DocumentAndLinks(doc, _) => {
            assert_eq!(
                doc.paragraphs,
                strings(&[
                    "Paragraf pertama dengan penekanan.",
                    "Baris satu\nbaris dua",
                    "Kutipan dari tautan ini.",
                ])
            );
        }
        ScrapingResult::Links(_) => panic!("page is extractable"),
    }
}
