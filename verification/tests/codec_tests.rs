use indonesian_media_crawler::article::{DetikArticle, Timestamp};
use indonesian_media_crawler::codec::{decode_article, encode_article};

fn strings(v: &[&str]) -> Vec<String> {
    v.iter().map(|s| s.to_string()).collect()
}

fn sample_article() -> DetikArticle {
    DetikArticle {
        title: Some("title".to_string()),
        published_date: Some(Timestamp {
            year: 2022,
            month: 12,
            day: 10,
            hour: 13,
            minute: 19,
            second: 56,
            offset_seconds: 25200,
        }),
        description: Some("description".to_string()),
        thumbnail_url: None,
        author: Some("author".to_string()),
        keywords: strings(&["k1", "k2"]),
        paragraphs: strings(&["p1", "p2"]),
    }
}

#[test]
fn encode_joins_keywords_and_paragraphs() {
    let row = encode_article(" https://www.detik.com/a ", &sample_article());
    assert_eq!(row.id, "https://www.detik.com/a");
    assert_eq!(row.keywords, "k1|k2");
    assert_eq!(row.paragraphs, "p1\np2");
    assert_eq!(row.title, Some("title".to_string()));
    assert_eq!(row.author, Some("author".to_string()));
    assert_eq!(row.thumbnail_url, None);
}

#[test]
fn article_round_trip_is_field_for_field() {
    let article = sample_article();
    let row = encode_article("https://www.detik.com/a", &article);
    let back = decode_article(&row);
    assert_eq!(back, article);
}

#[test]
fn round_trip_with_no_keywords() {
    let mut article = sample_article();
    article.keywords = vec![];
    let row = encode_article("u", &article);
    assert_eq!(row.keywords, "");
    let back = decode_article(&row);
    assert_eq!(back.keywords, Vec::<String>::new());
    assert_eq!(back, article);
}

#[test]
fn paragraph_with_newline_does_not_round_trip() {
    // The storage form joins paragraphs with newlines, so a paragraph that
    // itself holds one is split on read-back.
    let mut article = sample_article();
    article.paragraphs = strings(&["line one\nline two"]);
    let row = encode_article("u", &article);
    let back = decode_article(&row);
    assert_eq!(back.paragraphs, strings(&["line one", "line two"]));
}
