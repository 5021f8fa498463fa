use indonesian_media_crawler::article::{DetikArticle, Timestamp};

#[test]
fn display_renders_every_field() {
    let article = DetikArticle {
        title: Some("T".to_string()),
        published_date: Some(Timestamp {
            year: 2022,
            month: 12,
            day: 10,
            hour: 13,
            minute: 19,
            second: 56,
            offset_seconds: 25200,
        }),
        description: Some("D".to_string()),
        thumbnail_url: None,
        author: Some("A".to_string()),
        keywords: vec!["k1".to_string(), "k2".to_string()],
        paragraphs: vec!["p1".to_string(), "line\nbreak".to_string()],
    };
    let expected = "Title           : T\n\
                    Author          : A\n\
                    Published Date  : 2022-12-10 13:19:56 +07:00\n\
                    Description     : D\n\
                    Thumbnail       : None\n\
                    Keywords        : k1, k2\n\
                    Paragraphs      : \n\
                    > p1\n\
                    > line\n  break\n";
    assert_eq!(article.display_string(), expected);
}

#[test]
fn display_shows_none_for_missing_fields() {
    let article = DetikArticle {
        title: None,
        published_date: None,
        description: None,
        thumbnail_url: None,
        author: None,
        keywords: vec![],
        paragraphs: vec![],
    };
    let expected = "Title           : None\n\
                    Author          : None\n\
                    Published Date  : None\n\
                    Description     : None\n\
                    Thumbnail       : None\n\
                    Keywords        : \n\
                    Paragraphs      : \n";
    assert_eq!(article.display_string(), expected);
}

#[test]
fn timestamp_display_pads_and_signs() {
    let t = Timestamp {
        year: 980,
        month: 1,
        day: 2,
        hour: 3,
        minute: 4,
        second: 5,
        offset_seconds: -3600,
    };
    assert_eq!(t.display_string(), "0980-01-02 03:04:05 -01:00");
}
