//! The detik.com extractor: classifies a fetched page, extracts the
//! structured article, and discovers same-site links.
//!
//! The text transformations the site's markup calls for — collapsing
//! whitespace, unwrapping anchors, and the like — go through the regex
//! engine; URL hosts come from the url parser; the publish date from the
//! chrono parser. Each of those calls is a fixed function of its text
//! argument, named below and relied upon as such.

use vstd::prelude::*;
use itertools::Itertools;
use chrono::{Datelike, Timelike};
use crate::{Article, Crawler, CrawlerResult};
use crate::article::{DetikArticle, Timestamp};
use crate::page::PageDocument;
use crate::scraper::{Scraper, ScrapingResult};
use crate::text::{
    clone_opt_string, contains_seq, contains_str, drop_while_back, drop_while_front, replace_char,
    replace_char_spec, split_char, split_spec, starts_with_str, str_eq, trim, trim_spec,
    trim_end_matches_char, trim_start_matches_char, ends_with_str,
};

verus! {

/// The host component of `url` rendered as text, where the text parses as
/// an absolute URL with a host.
pub uninterp spec fn host_of(url: Seq<char>) -> Option<Seq<char>>;

/// Relies on url::Url::parse and url::Url::host: the host component of the
/// URL, rendered as text, or None where the text does not parse as an
/// absolute URL or has no host. A fixed function of the text alone.
#[verifier::external_body]
fn url_host(s: &str) -> (r: Option<String>)
    ensures
        r.deep_view() == host_of(s@),
{
    match url::Url::parse(s) {
        Ok(u) => u.host().map(|h| h.to_string()),
        Err(_) => None,
    }
}

/// The publish-date metadata parsed as a calendar instant: year, month,
/// day, hour, minute, second, UTC offset in seconds.
pub uninterp spec fn parsed_publish_date(s: Seq<char>) -> Option<(i32, u8, u8, u8, u8, u8, i32)>;

/// Relies on chrono's DateTime::parse_from_str with the format
/// `%Y/%m/%d %H:%M:%S %z`, the text first given the site's fixed `+0700`
/// offset; the parsed instant's calendar fields are copied out. A fixed
/// function of the text alone.
#[verifier::external_body]
fn parse_publish_date(s: &str) -> (r: Option<Timestamp>)
    ensures
        (match r {
            Some(t) => parsed_publish_date(s@) == Some(
                (t.year, t.month, t.day, t.hour, t.minute, t.second, t.offset_seconds),
            ),
            None => parsed_publish_date(s@) is None,
        }),
{
    match chrono::DateTime::parse_from_str(&format!("{} +0700", s), "%Y/%m/%d %H:%M:%S %z") {
        Ok(d) => Some(Timestamp {
            year: d.year(),
            month: d.month() as u8,
            day: d.day() as u8,
            hour: d.hour() as u8,
            minute: d.minute() as u8,
            second: d.second() as u8,
            offset_seconds: d.offset().local_minus_utc(),
        }),
        Err(_) => None,
    }
}

/// The link list sorted ascending with duplicates removed.
pub uninterp spec fn sorted_distinct_of(links: Seq<Seq<char>>) -> Seq<Seq<char>>;

/// Lexicographic order on character sequences, code point by code point:
/// the order strings sort in.
pub open spec fn lex_le(a: Seq<char>, b: Seq<char>) -> bool
    decreases a.len(),
{
    if a.len() == 0 {
        true
    } else if b.len() == 0 {
        false
    } else if a.first() == b.first() {
        lex_le(a.drop_first(), b.drop_first())
    } else {
        (a.first() as u32) < (b.first() as u32)
    }
}

/// Whether the sequences appear in ascending lexicographic order.
pub open spec fn lex_sorted(l: Seq<Seq<char>>) -> bool {
    forall|i: int, j: int| 0 <= i < j < l.len() ==> lex_le(#[trigger] l[i], #[trigger] l[j])
}

/// Relies on itertools' sorted and dedup: the elements in ascending order,
/// consecutive duplicates removed — after sorting, exactly the distinct
/// elements of the input, ascending. String order is byte order of the
/// UTF-8 encoding, which is code point order.
#[verifier::external_body]
fn sorted_dedup(v: Vec<String>) -> (r: Vec<String>)
    ensures
        r.deep_view() == sorted_distinct_of(v.deep_view()),
        r.deep_view().to_set() == v.deep_view().to_set(),
        r.deep_view().no_duplicates(),
        lex_sorted(r.deep_view()),
{
    v.into_iter().sorted().dedup().collect()
}

/// Every maximal run of whitespace replaced by one space.
pub uninterp spec fn whitespace_collapsed(s: Seq<char>) -> Seq<char>;

/// Relies on regex::Regex::replace_all with the fixed pattern `\s+`,
/// replacement one space. A fixed function of the text alone.
#[verifier::external_body]
fn collapse_whitespace(s: &str) -> (r: String)
    ensures
        r@ == whitespace_collapsed(s@),
{
    regex::Regex::new(r"\s+").unwrap().replace_all(s, " ").into_owned()
}

/// Every `<em>` and `</em>` tag removed.
pub uninterp spec fn em_tags_stripped(s: Seq<char>) -> Seq<char>;

/// Relies on regex::Regex::replace_all with the fixed pattern
/// `(<em>|</em>)`, replacement empty. A fixed function of the text alone.
#[verifier::external_body]
fn strip_em_tags(s: &str) -> (r: String)
    ensures
        r@ == em_tags_stripped(s@),
{
    regex::Regex::new(r"(<em>|</em>)").unwrap().replace_all(s, "").into_owned()
}

/// Every `<br>` tag replaced by a newline.
pub uninterp spec fn line_breaks_replaced(s: Seq<char>) -> Seq<char>;

/// Relies on regex::Regex::replace_all with the fixed pattern `<br>`,
/// replacement a newline. A fixed function of the text alone.
#[verifier::external_body]
fn replace_line_breaks(s: &str) -> (r: String)
    ensures
        r@ == line_breaks_replaced(s@),
{
    regex::Regex::new(r"<br>").unwrap().replace_all(s, "\n").into_owned()
}

/// Every anchor element replaced by its inner text.
pub uninterp spec fn anchors_unwrapped(s: Seq<char>) -> Seq<char>;

/// Relies on regex::Regex::replace_all with the fixed pattern
/// `<a.*?>(?P<text>.*?)</a>`, replacement the named `text` group. A fixed
/// function of the text alone.
#[verifier::external_body]
fn unwrap_anchors(s: &str) -> (r: String)
    ensures
        r@ == anchors_unwrapped(s@),
{
    regex::Regex::new(r"<a.*?>(?P<text>.*?)</a>").unwrap().replace_all(s, "${text}").into_owned()
}

/// Every bold horizontal rule (`<strong>---</strong>`) replaced by a space.
pub uninterp spec fn strong_rules_stripped(s: Seq<char>) -> Seq<char>;

/// Relies on regex::Regex::replace_all with the fixed pattern
/// `<strong>-+</strong>`, replacement one space. A fixed function of the
/// text alone.
#[verifier::external_body]
fn strip_strong_rules(s: &str) -> (r: String)
    ensures
        r@ == strong_rules_stripped(s@),
{
    regex::Regex::new(r"<strong>-+</strong>").unwrap().replace_all(s, " ").into_owned()
}

/// A page qualifies for structured extraction exactly when its content-type
/// metadata says it is a single news page.
pub open spec fn spec_can_be_scrapped(doc: PageDocument) -> bool {
    match doc.content_type {
        Some(s) => s@ == "singlepagenews"@,
        None => false,
    }
}

/// The keyword list: the comma-separated metadata split apart, each entry
/// trimmed; no metadata, no keywords.
pub open spec fn spec_keywords(raw: Option<Seq<char>>) -> Seq<Seq<char>> {
    match raw {
        Some(s) => split_spec(s, ',').map_values(|k: Seq<char>| trim_spec(k)),
        None => Seq::empty(),
    }
}

/// Whether a trimmed anchor target is a candidate link: non-empty, not a
/// page-internal fragment, textually same-site, absolute https, and parsed
/// to a host that is same-site.
pub open spec fn link_keep(t: Seq<char>) -> bool {
    &&& t.len() > 0
    &&& t.first() != '#'
    &&& contains_seq(t, "detik.com"@)
    &&& "https://"@.is_prefix_of(t)
    &&& (match host_of(t) {
        Some(h) => contains_seq(h, "detik.com"@),
        None => false,
    })
}

/// The candidate links among the anchor targets, in order: each target
/// trimmed, kept when it passes the filter, trailing slashes stripped.
pub open spec fn link_candidates(hrefs: Seq<Seq<char>>) -> Seq<Seq<char>>
    decreases hrefs.len(),
{
    if hrefs.len() == 0 {
        Seq::empty()
    } else {
        let t = trim_spec(hrefs.first());
        let rest = link_candidates(hrefs.drop_first());
        if link_keep(t) {
            seq![drop_while_back(t, |c: char| c == '/')] + rest
        } else {
            rest
        }
    }
}

/// The links a page yields: the candidate anchors, sorted and with
/// duplicates removed.
pub open spec fn spec_extract_links(doc: PageDocument) -> Seq<Seq<char>> {
    sorted_distinct_of(link_candidates(doc.links.deep_view()))
}

fn extract_links_page(doc: &PageDocument) -> (r: Vec<String>)
    ensures
        r.deep_view() == spec_extract_links(*doc),
        r.deep_view().no_duplicates(),
        lex_sorted(r.deep_view()),
        r.deep_view().to_set() == link_candidates(doc.links.deep_view()).to_set(),
{
    let ghost hdv = doc.links.deep_view();
    let mut out: Vec<String> = Vec::new();
    let mut i: usize = 0;
    proof {
        assert(hdv.skip(0) =~= hdv);
        assert(out.deep_view() + link_candidates(hdv) =~= link_candidates(hdv));
    }
    while i < doc.links.len()
        invariant
            0 <= i <= doc.links@.len(),
            hdv == doc.links.deep_view(),
            link_candidates(hdv) == out.deep_view() + link_candidates(hdv.skip(i as int)),
        decreases doc.links@.len() - i,
    {
        proof {
            assert(hdv[i as int] == doc.links@[i as int]@);
            assert(hdv.skip(i as int).first() == hdv[i as int]);
            assert(hdv.skip(i as int).drop_first() =~= hdv.skip(i + 1));
        }
        let t = trim(doc.links[i].as_str());
        let ghost tv = trim_spec(hdv[i as int]);
        if t.unicode_len() > 0 && t.get_char(0) != '#' && contains_str(t, "detik.com")
            && starts_with_str(t, "https://") {
            match url_host(t) {
                Some(h) => {
                    if contains_str(h.as_str(), "detik.com") {
                        proof {
                            assert(host_of(tv) == Some(h@));
                            assert(link_keep(tv));
                        }
                        let ghost prev = out.deep_view();
                        out.push(String::from_str(trim_end_matches_char(t, '/')));
                        proof {
                            let x = drop_while_back(tv, |c: char| c == '/');
                            assert(out.deep_view() =~= prev.push(x));
                            assert(prev + (seq![x] + link_candidates(hdv.skip(i + 1)))
                                =~= out.deep_view() + link_candidates(hdv.skip(i + 1)));
                        }
                    } else {
                        proof {
                            assert(host_of(tv) == Some(h@));
                            assert(!link_keep(tv));
                        }
                    }
                },
                None => {
                    proof {
                        assert(host_of(tv) is None);
                        assert(!link_keep(tv));
                    }
                },
            }
        } else {
            proof {
                assert(!link_keep(tv));
            }
        }
        i = i + 1;
    }
    proof {
        assert(hdv.skip(hdv.len() as int) =~= Seq::<Seq<char>>::empty());
        assert(out.deep_view() + link_candidates(Seq::empty()) =~= out.deep_view());
    }
    sorted_dedup(out)
}

/// One raw body paragraph put through the full cleaning pipeline, or
/// nothing when it is one of the boilerplate shapes the extractor skips or
/// nothing of it remains.
pub open spec fn cleaned_paragraph(p: Seq<char>) -> Option<Seq<char>> {
    let flat = replace_char_spec(trim_spec(p), '\n', ' ');
    if "<strong>Lihat juga"@.is_prefix_of(flat) || ("<a"@.is_prefix_of(flat)
        && "</a>"@.is_suffix_of(flat) && contains_seq(flat, "embed"@)) {
        None
    } else {
        let cleaned = trim_spec(
            drop_while_front(
                strong_rules_stripped(
                    anchors_unwrapped(
                        line_breaks_replaced(em_tags_stripped(whitespace_collapsed(flat))),
                    ),
                ),
                |c: char| c == '\n',
            ),
        );
        if "<strong>Artikel ini telah naik"@.is_prefix_of(cleaned) {
            None
        } else if cleaned.len() == 0 {
            None
        } else {
            Some(cleaned)
        }
    }
}

/// The cleaned paragraphs of a page body, in order, the skipped ones left
/// out.
pub open spec fn cleaned_paragraphs(raw: Seq<Seq<char>>) -> Seq<Seq<char>>
    decreases raw.len(),
{
    if raw.len() == 0 {
        Seq::empty()
    } else {
        match cleaned_paragraph(raw.first()) {
            Some(p) => seq![p] + cleaned_paragraphs(raw.drop_first()),
            None => cleaned_paragraphs(raw.drop_first()),
        }
    }
}

/// Runs of equal adjacent paragraphs collapsed to their first, continuing
/// after `prev`.
pub open spec fn dedup_rec(ps: Seq<Seq<char>>, prev: Seq<char>) -> Seq<Seq<char>>
    decreases ps.len(),
{
    if ps.len() == 0 {
        Seq::empty()
    } else if ps.first() == prev {
        dedup_rec(ps.drop_first(), prev)
    } else {
        seq![ps.first()] + dedup_rec(ps.drop_first(), ps.first())
    }
}

/// Runs of equal adjacent paragraphs collapsed to their first.
pub open spec fn dedup_adjacent(ps: Seq<Seq<char>>) -> Seq<Seq<char>> {
    if ps.len() == 0 {
        ps
    } else {
        seq![ps.first()] + dedup_rec(ps.drop_first(), ps.first())
    }
}

/// The paragraph list of an extracted article.
pub open spec fn spec_paragraphs(raw: Seq<Seq<char>>) -> Seq<Seq<char>> {
    dedup_adjacent(cleaned_paragraphs(raw))
}

fn clean_paragraph(p: &str) -> (r: Option<String>)
    ensures
        r.deep_view() == cleaned_paragraph(p@),
{
    let flat = replace_char(trim(p), '\n', ' ');
    let f = flat.as_str();
    if starts_with_str(f, "<strong>Lihat juga") {
        return None;
    }
    if starts_with_str(f, "<a") && ends_with_str(f, "</a>") && contains_str(f, "embed") {
        return None;
    }
    let c1 = collapse_whitespace(f);
    let c2 = strip_em_tags(c1.as_str());
    let c3 = replace_line_breaks(c2.as_str());
    let c4 = unwrap_anchors(c3.as_str());
    let c5 = strip_strong_rules(c4.as_str());
    let c6 = trim(trim_start_matches_char(c5.as_str(), '\n'));
    if starts_with_str(c6, "<strong>Artikel ini telah naik") {
        return None;
    }
    if c6.unicode_len() == 0 {
        return None;
    }
    Some(String::from_str(c6))
}

fn extract_paragraphs(raw: &Vec<String>) -> (r: Vec<String>)
    ensures
        r.deep_view() == spec_paragraphs(raw.deep_view()),
{
    let ghost rdv = raw.deep_view();
    let mut collected: Vec<String> = Vec::new();
    let mut i: usize = 0;
    proof {
        assert(rdv.skip(0) =~= rdv);
        assert(collected.deep_view() + cleaned_paragraphs(rdv) =~= cleaned_paragraphs(rdv));
    }
    while i < raw.len()
        invariant
            0 <= i <= raw@.len(),
            rdv == raw.deep_view(),
            cleaned_paragraphs(rdv) == collected.deep_view() + cleaned_paragraphs(
                rdv.skip(i as int),
            ),
        decreases raw@.len() - i,
    {
        proof {
            assert(rdv[i as int] == raw@[i as int]@);
            assert(rdv.skip(i as int).first() == rdv[i as int]);
            assert(rdv.skip(i as int).drop_first() =~= rdv.skip(i + 1));
        }
        match clean_paragraph(raw[i].as_str()) {
            Some(p) => {
                let ghost prev = collected.deep_view();
                let ghost x = cleaned_paragraph(rdv[i as int])->0;
                collected.push(p);
                proof {
                    assert(collected.deep_view() =~= prev.push(x));
                    assert(prev + (seq![x] + cleaned_paragraphs(rdv.skip(i + 1)))
                        =~= collected.deep_view() + cleaned_paragraphs(rdv.skip(i + 1)));
                }
            },
            None => {
            },
        }
        i = i + 1;
    }
    proof {
        assert(rdv.skip(rdv.len() as int) =~= Seq::<Seq<char>>::empty());
        assert(collected.deep_view() + cleaned_paragraphs(Seq::empty())
            =~= collected.deep_view());
    }
    // Collapse runs of equal adjacent paragraphs.
    let ghost cdv = collected.deep_view();
    let mut out: Vec<String> = Vec::new();
    if collected.len() == 0 {
        proof {
            assert(out.deep_view() =~= spec_paragraphs(rdv));
        }
        return out;
    }
    let mut j: usize = 1;
    out.push(collected[0].clone());
    proof {
        assert(out.deep_view() =~= seq![cdv[0]]);
        assert(cdv.skip(1) =~= cdv.drop_first());
        assert(seq![cdv.first()] + dedup_rec(cdv.drop_first(), cdv.first())
            =~= out.deep_view() + dedup_rec(cdv.skip(1), out.deep_view().last()));
    }
    while j < collected.len()
        invariant
            1 <= j <= collected@.len(),
            cdv == collected.deep_view(),
            out@.len() >= 1,
            dedup_adjacent(cdv) == out.deep_view() + dedup_rec(
                cdv.skip(j as int),
                out.deep_view().last(),
            ),
            cdv.len() >= 1,
        decreases collected@.len() - j,
    {
        proof {
            assert(cdv[j as int] == collected@[j as int]@);
            assert(cdv.skip(j as int).first() == cdv[j as int]);
            assert(cdv.skip(j as int).drop_first() =~= cdv.skip(j + 1));
            assert(out.deep_view().last() == out@[out@.len() - 1]@);
        }
        let last_idx = out.len() - 1;
        if str_eq(collected[j].as_str(), out[last_idx].as_str()) {
        } else {
            let ghost prev = out.deep_view();
            out.push(collected[j].clone());
            proof {
                assert(out.deep_view() =~= prev.push(cdv[j as int]));
                assert(out.deep_view().last() == cdv[j as int]);
                assert(prev + (seq![cdv[j as int]] + dedup_rec(cdv.skip(j + 1), cdv[j as int]))
                    =~= out.deep_view() + dedup_rec(cdv.skip(j + 1), cdv[j as int]));
            }
        }
        j = j + 1;
    }
    proof {
        assert(cdv.skip(cdv.len() as int) =~= Seq::<Seq<char>>::empty());
        assert(out.deep_view() + dedup_rec(Seq::empty(), out.deep_view().last())
            =~= out.deep_view());
    }
    out
}

fn can_be_scrapped_page(doc: &PageDocument) -> (r: bool)
    ensures
        r == spec_can_be_scrapped(*doc),
{
    match &doc.content_type {
        Some(s) => str_eq(s.as_str(), "singlepagenews"),
        None => false,
    }
}

/// How an article's parsed publish date relates to the raw metadata it came
/// from.
pub open spec fn publish_date_matches(raw: Option<Seq<char>>, parsed: Option<Timestamp>) -> bool {
    match raw {
        None => parsed is None,
        Some(s) => match parsed {
            Some(t) => parsed_publish_date(s) == Some(
                (t.year, t.month, t.day, t.hour, t.minute, t.second, t.offset_seconds),
            ),
            None => parsed_publish_date(s) is None,
        },
    }
}

/// The extracted article's fields, each pinned to the page it came from.
pub open spec fn article_matches_page(a: DetikArticle, doc: PageDocument) -> bool {
    &&& a.title.deep_view() == doc.title.deep_view()
    &&& a.description.deep_view() == doc.description.deep_view()
    &&& a.thumbnail_url.deep_view() == doc.thumbnail_url.deep_view()
    &&& a.author.deep_view() == doc.author.deep_view()
    &&& publish_date_matches(doc.publish_date.deep_view(), a.published_date)
    &&& a.keywords.deep_view() == spec_keywords(doc.keywords.deep_view())
    &&& a.paragraphs.deep_view() == spec_paragraphs(doc.body_paragraphs.deep_view())
}

fn extract_keywords(raw: &Option<String>) -> (r: Vec<String>)
    ensures
        r.deep_view() == spec_keywords(raw.deep_view()),
{
    match raw {
        Some(s) => {
            let pieces = split_char(s.as_str(), ',');
            let ghost mapped = pieces.deep_view().map_values(|k: Seq<char>| trim_spec(k));
            let mut out: Vec<String> = Vec::new();
            let mut i: usize = 0;
            proof {
                assert(out.deep_view() =~= mapped.take(0));
            }
            while i < pieces.len()
                invariant
                    0 <= i <= pieces@.len(),
                    mapped == pieces.deep_view().map_values(|k: Seq<char>| trim_spec(k)),
                    out.deep_view() == mapped.take(i as int),
                decreases pieces@.len() - i,
            {
                let ghost prev = out.deep_view();
                proof {
                    assert(pieces.deep_view()[i as int] == pieces@[i as int]@);
                    assert(mapped[i as int] == trim_spec(pieces@[i as int]@));
                }
                out.push(String::from_str(trim(pieces[i].as_str())));
                proof {
                    assert(out.deep_view() =~= prev.push(mapped[i as int]));
                    assert(mapped.take(i + 1) =~= mapped.take(i as int).push(mapped[i as int]));
                }
                i = i + 1;
            }
            proof {
                assert(mapped.take(pieces@.len() as int) =~= mapped);
            }
            out
        },
        None => {
            let out: Vec<String> = Vec::new();
            proof {
                assert(out.deep_view() =~= Seq::<Seq<char>>::empty());
            }
            out
        },
    }
}

/// The crawler for the detik.com site family.
#[derive(Debug)]
pub struct DetikCrawler;

impl Crawler for DetikCrawler {
    type Document = DetikArticle;

    fn can_be_scrapped(&self, doc: &PageDocument) -> (r: bool)
        ensures
            r == spec_can_be_scrapped(*doc),
    {
        can_be_scrapped_page(doc)
    }

    fn extract_links(&self, doc: &PageDocument) -> (r: Vec<String>)
        ensures
            r.deep_view() == spec_extract_links(*doc),
            r.deep_view().no_duplicates(),
            lex_sorted(r.deep_view()),
            r.deep_view().to_set() == link_candidates(doc.links.deep_view()).to_set(),
    {
        extract_links_page(doc)
    }

    fn crawl(&self, doc: &PageDocument) -> (r: CrawlerResult<DetikArticle>)
        ensures
            (match r {
                CrawlerResult::Links(links) => !spec_can_be_scrapped(*doc)
                    && links.deep_view() == spec_extract_links(*doc),
                CrawlerResult::DocumentAndLinks(a, links) => spec_can_be_scrapped(*doc)
                    && links.deep_view() == spec_extract_links(*doc)
                    && article_matches_page(a, *doc),
            }),
    {
        let links = extract_links_page(doc);
        if !can_be_scrapped_page(doc) {
            return CrawlerResult::Links(links);
        }
        let published_date = match &doc.publish_date {
            Some(s) => parse_publish_date(s.as_str()),
            None => None,
        };
        let article = DetikArticle {
            title: clone_opt_string(&doc.title),
            published_date,
            description: clone_opt_string(&doc.description),
            thumbnail_url: clone_opt_string(&doc.thumbnail_url),
            author: clone_opt_string(&doc.author),
            keywords: extract_keywords(&doc.keywords),
            paragraphs: extract_paragraphs(&doc.body_paragraphs),
        };
        CrawlerResult::DocumentAndLinks(article, links)
    }
}

/// One raw body paragraph cleaned as the basic scraper does: the same
/// pipeline as `cleaned_paragraph`, without the bold-rule replacement and
/// without the syndication-note filter.
pub open spec fn scraper_cleaned_paragraph(p: Seq<char>) -> Option<Seq<char>> {
    let flat = replace_char_spec(trim_spec(p), '\n', ' ');
    if "<strong>Lihat juga"@.is_prefix_of(flat) || ("<a"@.is_prefix_of(flat)
        && "</a>"@.is_suffix_of(flat) && contains_seq(flat, "embed"@)) {
        None
    } else {
        let cleaned = trim_spec(
            drop_while_front(
                anchors_unwrapped(
                    line_breaks_replaced(em_tags_stripped(whitespace_collapsed(flat))),
                ),
                |c: char| c == '\n',
            ),
        );
        if cleaned.len() == 0 {
            None
        } else {
            Some(cleaned)
        }
    }
}

/// The basic scraper's cleaned paragraphs of a page body, in order.
pub open spec fn scraper_cleaned_paragraphs(raw: Seq<Seq<char>>) -> Seq<Seq<char>>
    decreases raw.len(),
{
    if raw.len() == 0 {
        Seq::empty()
    } else {
        match scraper_cleaned_paragraph(raw.first()) {
            Some(p) => seq![p] + scraper_cleaned_paragraphs(raw.drop_first()),
            None => scraper_cleaned_paragraphs(raw.drop_first()),
        }
    }
}

/// The basic scraper's paragraph list.
pub open spec fn spec_scraper_paragraphs(raw: Seq<Seq<char>>) -> Seq<Seq<char>> {
    dedup_adjacent(scraper_cleaned_paragraphs(raw))
}

/// The basic scraper's extracted article, each field pinned to the page it
/// came from.
pub open spec fn scraper_article_matches_page(a: DetikArticle, doc: PageDocument) -> bool {
    &&& a.title.deep_view() == doc.title.deep_view()
    &&& a.description.deep_view() == doc.description.deep_view()
    &&& a.thumbnail_url.deep_view() == doc.thumbnail_url.deep_view()
    &&& a.author.deep_view() == doc.author.deep_view()
    &&& publish_date_matches(doc.publish_date.deep_view(), a.published_date)
    &&& a.keywords.deep_view() == spec_keywords(doc.keywords.deep_view())
    &&& a.paragraphs.deep_view() == spec_scraper_paragraphs(doc.body_paragraphs.deep_view())
}

fn scraper_clean_paragraph(p: &str) -> (r: Option<String>)
    ensures
        r.deep_view() == scraper_cleaned_paragraph(p@),
{
    let flat = replace_char(trim(p), '\n', ' ');
    let f = flat.as_str();
    if starts_with_str(f, "<strong>Lihat juga") {
        return None;
    }
    if starts_with_str(f, "<a") && ends_with_str(f, "</a>") && contains_str(f, "embed") {
        return None;
    }
    let c1 = collapse_whitespace(f);
    let c2 = strip_em_tags(c1.as_str());
    let c3 = replace_line_breaks(c2.as_str());
    let c4 = unwrap_anchors(c3.as_str());
    let c5 = trim(trim_start_matches_char(c4.as_str(), '\n'));
    if c5.unicode_len() == 0 {
        return None;
    }
    Some(String::from_str(c5))
}

fn scraper_extract_paragraphs(raw: &Vec<String>) -> (r: Vec<String>)
    ensures
        r.deep_view() == spec_scraper_paragraphs(raw.deep_view()),
{
    let ghost rdv = raw.deep_view();
    let mut collected: Vec<String> = Vec::new();
    let mut i: usize = 0;
    proof {
        assert(rdv.skip(0) =~= rdv);
        assert(collected.deep_view() + scraper_cleaned_paragraphs(rdv)
            =~= scraper_cleaned_paragraphs(rdv));
    }
    while i < raw.len()
        invariant
            0 <= i <= raw@.len(),
            rdv == raw.deep_view(),
            scraper_cleaned_paragraphs(rdv) == collected.deep_view()
                + scraper_cleaned_paragraphs(rdv.skip(i as int)),
        decreases raw@.len() - i,
    {
        proof {
            assert(rdv[i as int] == raw@[i as int]@);
            assert(rdv.skip(i as int).first() == rdv[i as int]);
            assert(rdv.skip(i as int).drop_first() =~= rdv.skip(i + 1));
        }
        match scraper_clean_paragraph(raw[i].as_str()) {
            Some(p) => {
                let ghost prev = collected.deep_view();
                let ghost x = scraper_cleaned_paragraph(rdv[i as int])->0;
                collected.push(p);
                proof {
                    assert(collected.deep_view() =~= prev.push(x));
                    assert(prev + (seq![x] + scraper_cleaned_paragraphs(rdv.skip(i + 1)))
                        =~= collected.deep_view() + scraper_cleaned_paragraphs(rdv.skip(i + 1)));
                }
            },
            None => {
            },
        }
        i = i + 1;
    }
    proof {
        assert(rdv.skip(rdv.len() as int) =~= Seq::<Seq<char>>::empty());
        assert(collected.deep_view() + scraper_cleaned_paragraphs(Seq::empty())
            =~= collected.deep_view());
    }
    let ghost cdv = collected.deep_view();
    let mut out: Vec<String> = Vec::new();
    if collected.len() == 0 {
        proof {
            assert(out.deep_view() =~= spec_scraper_paragraphs(rdv));
        }
        return out;
    }
    let mut j: usize = 1;
    out.push(collected[0].clone());
    proof {
        assert(out.deep_view() =~= seq![cdv[0]]);
        assert(cdv.skip(1) =~= cdv.drop_first());
        assert(seq![cdv.first()] + dedup_rec(cdv.drop_first(), cdv.first())
            =~= out.deep_view() + dedup_rec(cdv.skip(1), out.deep_view().last()));
    }
    while j < collected.len()
        invariant
            1 <= j <= collected@.len(),
            cdv == collected.deep_view(),
            out@.len() >= 1,
            dedup_adjacent(cdv) == out.deep_view() + dedup_rec(
                cdv.skip(j as int),
                out.deep_view().last(),
            ),
            cdv.len() >= 1,
        decreases collected@.len() - j,
    {
        proof {
            assert(cdv[j as int] == collected@[j as int]@);
            assert(cdv.skip(j as int).first() == cdv[j as int]);
            assert(cdv.skip(j as int).drop_first() =~= cdv.skip(j + 1));
            assert(out.deep_view().last() == out@[out@.len() - 1]@);
        }
        let last_idx = out.len() - 1;
        if str_eq(collected[j].as_str(), out[last_idx].as_str()) {
        } else {
            let ghost prev = out.deep_view();
            out.push(collected[j].clone());
            proof {
                assert(out.deep_view() =~= prev.push(cdv[j as int]));
                assert(out.deep_view().last() == cdv[j as int]);
                assert(prev + (seq![cdv[j as int]] + dedup_rec(cdv.skip(j + 1), cdv[j as int]))
                    =~= out.deep_view() + dedup_rec(cdv.skip(j + 1), cdv[j as int]));
            }
        }
        j = j + 1;
    }
    proof {
        assert(cdv.skip(cdv.len() as int) =~= Seq::<Seq<char>>::empty());
        assert(out.deep_view() + dedup_rec(Seq::empty(), out.deep_view().last())
            =~= out.deep_view());
    }
    out
}

/// The basic scraper for the detik.com site family.
#[derive(Debug)]
pub struct DetikScraper {}

impl Scraper for DetikScraper {
    type Document = DetikArticle;

    fn can_be_scrapped(&self, doc: &PageDocument) -> (r: bool)
        ensures
            r == spec_can_be_scrapped(*doc),
    {
        can_be_scrapped_page(doc)
    }

    fn scrap_links(&self, doc: &PageDocument) -> (r: Vec<String>)
        ensures
            r.deep_view() == spec_extract_links(*doc),
            r.deep_view().no_duplicates(),
            lex_sorted(r.deep_view()),
            r.deep_view().to_set() == link_candidates(doc.links.deep_view()).to_set(),
    {
        extract_links_page(doc)
    }

    fn scrap(&self, doc: &PageDocument) -> (r: ScrapingResult<DetikArticle>)
        ensures
            (match r {
                ScrapingResult::Links(links) => !spec_can_be_scrapped(*doc)
                    && links.deep_view() == spec_extract_links(*doc),
                ScrapingResult::DocumentAndLinks(a, links) => spec_can_be_scrapped(*doc)
                    && links.deep_view() == spec_extract_links(*doc)
                    && scraper_article_matches_page(a, *doc),
            }),
    {
        let links = extract_links_page(doc);
        if !can_be_scrapped_page(doc) {
            return ScrapingResult::Links(links);
        }
        let published_date = match &doc.publish_date {
            Some(s) => parse_publish_date(s.as_str()),
            None => None,
        };
        let article = DetikArticle {
            title: clone_opt_string(&doc.title),
            published_date,
            description: clone_opt_string(&doc.description),
            thumbnail_url: clone_opt_string(&doc.thumbnail_url),
            author: clone_opt_string(&doc.author),
            keywords: extract_keywords(&doc.keywords),
            paragraphs: scraper_extract_paragraphs(&doc.body_paragraphs),
        };
        ScrapingResult::DocumentAndLinks(article, links)
    }
}

} // verus!
