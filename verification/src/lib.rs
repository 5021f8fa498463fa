use vstd::prelude::*;

pub mod article;
pub mod codec;
pub mod detik;
pub mod engine;
pub mod frontier;
pub mod limiter;
pub mod page;
pub mod scraper;
pub mod scrapper;
pub mod text;

verus! {

/// A structured document extracted from one page. The engine only ever asks
/// an article for its paragraphs, to decide whether extraction produced
/// usable content.
pub trait Article {
    /// The mathematical content of the paragraph list.
    spec fn paragraphs_view(&self) -> Seq<Seq<char>>;

    fn get_paragraphs(&self) -> (r: &[String])
        ensures
            r.deep_view() == self.paragraphs_view(),
    ;
}

/// What one fetched page yielded: outbound links alone for a page out of
/// scope for extraction, or an extracted document together with its links.
pub enum CrawlerResult<A: Article> {
    Links(Vec<String>),
    DocumentAndLinks(A, Vec<String>),
}

/// Per-site classification, extraction and link discovery over a parsed
/// page.
pub trait Crawler {
    type Document: Article + Send;

    fn can_be_scrapped(&self, doc: &page::PageDocument) -> bool;

    fn crawl(&self, doc: &page::PageDocument) -> CrawlerResult<Self::Document>;

    fn extract_links(&self, doc: &page::PageDocument) -> Vec<String>;
}

} // verus!
