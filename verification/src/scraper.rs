//! The basic per-site extraction interface.

use vstd::prelude::*;
use crate::page::PageDocument;

verus! {

/// What one scraped page yielded: outbound links alone, or an extracted
/// document together with its links.
pub enum ScrapingResult<T> {
    Links(Vec<String>),
    DocumentAndLinks(T, Vec<String>),
}

/// Per-site classification, extraction and link discovery over a parsed
/// page.
pub trait Scraper {
    type Document: core::fmt::Debug;

    fn can_be_scrapped(&self, doc: &PageDocument) -> bool;

    fn scrap(&self, doc: &PageDocument) -> ScrapingResult<Self::Document>;

    fn scrap_links(&self, doc: &PageDocument) -> Vec<String>;
}

} // verus!
