//! A fetched page, reduced to the plain values the extractor reads.
//!
//! The HTML itself is parsed outside the library; what arrives here is the
//! content of the handful of metadata tags the site uses, the inner markup
//! of the candidate body paragraphs, and the target of every anchor.

use vstd::prelude::*;

verus! {

/// One parsed page.
pub struct PageDocument {
    /// Content of the `dtk:contenttype` metadata tag, when present.
    pub content_type: Option<String>,
    /// Content of the `og:title` metadata tag.
    pub title: Option<String>,
    /// Content of the `og:description` metadata tag.
    pub description: Option<String>,
    /// Content of the `dtk:publishdate` metadata tag, still unparsed.
    pub publish_date: Option<String>,
    /// Content of the `thumbnailUrl` metadata tag.
    pub thumbnail_url: Option<String>,
    /// Content of the `dtk:author` metadata tag.
    pub author: Option<String>,
    /// Content of the `dtk:keywords` metadata tag: a comma-separated list.
    pub keywords: Option<String>,
    /// Inner markup of each `<p>` without a style attribute inside the
    /// recognized body containers, in document order.
    pub body_paragraphs: Vec<String>,
    /// The `href` of every anchor in the page, in document order.
    pub links: Vec<String>,
}

} // verus!
