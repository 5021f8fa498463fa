//! A minimal per-site extraction capability: classification and one
//! extraction call that yields an optional document plus links.

use vstd::prelude::*;
use crate::page::PageDocument;

verus! {

pub trait Scrapper {
    type Document: core::fmt::Debug;

    fn can_be_scrapped(&self, doc: &PageDocument) -> bool;

    fn scrap(&self, doc: &PageDocument) -> (Option<Self::Document>, Vec<String>);
}

} // verus!
