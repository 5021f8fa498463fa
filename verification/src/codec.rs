//! The storage shape of an archived article, and the codec between it and
//! the in-memory record.
//!
//! The archive row keeps the keyword list pipe-joined and the paragraph list
//! newline-joined, one text column each; reading a row back splits them
//! again.

use vstd::prelude::*;
use crate::article::{DetikArticle, Timestamp};
use crate::text::{
    clone_opt_string, join_char, join_spec, lemma_split_join_roundtrip, split_char, split_spec,
    trim, trim_spec,
};

verus! {

/// One row of the result archive.
pub struct ArticleRow {
    /// The article's source URL, trimmed, the row key.
    pub id: String,
    pub title: Option<String>,
    pub published_date: Option<Timestamp>,
    pub description: Option<String>,
    pub thumbnail_url: Option<String>,
    pub author: Option<String>,
    /// The keyword list, pipe-joined.
    pub keywords: String,
    /// The paragraph list, newline-joined.
    pub paragraphs: String,
}

/// The stored form of a keyword list.
pub open spec fn encoded_keywords(ks: Seq<Seq<char>>) -> Seq<char> {
    join_spec(ks, '|')
}

/// The keyword list read back from its stored form: the empty column holds
/// no keywords.
pub open spec fn decoded_keywords(s: Seq<char>) -> Seq<Seq<char>> {
    if s.len() == 0 {
        Seq::empty()
    } else {
        split_spec(s, '|')
    }
}

/// The stored form of a paragraph list.
pub open spec fn encoded_paragraphs(ps: Seq<Seq<char>>) -> Seq<char> {
    join_spec(ps, '\n')
}

/// The paragraph list read back from its stored form.
pub open spec fn decoded_paragraphs(s: Seq<char>) -> Seq<Seq<char>> {
    if s.len() == 0 {
        Seq::empty()
    } else {
        split_spec(s, '\n')
    }
}

/// The row the archive stores for `url`: the key is the trimmed URL, the
/// two list fields are joined into one text column each, everything else is
/// carried as it is.
pub fn encode_article(url: &str, article: &DetikArticle) -> (r: ArticleRow)
    ensures
        r.id@ == trim_spec(url@),
        r.title.deep_view() == article.title.deep_view(),
        r.published_date == article.published_date,
        r.description.deep_view() == article.description.deep_view(),
        r.thumbnail_url.deep_view() == article.thumbnail_url.deep_view(),
        r.author.deep_view() == article.author.deep_view(),
        r.keywords@ == encoded_keywords(article.keywords.deep_view()),
        r.paragraphs@ == encoded_paragraphs(article.paragraphs.deep_view()),
{
    ArticleRow {
        id: String::from_str(trim(url)),
        title: clone_opt_string(&article.title),
        published_date: article.published_date,
        description: clone_opt_string(&article.description),
        thumbnail_url: clone_opt_string(&article.thumbnail_url),
        author: clone_opt_string(&article.author),
        keywords: join_char(&article.keywords, '|'),
        paragraphs: join_char(&article.paragraphs, '\n'),
    }
}

/// The record read back from a stored row, the two joined columns split
/// into lists again.
pub fn decode_article(row: &ArticleRow) -> (r: DetikArticle)
    ensures
        r.title.deep_view() == row.title.deep_view(),
        r.published_date == row.published_date,
        r.description.deep_view() == row.description.deep_view(),
        r.thumbnail_url.deep_view() == row.thumbnail_url.deep_view(),
        r.author.deep_view() == row.author.deep_view(),
        r.keywords.deep_view() == decoded_keywords(row.keywords@),
        r.paragraphs.deep_view() == decoded_paragraphs(row.paragraphs@),
{
    let keywords: Vec<String> = if row.keywords.as_str().unicode_len() == 0 {
        let v: Vec<String> = Vec::new();
        proof {
            assert(v.deep_view() =~= Seq::<Seq<char>>::empty());
        }
        v
    } else {
        split_char(row.keywords.as_str(), '|')
    };
    let paragraphs: Vec<String> = if row.paragraphs.as_str().unicode_len() == 0 {
        let v: Vec<String> = Vec::new();
        proof {
            assert(v.deep_view() =~= Seq::<Seq<char>>::empty());
        }
        v
    } else {
        split_char(row.paragraphs.as_str(), '\n')
    };
    DetikArticle {
        title: clone_opt_string(&row.title),
        published_date: row.published_date,
        description: clone_opt_string(&row.description),
        thumbnail_url: clone_opt_string(&row.thumbnail_url),
        author: clone_opt_string(&row.author),
        keywords,
        paragraphs,
    }
}

proof fn lemma_join_roundtrip_guarded(l: Seq<Seq<char>>, sep: char)
    requires
        forall|i: int| 0 <= i < l.len() ==> !(#[trigger] l[i]).contains(sep),
        !(l.len() == 1 && l[0].len() == 0),
    ensures
        l.len() == 0 ==> join_spec(l, sep).len() == 0,
        l.len() > 0 ==> join_spec(l, sep).len() > 0 && split_spec(join_spec(l, sep), sep) == l,
{
    if l.len() == 1 {
        lemma_split_join_roundtrip(l, sep);
    } else if l.len() > 1 {
        lemma_split_join_roundtrip(l, sep);
        assert(join_spec(l, sep).len() >= 1);
    }
}

/// Article round trip: a keyword list in which no keyword contains the pipe
/// separator survives being joined into its storage column and split back,
/// except that a single empty keyword cannot be told apart from no keywords
/// at all.
pub proof fn lemma_keywords_roundtrip(ks: Seq<Seq<char>>)
    requires
        forall|i: int| 0 <= i < ks.len() ==> !(#[trigger] ks[i]).contains('|'),
        !(ks.len() == 1 && ks[0].len() == 0),
    ensures
        decoded_keywords(encoded_keywords(ks)) == ks,
{
    lemma_join_roundtrip_guarded(ks, '|');
    if ks.len() == 0 {
        assert(decoded_keywords(encoded_keywords(ks)) =~= ks);
    }
}

/// Article round trip: a paragraph list in which no paragraph contains a
/// newline survives being joined into its storage column and split back,
/// except that a single empty paragraph cannot be told apart from no
/// paragraphs at all.
pub proof fn lemma_paragraphs_roundtrip(ps: Seq<Seq<char>>)
    requires
        forall|i: int| 0 <= i < ps.len() ==> !(#[trigger] ps[i]).contains('\n'),
        !(ps.len() == 1 && ps[0].len() == 0),
    ensures
        decoded_paragraphs(encoded_paragraphs(ps)) == ps,
{
    lemma_join_roundtrip_guarded(ps, '\n');
    if ps.len() == 0 {
        assert(decoded_paragraphs(encoded_paragraphs(ps)) =~= ps);
    }
}

} // verus!
