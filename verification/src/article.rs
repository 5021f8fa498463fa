//! The structured record extracted from one content page.

use vstd::prelude::*;
use crate::Article;
use vstd::seq_lib::group_seq_lib_default;
use crate::text::{join_str, join_str_spec, push_char, replace_char_with, replace_char_with_spec};

verus! {

broadcast use group_seq_lib_default;

/// A timezone-aware instant, held as plain calendar fields plus the UTC
/// offset in seconds, exactly as the publish-date metadata spells it out.
#[derive(Debug, Clone, Copy, PartialEq, Eq, Structural)]
pub struct Timestamp {
    pub year: i32,
    pub month: u8,
    pub day: u8,
    pub hour: u8,
    pub minute: u8,
    pub second: u8,
    pub offset_seconds: i32,
}

/// One extracted article. Keywords and paragraphs keep the order the page
/// gave them.
#[derive(Debug, Clone, PartialEq, Eq)]
pub struct DetikArticle {
    pub title: Option<String>,
    pub published_date: Option<Timestamp>,
    pub description: Option<String>,
    pub thumbnail_url: Option<String>,
    pub author: Option<String>,
    pub keywords: Vec<String>,
    pub paragraphs: Vec<String>,
}

impl Article for DetikArticle {
    open spec fn paragraphs_view(&self) -> Seq<Seq<char>> {
        self.paragraphs.deep_view()
    }

    fn get_paragraphs(&self) -> (r: &[String])
        ensures
            r.deep_view() == self.paragraphs_view(),
    {
        let r = self.paragraphs.as_slice();
        proof {
            assert(r.deep_view() =~= self.paragraphs.deep_view());
        }
        r
    }
}

/// The decimal digit character for `d`.
pub open spec fn digit_char_spec(d: nat) -> char
    recommends
        d < 10,
{
    if d == 0 {
        '0'
    } else if d == 1 {
        '1'
    } else if d == 2 {
        '2'
    } else if d == 3 {
        '3'
    } else if d == 4 {
        '4'
    } else if d == 5 {
        '5'
    } else if d == 6 {
        '6'
    } else if d == 7 {
        '7'
    } else if d == 8 {
        '8'
    } else {
        '9'
    }
}

/// The decimal digits of `n`, most significant first.
pub open spec fn dec_digits(n: nat) -> Seq<char>
    decreases n,
{
    if n < 10 {
        seq![digit_char_spec(n)]
    } else {
        dec_digits(n / 10).push(digit_char_spec(n % 10))
    }
}

/// The decimal digits of `n`, left-padded with zeros to at least `width`
/// characters.
pub open spec fn padded_decimal(n: nat, width: nat) -> Seq<char> {
    let d = dec_digits(n);
    if d.len() >= width {
        d
    } else {
        Seq::new((width - d.len()) as nat, |i: int| '0') + d
    }
}

proof fn lemma_dec_digits_len(n: nat)
    ensures
        dec_digits(n).len() >= 1,
        n < 10 ==> dec_digits(n).len() == 1,
        10 <= n < 100 ==> dec_digits(n).len() == 2,
        100 <= n < 1000 ==> dec_digits(n).len() == 3,
        1000 <= n ==> dec_digits(n).len() >= 4,
    decreases n,
{
    if n >= 10 {
        lemma_dec_digits_len(n / 10);
    }
}

fn digit_char(d: u64) -> (c: char)
    requires
        d < 10,
    ensures
        c == digit_char_spec(d as nat),
{
    if d == 0 {
        '0'
    } else if d == 1 {
        '1'
    } else if d == 2 {
        '2'
    } else if d == 3 {
        '3'
    } else if d == 4 {
        '4'
    } else if d == 5 {
        '5'
    } else if d == 6 {
        '6'
    } else if d == 7 {
        '7'
    } else if d == 8 {
        '8'
    } else {
        '9'
    }
}

fn push_decimal(out: &mut String, n: u64)
    ensures
        final(out)@ == old(out)@ + dec_digits(n as nat),
    decreases n,
{
    if n < 10 {
        push_char(out, digit_char(n));
        proof {
            assert(out@ =~= old(out)@ + dec_digits(n as nat));
        }
    } else {
        push_decimal(out, n / 10);
        push_char(out, digit_char(n % 10));
        proof {
            assert((old(out)@ + dec_digits((n / 10) as nat)).push(digit_char_spec((n % 10) as nat))
                =~= old(out)@ + dec_digits(n as nat));
        }
    }
}

fn push_padded(out: &mut String, n: u64, width: usize)
    requires
        width == 2 || width == 4,
    ensures
        final(out)@ == old(out)@ + padded_decimal(n as nat, width as nat),
{
    proof {
        lemma_dec_digits_len(n as nat);
    }
    let ghost base = out@;
    if width == 2 {
        if n < 10 {
            push_char(out, '0');
        }
    } else {
        if n < 1000 {
            push_char(out, '0');
        }
        if n < 100 {
            push_char(out, '0');
        }
        if n < 10 {
            push_char(out, '0');
        }
    }
    let ghost zeroed = out@;
    push_decimal(out, n);
    proof {
        let d = dec_digits(n as nat);
        if width == 2 {
            if n < 10 {
                assert(zeroed =~= base + seq!['0']);
                assert(padded_decimal(n as nat, width as nat) =~= seq!['0'] + d);
                assert((base + seq!['0']) + d =~= base + (seq!['0'] + d));
            } else {
                assert(zeroed == base);
            }
        } else {
            if n < 10 {
                assert(zeroed =~= base + seq!['0', '0', '0']);
                assert(padded_decimal(n as nat, width as nat) =~= seq!['0', '0', '0'] + d);
                assert((base + seq!['0', '0', '0']) + d =~= base + (seq!['0', '0', '0'] + d));
            } else if n < 100 {
                assert(zeroed =~= base + seq!['0', '0']);
                assert(padded_decimal(n as nat, width as nat) =~= seq!['0', '0'] + d);
                assert((base + seq!['0', '0']) + d =~= base + (seq!['0', '0'] + d));
            } else if n < 1000 {
                assert(zeroed =~= base + seq!['0']);
                assert(padded_decimal(n as nat, width as nat) =~= seq!['0'] + d);
                assert((base + seq!['0']) + d =~= base + (seq!['0'] + d));
            } else {
                assert(zeroed == base);
            }
        }
    }
}

/// A possibly negative value's digits, a minus sign ahead of the magnitude.
pub open spec fn signed_decimal(v: int, width: nat) -> Seq<char> {
    if v < 0 {
        "-"@ + padded_decimal((-v) as nat, width)
    } else {
        padded_decimal(v as nat, width)
    }
}

impl Timestamp {
    /// The instant rendered as calendar date, clock time and UTC offset,
    /// such as `2022-12-10 13:19:56 +07:00`.
    pub open spec fn display_spec(self) -> Seq<char> {
        let off = self.offset_seconds as int;
        let sign = if off < 0 {
            "-"@
        } else {
            "+"@
        };
        let mag = if off < 0 {
            -off
        } else {
            off
        };
        signed_decimal(self.year as int, 4) + "-"@ + padded_decimal(self.month as nat, 2) + "-"@
            + padded_decimal(self.day as nat, 2) + " "@ + padded_decimal(self.hour as nat, 2)
            + ":"@ + padded_decimal(self.minute as nat, 2) + ":"@ + padded_decimal(
            self.second as nat,
            2,
        ) + " "@ + sign + padded_decimal((mag / 3600) as nat, 2) + ":"@ + padded_decimal(
            ((mag % 3600) / 60) as nat,
            2,
        )
    }

    pub fn display_string(&self) -> (r: String)
        ensures
            r@ == self.display_spec(),
    {
        let mut r = String::new();
        let y = self.year as i64;
        if y < 0 {
            r.append("-");
            push_padded(&mut r, (-y) as u64, 4);
        } else {
            push_padded(&mut r, y as u64, 4);
        }
        proof {
            assert(r@ =~= signed_decimal(self.year as int, 4));
        }
        r.append("-");
        push_padded(&mut r, self.month as u64, 2);
        r.append("-");
        push_padded(&mut r, self.day as u64, 2);
        r.append(" ");
        push_padded(&mut r, self.hour as u64, 2);
        r.append(":");
        push_padded(&mut r, self.minute as u64, 2);
        r.append(":");
        push_padded(&mut r, self.second as u64, 2);
        r.append(" ");
        proof {
            assert(r@ =~= signed_decimal(self.year as int, 4) + "-"@ + padded_decimal(
                self.month as nat,
                2,
            ) + "-"@ + padded_decimal(self.day as nat, 2) + " "@ + padded_decimal(
                self.hour as nat,
                2,
            ) + ":"@ + padded_decimal(self.minute as nat, 2) + ":"@ + padded_decimal(
                self.second as nat,
                2,
            ) + " "@);
        }
        let off = self.offset_seconds as i64;
        let mag: u64 = if off < 0 {
            r.append("-");
            (-off) as u64
        } else {
            r.append("+");
            off as u64
        };
        push_padded(&mut r, mag / 3600, 2);
        r.append(":");
        push_padded(&mut r, (mag % 3600) / 60, 2);
        proof {
            assert(r@ =~= self.display_spec());
        }
        r
    }
}

/// The text shown for an optional field: its value, or `None`.
pub open spec fn opt_text(o: Option<Seq<char>>) -> Seq<char> {
    match o {
        Some(s) => s,
        None => "None"@,
    }
}

/// The paragraph block: each paragraph on its own quoted line, inner line
/// breaks indented under the quote mark.
pub open spec fn paragraphs_display(ps: Seq<Seq<char>>) -> Seq<char>
    decreases ps.len(),
{
    if ps.len() == 0 {
        Seq::empty()
    } else {
        "> "@ + replace_char_with_spec(ps.first(), '\n', "\n  "@) + "\n"@ + paragraphs_display(
            ps.drop_first(),
        )
    }
}

/// The whole record rendered for humans: one labelled line per field, then
/// the paragraph block.
pub open spec fn article_display(a: DetikArticle) -> Seq<char> {
    "Title           : "@ + opt_text(a.title.deep_view()) + "\n"@ + "Author          : "@
        + opt_text(a.author.deep_view()) + "\n"@ + "Published Date  : "@ + (match a
        .published_date {
        Some(t) => t.display_spec(),
        None => "None"@,
    }) + "\n"@ + "Description     : "@ + opt_text(a.description.deep_view()) + "\n"@
        + "Thumbnail       : "@ + opt_text(a.thumbnail_url.deep_view()) + "\n"@
        + "Keywords        : "@ + join_str_spec(a.keywords.deep_view(), ", "@) + "\n"@
        + "Paragraphs      : \n"@ + paragraphs_display(a.paragraphs.deep_view())
}

fn push_opt(out: &mut String, o: &Option<String>)
    ensures
        final(out)@ == old(out)@ + opt_text(o.deep_view()),
{
    match o {
        Some(s) => {
            out.append(s.as_str());
        },
        None => {
            out.append("None");
        },
    }
}

impl DetikArticle {
    /// The record rendered for humans, as `Display` would show it.
    pub fn display_string(&self) -> (r: String)
        ensures
            r@ == article_display(*self),
    {
        let mut r = String::new();
        r.append("Title           : ");
        push_opt(&mut r, &self.title);
        r.append("\n");
        r.append("Author          : ");
        push_opt(&mut r, &self.author);
        r.append("\n");
        r.append("Published Date  : ");
        match &self.published_date {
            Some(t) => {
                let d = t.display_string();
                r.append(d.as_str());
            },
            None => {
                r.append("None");
            },
        }
        r.append("\n");
        r.append("Description     : ");
        push_opt(&mut r, &self.description);
        r.append("\n");
        r.append("Thumbnail       : ");
        push_opt(&mut r, &self.thumbnail_url);
        r.append("\n");
        r.append("Keywords        : ");
        let keywords = join_str(&self.keywords, ", ");
        r.append(keywords.as_str());
        r.append("\n");
        r.append("Paragraphs      : \n");
        let ghost head = r@;
        let ghost pdv = self.paragraphs.deep_view();
        let mut i: usize = 0;
        proof {
            assert(pdv.skip(0) =~= pdv);
        }
        while i < self.paragraphs.len()
            invariant
                0 <= i <= self.paragraphs@.len(),
                pdv == self.paragraphs.deep_view(),
                head + paragraphs_display(pdv) == r@ + paragraphs_display(pdv.skip(i as int)),
            decreases self.paragraphs@.len() - i,
        {
            proof {
                assert(pdv[i as int] == self.paragraphs@[i as int]@);
                assert(pdv.skip(i as int).first() == pdv[i as int]);
                assert(pdv.skip(i as int).drop_first() =~= pdv.skip(i + 1));
            }
            let ghost prev = r@;
            r.append("> ");
            let cleaned = replace_char_with(self.paragraphs[i].as_str(), '\n', "\n  ");
            r.append(cleaned.as_str());
            r.append("\n");
            proof {
                assert(prev + ("> "@ + replace_char_with_spec(pdv[i as int], '\n', "\n  "@)
                    + "\n"@ + paragraphs_display(pdv.skip(i + 1))) =~= r@ + paragraphs_display(
                    pdv.skip(i + 1),
                ));
            }
            i = i + 1;
        }
        proof {
            assert(pdv.skip(self.paragraphs@.len() as int) =~= Seq::<Seq<char>>::empty());
            assert(r@ + paragraphs_display(Seq::empty()) =~= r@);
            assert(head =~= "Title           : "@ + opt_text(self.title.deep_view()) + "\n"@
                + "Author          : "@ + opt_text(self.author.deep_view()) + "\n"@
                + "Published Date  : "@ + (match self.published_date {
                Some(t) => t.display_spec(),
                None => "None"@,
            }) + "\n"@ + "Description     : "@ + opt_text(self.description.deep_view()) + "\n"@
                + "Thumbnail       : "@ + opt_text(self.thumbnail_url.deep_view()) + "\n"@
                + "Keywords        : "@ + join_str_spec(self.keywords.deep_view(), ", "@)
                + "\n"@ + "Paragraphs      : \n"@);
            assert(r@ =~= article_display(*self));
        }
        r
    }
}

} // verus!
