//! Character-level string operations, specified over `Seq<char>` views.
//!
//! Everything the extractor and the storage codec do to text is built from
//! the small verified operations here.

use vstd::prelude::*;
use vstd::string::*;

verus! {

/// The whitespace characters recognized when trimming: the ASCII blank
/// characters.
pub open spec fn is_space(c: char) -> bool {
    c == ' ' || c == '\t' || c == '\n' || c == '\r' || c == '\u{0B}' || c == '\u{0C}'
}

pub fn space_char(c: char) -> (r: bool)
    ensures
        r == is_space(c),
{
    c == ' ' || c == '\t' || c == '\n' || c == '\r' || c == '\u{0B}' || c == '\u{0C}'
}

/// Relies on String::push: appends the given character to the end of the
/// string.
#[verifier::external_body]
pub fn push_char(s: &mut String, c: char)
    ensures
        final(s)@ == old(s)@.push(c),
{
    s.push(c);
}

pub fn clone_opt_string(o: &Option<String>) -> (r: Option<String>)
    ensures
        r.deep_view() == o.deep_view(),
{
    match o {
        Some(s) => Some(s.clone()),
        None => None,
    }
}

/// Character-for-character equality of two string slices.
pub fn str_eq(a: &str, b: &str) -> (r: bool)
    ensures
        r == (a@ == b@),
{
    let a_len = a.unicode_len();
    let b_len = b.unicode_len();
    if a_len != b_len {
        return false;
    }
    let mut i: usize = 0;
    while i < a_len
        invariant
            0 <= i <= a_len,
            a_len == a@.len(),
            a_len == b@.len(),
            forall|k: int| 0 <= k < i ==> a@[k] == b@[k],
        decreases a_len - i,
    {
        if a.get_char(i) != b.get_char(i) {
            return false;
        }
        i = i + 1;
    }
    proof {
        assert(a@ =~= b@);
    }
    true
}

/// Whether `p` occurs in `s` starting at position `at`.
fn matches_at(s: &str, at: usize, p: &str) -> (r: bool)
    requires
        at + p@.len() <= s@.len(),
        s@.len() <= usize::MAX,
    ensures
        r == (s@.subrange(at as int, at + p@.len()) == p@),
{
    let p_len = p.unicode_len();
    let mut i: usize = 0;
    while i < p_len
        invariant
            0 <= i <= p_len,
            p_len == p@.len(),
            at + p_len <= s@.len(),
            s@.len() <= usize::MAX,
            forall|k: int| 0 <= k < i ==> s@[at + k] == p@[k],
        decreases p_len - i,
    {
        if s.get_char(at + i) != p.get_char(i) {
            proof {
                let j = i as int;
                assert(s@.subrange(at as int, at + p@.len())[j] != p@[j]);
            }
            return false;
        }
        i = i + 1;
    }
    proof {
        assert(s@.subrange(at as int, at + p@.len()) =~= p@);
    }
    true
}

pub fn starts_with_str(s: &str, p: &str) -> (r: bool)
    ensures
        r == p@.is_prefix_of(s@),
{
    let s_len = s.unicode_len();
    let p_len = p.unicode_len();
    if p_len > s_len {
        return false;
    }
    let r = matches_at(s, 0, p);
    proof {
        if r {
            assert(p@ =~= s@.subrange(0, p@.len() as int));
        }
    }
    r
}

pub fn ends_with_str(s: &str, p: &str) -> (r: bool)
    ensures
        r == p@.is_suffix_of(s@),
{
    let s_len = s.unicode_len();
    let p_len = p.unicode_len();
    if p_len > s_len {
        return false;
    }
    let r = matches_at(s, s_len - p_len, p);
    proof {
        if r {
            assert(p@ =~= s@.subrange(s@.len() - p@.len(), s@.len() as int));
        }
    }
    r
}

/// Whether `p` occurs anywhere in `s` as a contiguous run.
pub open spec fn contains_seq(s: Seq<char>, p: Seq<char>) -> bool {
    exists|i: int| 0 <= i && i + p.len() <= s.len() && #[trigger] s.subrange(i, i + p.len()) == p
}

pub fn contains_str(s: &str, p: &str) -> (r: bool)
    ensures
        r == contains_seq(s@, p@),
{
    let s_len = s.unicode_len();
    let p_len = p.unicode_len();
    if p_len > s_len {
        return false;
    }
    if p_len == 0 {
        proof {
            assert(s@.subrange(0, 0 + p@.len() as int) =~= p@);
        }
        return true;
    }
    let mut i: usize = 0;
    while i <= s_len - p_len
        invariant
            0 <= i <= s_len - p_len + 1,
            1 <= p_len == p@.len(),
            s_len == s@.len(),
            p_len <= s_len,
            forall|k: int| 0 <= k < i ==> #[trigger] s@.subrange(k, k + p@.len()) != p@,
        decreases s_len - i,
    {
        if matches_at(s, i, p) {
            return true;
        }
        i = i + 1;
    }
    false
}

/// The sequence with its longest all-`p` prefix removed.
pub open spec fn drop_while_front(s: Seq<char>, p: spec_fn(char) -> bool) -> Seq<char>
    decreases s.len(),
{
    if s.len() > 0 && p(s.first()) {
        drop_while_front(s.drop_first(), p)
    } else {
        s
    }
}

/// The sequence with its longest all-`p` suffix removed.
pub open spec fn drop_while_back(s: Seq<char>, p: spec_fn(char) -> bool) -> Seq<char>
    decreases s.len(),
{
    if s.len() > 0 && p(s.last()) {
        drop_while_back(s.drop_last(), p)
    } else {
        s
    }
}

/// The string with leading and trailing whitespace removed.
pub open spec fn trim_spec(s: Seq<char>) -> Seq<char> {
    drop_while_back(drop_while_front(s, |c: char| is_space(c)), |c: char| is_space(c))
}

proof fn lemma_drop_while_front_at(s: Seq<char>, p: spec_fn(char) -> bool, i: int)
    requires
        0 <= i <= s.len(),
        forall|k: int| 0 <= k < i ==> p(s[k]),
        i < s.len() ==> !p(s[i]),
    ensures
        drop_while_front(s, p) == s.subrange(i, s.len() as int),
    decreases i,
{
    if i == 0 {
        assert(s.subrange(0, s.len() as int) =~= s);
    } else {
        let t = s.drop_first();
        assert(forall|k: int| 0 <= k < i - 1 ==> p(t[k]));
        lemma_drop_while_front_at(t, p, i - 1);
        assert(t.subrange(i - 1, t.len() as int) =~= s.subrange(i, s.len() as int));
    }
}

proof fn lemma_drop_while_back_at(s: Seq<char>, p: spec_fn(char) -> bool, j: int)
    requires
        0 <= j <= s.len(),
        forall|k: int| j <= k < s.len() ==> p(s[k]),
        j > 0 ==> !p(s[j - 1]),
    ensures
        drop_while_back(s, p) == s.subrange(0, j),
    decreases s.len() - j,
{
    if j == s.len() {
        assert(s.subrange(0, j) =~= s);
    } else {
        let t = s.drop_last();
        assert(forall|k: int| j <= k < t.len() ==> p(t[k]));
        lemma_drop_while_back_at(t, p, j);
        assert(t.subrange(0, j) =~= s.subrange(0, j));
    }
}

/// The string with leading and trailing whitespace removed.
pub fn trim(s: &str) -> (r: &str)
    ensures
        r@ == trim_spec(s@),
{
    let len = s.unicode_len();
    let mut i: usize = 0;
    while i < len && space_char(s.get_char(i))
        invariant
            0 <= i <= len,
            len == s@.len(),
            forall|k: int| 0 <= k < i ==> is_space(s@[k]),
        decreases len - i,
    {
        i = i + 1;
    }
    let mut j: usize = len;
    while j > i && space_char(s.get_char(j - 1))
        invariant
            i <= j <= len,
            len == s@.len(),
            forall|k: int| 0 <= k < i ==> is_space(s@[k]),
            forall|k: int| j <= k < len ==> is_space(s@[k]),
        decreases j,
    {
        j = j - 1;
    }
    proof {
        let sp = |c: char| is_space(c);
        lemma_drop_while_front_at(s@, sp, i as int);
        let t = s@.subrange(i as int, s@.len() as int);
        lemma_drop_while_back_at(t, sp, j - i);
        assert(t.subrange(0, j - i) =~= s@.subrange(i as int, j as int));
    }
    s.substring_char(i, j)
}

/// The string with every trailing occurrence of `c` removed.
pub fn trim_end_matches_char(s: &str, c: char) -> (r: &str)
    ensures
        r@ == drop_while_back(s@, |x: char| x == c),
{
    let len = s.unicode_len();
    let mut j: usize = len;
    while j > 0 && s.get_char(j - 1) == c
        invariant
            0 <= j <= len,
            len == s@.len(),
            forall|k: int| j <= k < len ==> s@[k] == c,
        decreases j,
    {
        j = j - 1;
    }
    proof {
        lemma_drop_while_back_at(s@, |x: char| x == c, j as int);
    }
    s.substring_char(0, j)
}

/// The string with every leading occurrence of `c` removed.
pub fn trim_start_matches_char(s: &str, c: char) -> (r: &str)
    ensures
        r@ == drop_while_front(s@, |x: char| x == c),
{
    let len = s.unicode_len();
    let mut i: usize = 0;
    while i < len && s.get_char(i) == c
        invariant
            0 <= i <= len,
            len == s@.len(),
            forall|k: int| 0 <= k < i ==> s@[k] == c,
        decreases len - i,
    {
        i = i + 1;
    }
    proof {
        lemma_drop_while_front_at(s@, |x: char| x == c, i as int);
    }
    s.substring_char(i, len)
}

/// Splitting, processed left to right with `cur` holding the piece read so
/// far: a separator closes the current piece, and the end of the string
/// closes the last one.
pub open spec fn split_rec(s: Seq<char>, sep: char, cur: Seq<char>) -> Seq<Seq<char>>
    decreases s.len(),
{
    if s.len() == 0 {
        seq![cur]
    } else if s.first() == sep {
        seq![cur] + split_rec(s.drop_first(), sep, Seq::empty())
    } else {
        split_rec(s.drop_first(), sep, cur.push(s.first()))
    }
}

/// The pieces of `s` between occurrences of `sep`. The empty string has one
/// empty piece, as `str::split` has it.
pub open spec fn split_spec(s: Seq<char>, sep: char) -> Seq<Seq<char>> {
    split_rec(s, sep, Seq::empty())
}

pub fn split_char(s: &str, sep: char) -> (r: Vec<String>)
    ensures
        r.deep_view() == split_spec(s@, sep),
{
    let len = s.unicode_len();
    let mut r: Vec<String> = Vec::new();
    let mut start: usize = 0;
    let mut i: usize = 0;
    proof {
        assert(s@.skip(0) =~= s@);
        assert(s@.subrange(0, 0) =~= Seq::<char>::empty());
        assert(r.deep_view() + split_rec(s@, sep, Seq::empty()) =~= split_spec(s@, sep));
    }
    while i < len
        invariant
            0 <= start <= i <= len,
            len == s@.len(),
            split_spec(s@, sep) == r.deep_view() + split_rec(
                s@.skip(i as int),
                sep,
                s@.subrange(start as int, i as int),
            ),
            forall|k: int| start <= k < i ==> s@[k] != sep,
        decreases len - i,
    {
        let ghost prev = r.deep_view();
        let ghost cur = s@.subrange(start as int, i as int);
        if s.get_char(i) == sep {
            let piece = s.substring_char(start, i);
            r.push(String::from_str(piece));
            proof {
                assert(s@.skip(i as int).drop_first() =~= s@.skip(i + 1));
                assert(s@.subrange(i + 1, i + 1) =~= Seq::<char>::empty());
                assert(r.deep_view() =~= prev.push(cur));
                assert(split_rec(s@.skip(i as int), sep, cur) == seq![cur] + split_rec(
                    s@.skip(i + 1),
                    sep,
                    Seq::empty(),
                ));
                assert(prev + (seq![cur] + split_rec(s@.skip(i + 1), sep, Seq::empty()))
                    =~= r.deep_view() + split_rec(s@.skip(i + 1), sep, Seq::empty()));
            }
            start = i + 1;
        } else {
            proof {
                assert(s@.skip(i as int).drop_first() =~= s@.skip(i + 1));
                assert(cur.push(s@[i as int]) =~= s@.subrange(start as int, i + 1));
            }
        }
        i = i + 1;
    }
    let ghost prev = r.deep_view();
    let last = s.substring_char(start, len);
    r.push(String::from_str(last));
    proof {
        assert(s@.skip(len as int) =~= Seq::<char>::empty());
        assert(split_rec(s@.skip(len as int), sep, s@.subrange(start as int, len as int))
            == seq![s@.subrange(start as int, len as int)]);
        assert(r.deep_view() =~= prev.push(s@.subrange(start as int, len as int)));
        assert(prev + seq![s@.subrange(start as int, len as int)] =~= r.deep_view());
    }
    r
}

/// The pieces joined with `sep` between consecutive pieces.
pub open spec fn join_spec(l: Seq<Seq<char>>, sep: char) -> Seq<char>
    decreases l.len(),
{
    if l.len() == 0 {
        Seq::empty()
    } else if l.len() == 1 {
        l.first()
    } else {
        l.first() + seq![sep] + join_spec(l.drop_first(), sep)
    }
}

proof fn lemma_join_push(l: Seq<Seq<char>>, sep: char, x: Seq<char>)
    requires
        l.len() >= 1,
    ensures
        join_spec(l.push(x), sep) == join_spec(l, sep) + seq![sep] + x,
    decreases l.len(),
{
    if l.len() == 1 {
        assert(l.push(x).drop_first() =~= seq![x]);
        assert(join_spec(l.push(x), sep) == l.push(x).first() + seq![sep] + join_spec(
            seq![x],
            sep,
        ));
        assert(seq![x].len() == 1 && seq![x].first() == x);
        assert(l.push(x).first() == l.first());
        assert(join_spec(l, sep) == l.first());
    } else {
        lemma_join_push(l.drop_first(), sep, x);
        assert(l.push(x).drop_first() =~= l.drop_first().push(x));
        assert(join_spec(l.push(x), sep) =~= join_spec(l, sep) + seq![sep] + x);
    }
}

pub fn join_char(v: &Vec<String>, sep: char) -> (r: String)
    ensures
        r@ == join_spec(v.deep_view(), sep),
{
    let mut r = String::new();
    let mut i: usize = 0;
    while i < v.len()
        invariant
            0 <= i <= v@.len(),
            i == 0 ==> r@ == Seq::<char>::empty(),
            i > 0 ==> r@ == join_spec(v.deep_view().take(i as int), sep),
        decreases v@.len() - i,
    {
        let ghost prev = r@;
        if i > 0 {
            push_char(&mut r, sep);
        }
        r.append(v[i].as_str());
        proof {
            let dv = v.deep_view();
            assert(dv[i as int] == v@[i as int]@);
            if i == 0 {
                assert(dv.take(1) =~= seq![dv[0]]);
                assert(r@ =~= join_spec(dv.take(1), sep));
            } else {
                lemma_join_push(dv.take(i as int), sep, dv[i as int]);
                assert(dv.take(i as int).push(dv[i as int]) =~= dv.take(i + 1));
                assert(r@ =~= join_spec(dv.take(i as int), sep) + seq![sep] + dv[i as int]);
            }
        }
        i = i + 1;
    }
    proof {
        if v@.len() == 0 {
            assert(join_spec(v.deep_view(), sep) == Seq::<char>::empty());
        } else {
            assert(v.deep_view().take(v@.len() as int) =~= v.deep_view());
        }
    }
    r
}

/// Every occurrence of `from` replaced with `to`.
pub open spec fn replace_char_spec(s: Seq<char>, from: char, to: char) -> Seq<char> {
    s.map_values(|c: char| if c == from { to } else { c })
}

pub fn replace_char(s: &str, from: char, to: char) -> (r: String)
    ensures
        r@ == replace_char_spec(s@, from, to),
{
    let len = s.unicode_len();
    let mut r = String::new();
    let mut i: usize = 0;
    while i < len
        invariant
            0 <= i <= len,
            len == s@.len(),
            r@ == replace_char_spec(s@.take(i as int), from, to),
        decreases len - i,
    {
        let c = s.get_char(i);
        let ghost prev = r@;
        if c == from {
            push_char(&mut r, to);
        } else {
            push_char(&mut r, c);
        }
        proof {
            assert(r@ =~= replace_char_spec(s@.take(i + 1), from, to));
        }
        i = i + 1;
    }
    proof {
        assert(s@.take(len as int) =~= s@);
    }
    r
}

proof fn lemma_split_prefix_no_sep(p: Seq<char>, s: Seq<char>, sep: char, cur: Seq<char>)
    requires
        !p.contains(sep),
    ensures
        split_rec(p + s, sep, cur) == split_rec(s, sep, cur + p),
    decreases p.len(),
{
    if p.len() == 0 {
        assert(p + s =~= s);
        assert(cur + p =~= cur);
    } else {
        assert(p[0] != sep);
        assert((p + s).first() == p[0]);
        assert((p + s).drop_first() =~= p.drop_first() + s);
        assert(!p.drop_first().contains(sep)) by {
            assert(forall|k: int| 0 <= k < p.drop_first().len()
                ==> p.drop_first()[k] == p[k + 1]);
        }
        lemma_split_prefix_no_sep(p.drop_first(), s, sep, cur.push(p[0]));
        assert(cur.push(p[0]) + p.drop_first() =~= cur + p);
    }
}

/// Splitting undoes joining: for a non-empty list of pieces none of which
/// contains the separator, the pieces of the joined string are exactly the
/// original pieces.
pub proof fn lemma_split_join_roundtrip(l: Seq<Seq<char>>, sep: char)
    requires
        l.len() >= 1,
        forall|i: int| 0 <= i < l.len() ==> !(#[trigger] l[i]).contains(sep),
    ensures
        split_spec(join_spec(l, sep), sep) == l,
    decreases l.len(),
{
    if l.len() == 1 {
        lemma_split_prefix_no_sep(l[0], Seq::empty(), sep, Seq::empty());
        assert(l[0] + Seq::<char>::empty() =~= l[0]);
        assert(Seq::<char>::empty() + l[0] =~= l[0]);
        assert(split_spec(join_spec(l, sep), sep) =~= l);
    } else {
        let rest = l.drop_first();
        let tail = seq![sep] + join_spec(rest, sep);
        assert(join_spec(l, sep) =~= l[0] + tail);
        lemma_split_prefix_no_sep(l[0], tail, sep, Seq::empty());
        assert(Seq::<char>::empty() + l[0] =~= l[0]);
        assert(tail.first() == sep);
        assert(tail.drop_first() =~= join_spec(rest, sep));
        assert(split_rec(tail, sep, l[0]) == seq![l[0]] + split_spec(join_spec(rest, sep), sep));
        assert(forall|i: int| 0 <= i < rest.len() ==> !(#[trigger] rest[i]).contains(sep)) by {
            assert(forall|i: int| 0 <= i < rest.len() ==> rest[i] == l[i + 1]);
        }
        lemma_split_join_roundtrip(rest, sep);
        assert(seq![l[0]] + rest =~= l);
    }
}

/// The pieces joined with the string `sep` between consecutive pieces.
pub open spec fn join_str_spec(l: Seq<Seq<char>>, sep: Seq<char>) -> Seq<char>
    decreases l.len(),
{
    if l.len() == 0 {
        Seq::empty()
    } else if l.len() == 1 {
        l.first()
    } else {
        l.first() + sep + join_str_spec(l.drop_first(), sep)
    }
}

proof fn lemma_join_str_push(l: Seq<Seq<char>>, sep: Seq<char>, x: Seq<char>)
    requires
        l.len() >= 1,
    ensures
        join_str_spec(l.push(x), sep) == join_str_spec(l, sep) + sep + x,
    decreases l.len(),
{
    if l.len() == 1 {
        assert(l.push(x).drop_first() =~= seq![x]);
        assert(join_str_spec(l.push(x), sep) == l.push(x).first() + sep + join_str_spec(
            seq![x],
            sep,
        ));
        assert(seq![x].len() == 1 && seq![x].first() == x);
        assert(l.push(x).first() == l.first());
        assert(join_str_spec(l, sep) == l.first());
    } else {
        lemma_join_str_push(l.drop_first(), sep, x);
        assert(l.push(x).drop_first() =~= l.drop_first().push(x));
        assert(join_str_spec(l.push(x), sep) =~= join_str_spec(l, sep) + sep + x);
    }
}

pub fn join_str(v: &Vec<String>, sep: &str) -> (r: String)
    ensures
        r@ == join_str_spec(v.deep_view(), sep@),
{
    let mut r = String::new();
    let mut i: usize = 0;
    while i < v.len()
        invariant
            0 <= i <= v@.len(),
            i == 0 ==> r@ == Seq::<char>::empty(),
            i > 0 ==> r@ == join_str_spec(v.deep_view().take(i as int), sep@),
        decreases v@.len() - i,
    {
        if i > 0 {
            r.append(sep);
        }
        r.append(v[i].as_str());
        proof {
            let dv = v.deep_view();
            assert(dv[i as int] == v@[i as int]@);
            if i == 0 {
                assert(dv.take(1) =~= seq![dv[0]]);
                assert(r@ =~= join_str_spec(dv.take(1), sep@));
            } else {
                lemma_join_str_push(dv.take(i as int), sep@, dv[i as int]);
                assert(dv.take(i as int).push(dv[i as int]) =~= dv.take(i + 1));
                assert(r@ =~= join_str_spec(dv.take(i as int), sep@) + sep@ + dv[i as int]);
            }
        }
        i = i + 1;
    }
    proof {
        if v@.len() == 0 {
            assert(join_str_spec(v.deep_view(), sep@) == Seq::<char>::empty());
        } else {
            assert(v.deep_view().take(v@.len() as int) =~= v.deep_view());
        }
    }
    r
}

/// Every occurrence of `from` replaced with the string `rep`.
pub open spec fn replace_char_with_spec(s: Seq<char>, from: char, rep: Seq<char>) -> Seq<char>
    decreases s.len(),
{
    if s.len() == 0 {
        s
    } else {
        (if s.first() == from {
            rep
        } else {
            seq![s.first()]
        }) + replace_char_with_spec(s.drop_first(), from, rep)
    }
}

pub fn replace_char_with(s: &str, from: char, rep: &str) -> (r: String)
    ensures
        r@ == replace_char_with_spec(s@, from, rep@),
{
    let len = s.unicode_len();
    let mut r = String::new();
    let mut i: usize = 0;
    proof {
        assert(s@.skip(0) =~= s@);
        assert(r@ + replace_char_with_spec(s@, from, rep@) =~= replace_char_with_spec(
            s@,
            from,
            rep@,
        ));
    }
    while i < len
        invariant
            0 <= i <= len,
            len == s@.len(),
            replace_char_with_spec(s@, from, rep@) == r@ + replace_char_with_spec(
                s@.skip(i as int),
                from,
                rep@,
            ),
        decreases len - i,
    {
        proof {
            assert(s@.skip(i as int).first() == s@[i as int]);
            assert(s@.skip(i as int).drop_first() =~= s@.skip(i + 1));
        }
        let c = s.get_char(i);
        let ghost prev = r@;
        if c == from {
            r.append(rep);
            proof {
                assert(r@ =~= prev + rep@);
            }
        } else {
            push_char(&mut r, c);
            proof {
                assert(r@ =~= prev + seq![c]);
            }
        }
        proof {
            assert(prev + ((if s@[i as int] == from {
                rep@
            } else {
                seq![s@[i as int]]
            }) + replace_char_with_spec(s@.skip(i + 1), from, rep@)) =~= r@
                + replace_char_with_spec(s@.skip(i + 1), from, rep@));
        }
        i = i + 1;
    }
    proof {
        assert(s@.skip(len as int) =~= Seq::<char>::empty());
        assert(r@ + replace_char_with_spec(Seq::empty(), from, rep@) =~= r@);
    }
    r
}

} // verus!
