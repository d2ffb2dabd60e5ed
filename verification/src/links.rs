//! The pagination walker: parsing of the `Link` response header.
//!
//! A `Link` header value is a comma-separated list of entries; each entry
//! carries a URL between angle brackets followed by semicolon-separated
//! parameters, and a `rel` parameter whose (possibly quoted) value is a
//! space-separated list of relation types.  A response has a next page
//! exactly when some entry carries the relation type `next`; relation types
//! compare case-insensitively.  Separators inside quoted sections do not
//! separate.

use vstd::prelude::*;
use vstd::string::StringExecFns;

use crate::headers::ResponseHeaders;
use crate::strutil::{
    find_char, find_char_at, lemma_find_char, split_seq, split_str, strip_quote_pair, trim_spaces,
    trimmed, unquoted,
};

verus! {

/// How asking for the next page's URL can fail.
#[derive(Clone, Copy, Debug, PartialEq, Eq, Structural)]
pub enum LinkError {
    /// No entry of the `Link` header carries the relation type `next` (or
    /// there is no `Link` header at all).
    NoNextLink,
    /// An entry carries the relation type `next` but no bracketed URL.
    MalformedNextLink,
}

/// The token `next`, compared case-insensitively.
pub open spec fn is_next_token(t: Seq<char>) -> bool {
    &&& t.len() == 4
    &&& (t[0] == 'n' || t[0] == 'N')
    &&& (t[1] == 'e' || t[1] == 'E')
    &&& (t[2] == 'x' || t[2] == 'X')
    &&& (t[3] == 't' || t[3] == 'T')
}

/// The value of a `rel=` parameter segment, unquoted, if the segment is one.
pub open spec fn rel_param_value(seg: Seq<char>) -> Option<Seq<char>> {
    let t = trimmed(seg);
    if t.len() >= 4 && t[0] == 'r' && t[1] == 'e' && t[2] == 'l' && t[3] == '=' {
        Some(unquoted(t.skip(4)))
    } else {
        None
    }
}

/// A relation list holds the relation type `next`.
pub open spec fn rel_value_has_next(v: Seq<char>) -> bool {
    exists|j: int|
        0 <= j < split_seq(v, ' ', true).len() && is_next_token(
            #[trigger] split_seq(v, ' ', true)[j],
        )
}

/// A parameter segment is a `rel=` parameter that lists `next`.
pub open spec fn seg_marks_next(seg: Seq<char>) -> bool {
    match rel_param_value(seg) {
        Some(v) => rel_value_has_next(v),
        None => false,
    }
}

/// An entry of the `Link` header carries the relation type `next`.
pub open spec fn entry_has_next_rel(e: Seq<char>) -> bool {
    exists|k: int|
        0 <= k < split_seq(e, ';', true).len() && seg_marks_next(
            #[trigger] split_seq(e, ';', true)[k],
        )
}

/// The URL of an entry: whatever stands between the first `<` and the next
/// `>` after it.
pub open spec fn entry_url(e: Seq<char>) -> Option<Seq<char>> {
    match find_char(e, '<') {
        None => None,
        Some(i) => match find_char(e.skip(i + 1), '>') {
            None => None,
            Some(j) => Some(e.subrange(i + 1, i + 1 + j)),
        },
    }
}

/// The entries of a `Link` header value.
pub open spec fn link_entries(s: Seq<char>) -> Seq<Seq<char>> {
    split_seq(s, ',', true)
}

/// Some entry of the header value carries the relation type `next`.
pub open spec fn link_has_next(s: Seq<char>) -> bool {
    exists|i: int|
        0 <= i < link_entries(s).len() && entry_has_next_rel(#[trigger] link_entries(s)[i])
}

/// Index of the first entry carrying the relation type `next`, if any.
pub open spec fn first_next_entry(es: Seq<Seq<char>>) -> Option<int>
    decreases es.len(),
{
    if es.len() == 0 {
        None
    } else if entry_has_next_rel(es[0]) {
        Some(0)
    } else {
        match first_next_entry(es.drop_first()) {
            None => None,
            Some(j) => Some(j + 1),
        }
    }
}

pub proof fn lemma_first_next_entry(es: Seq<Seq<char>>)
    ensures
        match first_next_entry(es) {
            None => forall|k: int| 0 <= k < es.len() ==> !entry_has_next_rel(#[trigger] es[k]),
            Some(i) => 0 <= i < es.len() && entry_has_next_rel(es[i]) && (forall|k: int|
                0 <= k < i ==> !entry_has_next_rel(#[trigger] es[k])),
        },
    decreases es.len(),
{
    if es.len() > 0 && !entry_has_next_rel(es[0]) {
        lemma_first_next_entry(es.drop_first());
        assert(forall|k: int| 1 <= k < es.len() ==> es[k] == es.drop_first()[k - 1]);
    }
}

/// The raw `Link` header value of a header set, as a sequence view.
pub open spec fn link_view(h: ResponseHeaders) -> Option<Seq<char>> {
    match h.link {
        Some(l) => Some(l@),
        None => None,
    }
}

/// A header set announces a next page exactly when it has a `Link` header
/// with an entry of relation type `next`.
pub open spec fn has_next_page(v: Option<Seq<char>>) -> bool {
    match v {
        None => false,
        Some(s) => link_has_next(s),
    }
}

/// The next page's URL: the bracketed URL of the first entry carrying the
/// relation type `next`.
pub open spec fn next_page_url(v: Option<Seq<char>>) -> Result<Seq<char>, LinkError> {
    match v {
        None => Err(LinkError::NoNextLink),
        Some(s) => {
            let es = link_entries(s);
            match first_next_entry(es) {
                None => Err(LinkError::NoNextLink),
                Some(i) => match entry_url(es[i]) {
                    None => Err(LinkError::MalformedNextLink),
                    Some(u) => Ok(u),
                },
            }
        },
    }
}

/// The views of a vector of strings.
pub open spec fn views_of(v: Seq<String>) -> Seq<Seq<char>> {
    v.map_values(|x: String| x@)
}

fn is_next_token_exec(t: &str) -> (r: bool)
    ensures
        r == is_next_token(t@),
{
    if t.unicode_len() != 4 {
        return false;
    }
    let c0 = t.get_char(0);
    let c1 = t.get_char(1);
    let c2 = t.get_char(2);
    let c3 = t.get_char(3);
    (c0 == 'n' || c0 == 'N') && (c1 == 'e' || c1 == 'E') && (c2 == 'x' || c2 == 'X') && (c3 == 't'
        || c3 == 'T')
}

fn rel_value_has_next_exec(v: &str) -> (r: bool)
    ensures
        r == rel_value_has_next(v@),
{
    let toks = split_str(v, ' ', true);
    let mut j: usize = 0;
    while j < toks.len()
        invariant
            0 <= j <= toks@.len(),
            toks@.len() == split_seq(v@, ' ', true).len(),
            forall|k: int| 0 <= k < toks@.len() ==> toks@[k]@ == split_seq(v@, ' ', true)[k],
            forall|k: int| 0 <= k < j ==> !is_next_token(split_seq(v@, ' ', true)[k]),
        decreases toks@.len() - j,
    {
        if is_next_token_exec(toks[j].as_str()) {
            proof {
                assert(is_next_token(split_seq(v@, ' ', true)[j as int]));
            }
            return true;
        }
        j = j + 1;
    }
    false
}

fn seg_marks_next_exec(seg: &str) -> (r: bool)
    ensures
        r == seg_marks_next(seg@),
{
    let t = trim_spaces(seg);
    let n = t.unicode_len();
    if n < 4 {
        return false;
    }
    if !(t.get_char(0) == 'r' && t.get_char(1) == 'e' && t.get_char(2) == 'l' && t.get_char(3)
        == '=') {
        return false;
    }
    let tail = t.substring_char(4, n);
    proof {
        assert(tail@ =~= trimmed(seg@).skip(4));
    }
    let v = strip_quote_pair(tail);
    rel_value_has_next_exec(v)
}

fn entry_marks_next(e: &str) -> (r: bool)
    ensures
        r == entry_has_next_rel(e@),
{
    let segs = split_str(e, ';', true);
    let mut k: usize = 0;
    while k < segs.len()
        invariant
            0 <= k <= segs@.len(),
            segs@.len() == split_seq(e@, ';', true).len(),
            forall|t: int| 0 <= t < segs@.len() ==> segs@[t]@ == split_seq(e@, ';', true)[t],
            forall|t: int| 0 <= t < k ==> !seg_marks_next(split_seq(e@, ';', true)[t]),
        decreases segs@.len() - k,
    {
        if seg_marks_next_exec(segs[k].as_str()) {
            proof {
                assert(seg_marks_next(split_seq(e@, ';', true)[k as int]));
            }
            return true;
        }
        k = k + 1;
    }
    false
}

/// The URL of an entry, if it has a bracketed one.
fn entry_url_exec(e: &str) -> (r: Option<String>)
    ensures
        (r is None) == (entry_url(e@) is None),
        r matches Some(u) ==> entry_url(e@) == Some(u@),
{
    let n = e.unicode_len();
    match find_char_at(e, '<') {
        None => None,
        Some(i) => {
            proof {
                lemma_find_char(e@, '<');
            }
            let rest = e.substring_char(i + 1, n);
            proof {
                assert(rest@ =~= e@.skip(i + 1));
            }
            match find_char_at(rest, '>') {
                None => None,
                Some(j) => {
                    proof {
                        lemma_find_char(rest@, '>');
                    }
                    let u = rest.substring_char(0, j);
                    proof {
                        assert(u@ =~= e@.subrange(i + 1, i + 1 + j));
                    }
                    Some(String::from_str(u))
                },
            }
        },
    }
}

/// Index of the first entry of `entries` that carries the relation type
/// `next`.
fn find_next_entry(entries: &Vec<String>) -> (r: Option<usize>)
    ensures
        (r is None) == (first_next_entry(views_of(entries@)) is None),
        r matches Some(i) ==> first_next_entry(views_of(entries@)) == Some(i as int),
{
    let mut i: usize = 0;
    while i < entries.len()
        invariant
            0 <= i <= entries@.len(),
            forall|k: int| 0 <= k < i ==> !entry_has_next_rel(#[trigger] views_of(entries@)[k]),
        decreases entries@.len() - i,
    {
        if entry_marks_next(entries[i].as_str()) {
            proof {
                assert(views_of(entries@)[i as int] == entries@[i as int]@);
                assert(entry_has_next_rel(views_of(entries@)[i as int]));
                lemma_first_next_entry(views_of(entries@));
            }
            return Some(i);
        }
        i = i + 1;
    }
    proof {
        lemma_first_next_entry(views_of(entries@));
    }
    None
}

/// Whether the response's headers announce another page of results.
pub fn response_has_a_next_link(h: &ResponseHeaders) -> (r: bool)
    ensures
        r == has_next_page(link_view(*h)),
{
    match &h.link {
        None => false,
        Some(l) => {
            let entries = split_str(l.as_str(), ',', true);
            let found = find_next_entry(&entries);
            proof {
                assert(views_of(entries@) =~= link_entries(l@));
                lemma_first_next_entry(link_entries(l@));
            }
            match found {
                Some(_) => true,
                None => false,
            }
        },
    }
}

/// The next page's URL.  The caller is expected to check
/// `response_has_a_next_link` first; without a `next` entry this returns
/// `Err(LinkError::NoNextLink)`, and a `next` entry without a bracketed URL
/// returns `Err(LinkError::MalformedNextLink)`.
pub fn response_next_link(h: &ResponseHeaders) -> (r: Result<String, LinkError>)
    ensures
        ({
            let wanted = next_page_url(link_view(*h));
            match r {
                Ok(u) => wanted matches Ok(w) && w == u@,
                Err(e) => wanted matches Err(w) && w == e,
            }
        }),
{
    match &h.link {
        None => Err(LinkError::NoNextLink),
        Some(l) => {
            let entries = split_str(l.as_str(), ',', true);
            proof {
                assert(views_of(entries@) =~= link_entries(l@));
            }
            match find_next_entry(&entries) {
                None => Err(LinkError::NoNextLink),
                Some(i) => {
                    proof {
                        lemma_first_next_entry(link_entries(l@));
                    }
                    match entry_url_exec(entries[i].as_str()) {
                        None => Err(LinkError::MalformedNextLink),
                        Some(u) => Ok(u),
                    }
                },
            }
        },
    }
}

/// `next_page_url` returns a URL exactly when the header set announces a
/// next page whose first `next` entry carries a bracketed URL; without any
/// `next` entry it reports `NoNextLink`.
pub proof fn lemma_next_page_url_cases(v: Option<Seq<char>>)
    ensures
        !has_next_page(v) ==> next_page_url(v) == Err::<Seq<char>, LinkError>(
            LinkError::NoNextLink,
        ),
        next_page_url(v) is Ok ==> has_next_page(v),
        has_next_page(v) ==> next_page_url(v) != Err::<Seq<char>, LinkError>(
            LinkError::NoNextLink,
        ),
{
    match v {
        None => {
        },
        Some(s) => {
            lemma_first_next_entry(link_entries(s));
            match first_next_entry(link_entries(s)) {
                None => {
                    assert(!link_has_next(s));
                },
                Some(i) => {
                    assert(link_has_next(s));
                },
            }
        },
    }
}

} // verus!
