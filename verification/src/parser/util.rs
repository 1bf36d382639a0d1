//! Scans over a node's content list.

use crate::md_parser::md_token::{contents_views, ContentV, MdContent, RowV};
use crate::md_parser::TokenTree;
use crate::text::{spec_starts_with, spec_contains, starts_with_vec, contains_sub_vec, str_chars};
use vstd::prelude::*;

verus! {

/// Index of the first text item at or after `i` whose text begins with `p`.
pub open spec fn text_starts_at(cs: Seq<ContentV>, p: Seq<char>, i: int) -> Option<int>
    decreases cs.len() - i,
{
    if i < 0 || i >= cs.len() {
        None
    } else if cs[i] matches ContentV::Text(t) && spec_starts_with(t, p) {
        Some(i)
    } else {
        text_starts_at(cs, p, i + 1)
    }
}

/// Index of the first text item at or after `i` whose text contains `p`.
pub open spec fn text_contains_at(cs: Seq<ContentV>, p: Seq<char>, i: int) -> Option<int>
    decreases cs.len() - i,
{
    if i < 0 || i >= cs.len() {
        None
    } else if cs[i] matches ContentV::Text(t) && spec_contains(t, p) {
        Some(i)
    } else {
        text_contains_at(cs, p, i + 1)
    }
}

/// The text of the first text item that begins with `p`, if any.
pub open spec fn spec_find_starts_with(cs: Seq<ContentV>, p: Seq<char>) -> Option<Seq<char>> {
    match text_starts_at(cs, p, 0) {
        Some(i) => Some(cs[i]->Text_0),
        None => None,
    }
}

/// The text of the first text item that contains `p`, if any.
pub open spec fn spec_find_contains(cs: Seq<ContentV>, p: Seq<char>) -> Option<Seq<char>> {
    match text_contains_at(cs, p, 0) {
        Some(i) => Some(cs[i]->Text_0),
        None => None,
    }
}

/// The first text line that begins with `starts_with`.
pub fn find_content_starts_with(content: &Vec<MdContent>, starts_with: &str) -> (r: Option<String>)
    ensures
        (match r {
            Some(t) => Some(t@),
            None => None,
        }) == spec_find_starts_with(contents_views(content@), starts_with@),
{
    let p = str_chars(starts_with);
    let ghost cs = contents_views(content@);
    let mut i: usize = 0;
    while i < content.len()
        invariant
            cs == contents_views(content@),
            p@ == starts_with@,
            i <= content@.len(),
            text_starts_at(cs, p@, 0) == text_starts_at(cs, p@, i as int),
        decreases content.len() - i,
    {
        proof {
            assert(cs[i as int] == content@[i as int]@);
        }
        match &content[i] {
            MdContent::Text(t) => {
                let tv = str_chars(t.as_str());
                if starts_with_vec(&tv, &p) {
                    return Some(t.clone());
                }
            },
            _ => {},
        }
        i = i + 1;
    }
    None
}

/// The first text line that contains `contains`.
pub fn find_content_contains(content: &Vec<MdContent>, contains: &str) -> (r: Option<String>)
    ensures
        (match r {
            Some(t) => Some(t@),
            None => None,
        }) == spec_find_contains(contents_views(content@), contains@),
{
    let p = str_chars(contains);
    let ghost cs = contents_views(content@);
    let mut i: usize = 0;
    while i < content.len()
        invariant
            cs == contents_views(content@),
            p@ == contains@,
            i <= content@.len(),
            text_contains_at(cs, p@, 0) == text_contains_at(cs, p@, i as int),
        decreases content.len() - i,
    {
        proof {
            assert(cs[i as int] == content@[i as int]@);
        }
        match &content[i] {
            MdContent::Text(t) => {
                let tv = str_chars(t.as_str());
                if contains_sub_vec(&tv, &p) {
                    return Some(t.clone());
                }
            },
            _ => {},
        }
        i = i + 1;
    }
    None
}

impl TokenTree {
    /// The first content text line that begins with `starts_with`.
    pub fn find_content_starts_with(&self, starts_with: &str) -> (r: Option<String>)
        ensures
            (match r {
                Some(t) => Some(t@),
                None => None,
            }) == spec_find_starts_with(self@.content, starts_with@),
    {
        find_content_starts_with(&self.content, starts_with)
    }

    /// The first content text line that contains `contains`.
    pub fn find_content_contains(&self, contains: &str) -> (r: Option<String>)
        ensures
            (match r {
                Some(t) => Some(t@),
                None => None,
            }) == spec_find_contains(self@.content, contains@),
    {
        find_content_contains(&self.content, contains)
    }
}

/// The cell at position `i` of a row, or empty text where the row is too
/// short.
pub open spec fn spec_col(r: RowV, i: int) -> Seq<char> {
    if 0 <= i < r.columns.len() {
        r.columns[i]
    } else {
        Seq::empty()
    }
}

/// The cell at position `i` of a row, if the row reaches that far.
pub open spec fn spec_col_opt(r: RowV, i: int) -> Option<Seq<char>> {
    if 0 <= i < r.columns.len() {
        Some(r.columns[i])
    } else {
        None
    }
}

/// The cell at position `i` of a row, empty where missing.
pub fn col(row: &crate::md_parser::TableRow, i: usize) -> (c: String)
    ensures
        c@ == spec_col(row@, i as int),
{
    if i < row.columns.len() {
        row.columns[i].clone()
    } else {
        String::new()
    }
}

/// The cell at position `i` of a row, where the row reaches that far.
pub fn col_opt(row: &crate::md_parser::TableRow, i: usize) -> (c: Option<String>)
    ensures
        (match c {
            Some(t) => Some(t@),
            None => None,
        }) == spec_col_opt(row@, i as int),
{
    if i < row.columns.len() {
        Some(row.columns[i].clone())
    } else {
        None
    }
}

} // verus!
