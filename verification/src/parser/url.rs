//! URL path segments.
//!
//! Each group section carries one boilerplate sentence of the form
//! `All <words> API methods are under "<segment>", e.g. ...`; the quoted
//! segment is the group's URL. A method's URL is its own name, taken from
//! the `Name: ` marker line with the inline-code backticks removed.

use super::util::{spec_find_contains, spec_find_starts_with};
use crate::md_parser::md_token::{contents_views, ContentV, MdContent};
use crate::md_parser::TokenTree;
use crate::text::{
    chars_string, find_sub_vec, first_sub_at, is_space_char, is_word_char, match_at_vec,
    space_char, spec_match_at, spec_starts_with, spec_strip_prefix_all, spec_trim_char, str_chars,
    strip_prefix_all_vec, subrange_vec, trim_char_vec, word_char, word_end_exec, word_end_from,
};
use vstd::prelude::*;

verus! {

/// The path segment named by one group-URL sentence: the line must open
/// with `All`, then words and spaces, then ` API methods are under "`,
/// then the word-character segment, closed by `", e.g.`.
pub open spec fn group_url_of(l: Seq<char>) -> Option<Seq<char>> {
    match first_sub_at(l, " API methods are under \""@, 0) {
        Some(k) => {
            let ws = k + " API methods are under \""@.len() as int;
            let we = word_end_from(l, ws);
            if spec_starts_with(l, "All "@) && 4 < k && is_word_char(l[4]) && (forall|j: int|
                4 <= j < k ==> is_word_char(#[trigger] l[j]) || is_space_char(l[j])) && we > ws
                && spec_match_at(l, "\", e.g."@, we) {
                Some(l.subrange(ws, we))
            } else {
                None
            }
        },
        None => None,
    }
}

/// The group URL a content list declares, if any: the first text line
/// mentioning the boilerplate sentence, read by [`group_url_of`].
pub open spec fn spec_group_url(cs: Seq<ContentV>) -> Option<Seq<char>> {
    match spec_find_contains(cs, "API methods are under"@) {
        Some(t) => group_url_of(t),
        None => None,
    }
}

/// The method name and URL a content list declares, if any: the remainder
/// of the `Name: ` marker line, backticks stripped.
pub open spec fn spec_method_url(cs: Seq<ContentV>) -> Option<Seq<char>> {
    match spec_find_starts_with(cs, "Name: "@) {
        Some(t) => Some(spec_trim_char(spec_strip_prefix_all(t, "Name: "@), '`')),
        None => None,
    }
}

/// Read the path segment out of one group-URL sentence.
pub fn parse_group_url_line(line: &str) -> (r: Option<String>)
    ensures
        (match r {
            Some(t) => Some(t@),
            None => None,
        }) == group_url_of(line@),
{
    let lv = str_chars(line);
    let key = str_chars(" API methods are under \"");
    let k = match find_sub_vec(&lv, &key) {
        Some(k) => k,
        None => {
            return None;
        },
    };
    proof {
        crate::text::lemma_first_sub_at_bounds(lv@, " API methods are under \""@, 0);
        reveal_strlit(" API methods are under \"");
        reveal_strlit("All ");
    }
    let ws = k + key.len();
    let we = word_end_exec(&lv, ws);
    let allv = str_chars("All ");
    let eg = str_chars("\", e.g.");
    if !(match_at_vec(&lv, &allv, 0) && 4 < k && word_char(lv[4])) {
        return None;
    }
    let mut j: usize = 4;
    while j < k
        invariant
            lv@ == line@,
            first_sub_at(lv@, " API methods are under \""@, 0) == Some(k as int),
            4 <= j <= k,
            k < lv@.len(),
            forall|t: int| 4 <= t < j ==> is_word_char(#[trigger] lv@[t]) || is_space_char(lv@[t]),
        decreases k - j,
    {
        if !(word_char(lv[j]) || space_char(lv[j])) {
            proof {
                assert(!(is_word_char(lv@[j as int]) || is_space_char(lv@[j as int])));
            }
            return None;
        }
        j = j + 1;
    }
    if we > ws && match_at_vec(&lv, &eg, we) {
        Some(chars_string(&subrange_vec(&lv, ws, we)))
    } else {
        None
    }
}

/// The group URL declared among these content items.
pub fn get_group_url(content: &Vec<MdContent>) -> (r: Option<String>)
    ensures
        (match r {
            Some(t) => Some(t@),
            None => None,
        }) == spec_group_url(contents_views(content@)),
{
    let row = match super::util::find_content_contains(content, "API methods are under") {
        Some(row) => row,
        None => {
            return None;
        },
    };
    parse_group_url_line(row.as_str())
}

/// The method URL declared among these content items.
pub fn get_method_url(content: &Vec<MdContent>) -> (r: Option<String>)
    ensures
        (match r {
            Some(t) => Some(t@),
            None => None,
        }) == spec_method_url(contents_views(content@)),
{
    let text = match super::util::find_content_starts_with(content, "Name: ") {
        Some(t) => t,
        None => {
            return None;
        },
    };
    let tv = str_chars(text.as_str());
    let name = str_chars("Name: ");
    proof {
        reveal_strlit("Name: ");
    }
    let stripped = strip_prefix_all_vec(&tv, &name);
    Some(chars_string(&trim_char_vec(&stripped, '`')))
}

impl TokenTree {
    /// The group URL declared in this node's content.
    pub fn get_group_url(&self) -> (r: Option<String>)
        ensures
            (match r {
                Some(t) => Some(t@),
                None => None,
            }) == spec_group_url(self@.content),
    {
        get_group_url(&self.content)
    }

    /// The method URL declared in this node's content.
    pub fn get_method_url(&self) -> (r: Option<String>)
        ensures
            (match r {
                Some(t) => Some(t@),
                None => None,
            }) == spec_method_url(self@.content),
    {
        get_method_url(&self.content)
    }
}

} // verus!
