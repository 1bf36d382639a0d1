//! Group and method descriptions.
//!
//! A group's description is all of its directly-owned content rendered back
//! to text. A method's description is the prose that follows its `Returns:`
//! block: the marker line and one blank line are skipped, then everything up
//! to and including the next blank line, and the remaining text lines are
//! collected.

use crate::md_parser::md_token::{content_text, contents_views, ContentV, MdContent};
use crate::md_parser::TokenTree;
use crate::text::{
    chars_string, join_nl, spec_join_nl, spec_starts_with, spec_trim, starts_with_vec, str_chars,
    trim_vec, views_of_strings,
};
use vstd::prelude::*;

verus! {

/// The newline-joined text of all content items, trimmed; nothing when
/// empty.
pub open spec fn spec_group_description(cs: Seq<ContentV>) -> Option<Seq<char>> {
    let t = spec_trim(spec_join_nl(cs.map_values(|c: ContentV| content_text(c))));
    if t.len() == 0 {
        None
    } else {
        Some(t)
    }
}

/// Index of the first emphasis item at or after `i` whose text begins
/// with `Returns:`.
pub open spec fn returns_marker_at(cs: Seq<ContentV>, i: int) -> Option<int>
    decreases cs.len() - i,
{
    if i < 0 || i >= cs.len() {
        None
    } else if cs[i] matches ContentV::Asterisk(t) && spec_starts_with(t, "Returns:"@) {
        Some(i)
    } else {
        returns_marker_at(cs, i + 1)
    }
}

/// Index of the first empty text item at or after `i`.
pub open spec fn empty_text_at(cs: Seq<ContentV>, i: int) -> Option<int>
    decreases cs.len() - i,
{
    if i < 0 || i >= cs.len() {
        None
    } else if cs[i] matches ContentV::Text(t) && t.len() == 0 {
        Some(i)
    } else {
        empty_text_at(cs, i + 1)
    }
}

/// The texts of all text items from `i` on.
pub open spec fn texts_from(cs: Seq<ContentV>, i: int) -> Seq<Seq<char>>
    decreases cs.len() - i,
{
    if i < 0 || i >= cs.len() {
        Seq::empty()
    } else {
        match cs[i] {
            ContentV::Text(t) => seq![t] + texts_from(cs, i + 1),
            _ => texts_from(cs, i + 1),
        }
    }
}

/// The method description carried by a content list: the text lines after
/// the `Returns:` block, joined and trimmed; nothing when empty.
pub open spec fn spec_method_description(cs: Seq<ContentV>) -> Option<Seq<char>> {
    let start = match returns_marker_at(cs, 0) {
        Some(m) => match empty_text_at(cs, m + 2) {
            Some(e) => e + 1,
            None => cs.len() as int,
        },
        None => cs.len() as int,
    };
    let t = spec_trim(spec_join_nl(texts_from(cs, start)));
    if t.len() == 0 {
        None
    } else {
        Some(t)
    }
}

/// The group description: every directly-owned content item rendered back
/// to text, newline-joined and trimmed.
pub fn get_group_description(content: &Vec<MdContent>) -> (r: Option<String>)
    ensures
        (match r {
            Some(t) => Some(t@),
            None => None,
        }) == spec_group_description(contents_views(content@)),
{
    let ghost cs = contents_views(content@);
    let mut items: Vec<String> = Vec::new();
    let mut i: usize = 0;
    while i < content.len()
        invariant
            cs == contents_views(content@),
            i <= content@.len(),
            items@.len() == i,
            forall|k: int| 0 <= k < i ==> #[trigger] items@[k]@ == content_text(cs[k]),
        decreases content.len() - i,
    {
        items.push(content[i].inner_value_as_string());
        i = i + 1;
    }
    proof {
        assert(views_of_strings(items@) =~= cs.map_values(|c: ContentV| content_text(c)));
    }
    let joined = join_nl(&items);
    let t = trim_vec(&str_chars(joined.as_str()));
    if t.len() == 0 {
        None
    } else {
        Some(chars_string(&t))
    }
}

/// The method description: the prose after the `Returns:` block.
pub fn get_method_description(content: &Vec<MdContent>) -> (r: Option<String>)
    ensures
        (match r {
            Some(t) => Some(t@),
            None => None,
        }) == spec_method_description(contents_views(content@)),
{
    let ghost cs = contents_views(content@);
    let marker = str_chars("Returns:");
    let mut m: usize = 0;
    let mut found = false;
    while !found && m < content.len()
        invariant
            cs == contents_views(content@),
            marker@ == "Returns:"@,
            m <= content@.len(),
            returns_marker_at(cs, 0) == (if found {
                Some(m as int)
            } else {
                returns_marker_at(cs, m as int)
            }),
            found ==> m < content@.len(),
        decreases content.len() - m + (if found {
            0int
        } else {
            1int
        }),
    {
        match &content[m] {
            MdContent::Asterisk(t) => {
                let tv = str_chars(t.as_str());
                if starts_with_vec(&tv, &marker) {
                    found = true;
                } else {
                    m = m + 1;
                }
            },
            _ => {
                m = m + 1;
            },
        }
    }
    let start: usize = if found {
        let n = content.len();
        let mut k: usize = m + 1;
        if k < n {
            k = k + 1;
        }
        proof {
            assert(empty_text_at(cs, m + 2) == empty_text_at(cs, k as int));
        }
        let mut stop = false;
        while !stop && k < content.len()
            invariant
                cs == contents_views(content@),
                m < content@.len(),
                k <= content@.len(),
                returns_marker_at(cs, 0) == Some(m as int),
                empty_text_at(cs, m + 2) == (if stop {
                    Some(k as int)
                } else {
                    empty_text_at(cs, k as int)
                }),
                stop ==> k < content@.len(),
            decreases content.len() - k + (if stop {
                0int
            } else {
                1int
            }),
        {
            match &content[k] {
                MdContent::Text(t) => {
                    if t.unicode_len() == 0 {
                        stop = true;
                    } else {
                        k = k + 1;
                    }
                },
                _ => {
                    k = k + 1;
                },
            }
        }
        if stop {
            k + 1
        } else {
            content.len()
        }
    } else {
        content.len()
    };
    let ghost gstart = (match returns_marker_at(cs, 0) {
        Some(mm) => match empty_text_at(cs, mm + 2) {
            Some(e) => e + 1,
            None => cs.len() as int,
        },
        None => cs.len() as int,
    });
    proof {
        assert(start as int == gstart || (start as int >= cs.len() && gstart >= cs.len()));
        assert(texts_from(cs, start as int) == texts_from(cs, gstart));
    }
    let mut items: Vec<String> = Vec::new();
    let mut i: usize = start;
    while i < content.len()
        invariant
            cs == contents_views(content@),
            start <= i,
            i <= content@.len() || i == start,
            views_of_strings(items@) + texts_from(cs, i as int) == texts_from(cs, start as int),
        decreases content.len() - i,
    {
        match &content[i] {
            MdContent::Text(t) => {
                let ghost prev = items@;
                items.push(t.clone());
                proof {
                    assert(views_of_strings(items@) =~= views_of_strings(prev).push(t@));
                    assert(views_of_strings(items@) + texts_from(cs, i + 1) =~= views_of_strings(
                        prev,
                    ) + (seq![cs[i as int]->Text_0] + texts_from(cs, i + 1)));
                }
            },
            _ => {},
        }
        i = i + 1;
    }
    proof {
        assert(views_of_strings(items@) + texts_from(cs, i as int) =~= views_of_strings(items@));
    }
    let joined = join_nl(&items);
    let t = trim_vec(&str_chars(joined.as_str()));
    if t.len() == 0 {
        None
    } else {
        Some(chars_string(&t))
    }
}

impl TokenTree {
    /// The group description of this node's own content.
    pub fn parse_group_description(&self) -> (r: Option<String>)
        ensures
            (match r {
                Some(t) => Some(t@),
                None => None,
            }) == spec_group_description(self@.content),
    {
        get_group_description(&self.content)
    }

    /// The method description of this node's own content.
    pub fn parse_method_description(&self) -> (r: Option<String>)
        ensures
            (match r {
                Some(t) => Some(t@),
                None => None,
            }) == spec_method_description(self@.content),
    {
        get_method_description(&self.content)
    }
}

} // verus!
