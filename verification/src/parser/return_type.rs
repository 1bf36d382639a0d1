//! Response shapes.
//!
//! A text line opening with `The response is a` announces the response; the
//! first table after it supplies the fields, resolved with the node-local
//! enumeration tables. The response is a list when the announcing sentence
//! mentions an array. A field whose type resolves to no known kind is a
//! structural error naming the offending type string.

use super::object_types::object_types_from;
use super::util::spec_col;
use super::{ReturnType, ReturnTypeParameter, ReturnTypeParameterV, ReturnTypeV};
use crate::md_parser::md_token::{contents_views, ContentV, MdContent, RowV};
use crate::md_parser::{TableRow, TokenTree};
use crate::text::{spec_contains, spec_starts_with, starts_with_vec, str_chars, contains_sub_vec};
use crate::types::{desc_map_view, spec_type_from, Type, TypeDescription, TypeDescriptionV};
use crate::ParseError;
use vstd::prelude::*;

verus! {

/// Index of the first text item at or after `i` that announces the
/// response.
pub open spec fn response_marker_at(cs: Seq<ContentV>, i: int) -> Option<int>
    decreases cs.len() - i,
{
    if i < 0 || i >= cs.len() {
        None
    } else if cs[i] matches ContentV::Text(t) && spec_starts_with(t, "The response is a"@) {
        Some(i)
    } else {
        response_marker_at(cs, i + 1)
    }
}

/// Index of the first table item at or after `i`.
pub open spec fn table_at(cs: Seq<ContentV>, i: int) -> Option<int>
    decreases cs.len() - i,
{
    if i < 0 || i >= cs.len() {
        None
    } else if cs[i] matches ContentV::Table(tb) {
        Some(i)
    } else {
        table_at(cs, i + 1)
    }
}

/// Whether the announcing sentence, if any, mentions an array.
pub open spec fn spec_is_list(cs: Seq<ContentV>) -> bool {
    match response_marker_at(cs, 0) {
        Some(m) => spec_contains(cs[m]->Text_0, "array"@),
        None => false,
    }
}

/// The resolved field of one response row; a row whose type resolves to
/// no known kind fails with that type string.
pub open spec fn spec_return_row(row: RowV, types: Seq<(Seq<char>, TypeDescriptionV)>) -> Result<
    ReturnTypeParameterV,
    Seq<char>,
> {
    match spec_type_from(spec_col(row, 1), spec_col(row, 0), Some(spec_col(row, 2)), types) {
        Some(t) => Ok(
            ReturnTypeParameterV {
                name: spec_col(row, 0),
                description: spec_col(row, 2),
                return_type: t,
            },
        ),
        None => Err(spec_col(row, 1)),
    }
}

/// The resolved fields of the response rows from position `i` on, or the
/// first failing type string.
pub open spec fn return_rows_from(
    rows: Seq<RowV>,
    types: Seq<(Seq<char>, TypeDescriptionV)>,
    i: int,
) -> Result<Seq<ReturnTypeParameterV>, Seq<char>>
    decreases rows.len() - i,
{
    if i < 0 || i >= rows.len() {
        Ok(Seq::empty())
    } else {
        match spec_return_row(rows[i], types) {
            Ok(p) => match return_rows_from(rows, types, i + 1) {
                Ok(rest) => Ok(seq![p] + rest),
                Err(e) => Err(e),
            },
            Err(e) => Err(e),
        }
    }
}

/// The response shape a content list declares, if any, or the first
/// failing type string.
pub open spec fn spec_parse_return_type(cs: Seq<ContentV>) -> Result<
    Option<ReturnTypeV>,
    Seq<char>,
> {
    match response_marker_at(cs, 0) {
        None => Ok(None),
        Some(m) => match table_at(cs, m) {
            None => Ok(None),
            Some(ti) => match return_rows_from(cs[ti]->Table_0.rows, object_types_from(cs, 0), 0) {
                Ok(ps) => Ok(Some(ReturnTypeV { is_list: spec_is_list(cs), parameters: ps })),
                Err(e) => Err(e),
            },
        },
    }
}

impl TableRow {
    /// Resolve one response row, or fail with its unresolved type string.
    pub fn to_return_type_parameter(&self, types: &Vec<(String, TypeDescription)>) -> (r: Result<
        ReturnTypeParameter,
        ParseError,
    >)
        ensures
            match r {
                Ok(p) => spec_return_row(self@, desc_map_view(types@)) == Ok::<
                    ReturnTypeParameterV,
                    Seq<char>,
                >(p@),
                Err(e) => e matches ParseError::UnresolvedReturnType { type_text }
                    && spec_return_row(self@, desc_map_view(types@)) == Err::<
                    ReturnTypeParameterV,
                    Seq<char>,
                >(type_text@),
            },
    {
        let name = super::util::col(self, 0);
        let type_str = super::util::col(self, 1);
        let description = super::util::col(self, 2);
        match Type::from(type_str.as_str(), name.as_str(), Some(description.clone()), types) {
            Some(t) => Ok(ReturnTypeParameter { name, description, return_type: t }),
            None => Err(ParseError::UnresolvedReturnType { type_text: type_str }),
        }
    }
}

/// The response shape declared among these content items; a row whose
/// type cannot be resolved is a structural error.
pub fn get_return_type(content: &Vec<MdContent>) -> (r: Result<Option<ReturnType>, ParseError>)
    ensures
        match r {
            Ok(o) => spec_parse_return_type(contents_views(content@)) == Ok::<
                Option<ReturnTypeV>,
                Seq<char>,
            >(match o {
                Some(rt) => Some(rt@),
                None => None,
            }),
            Err(e) => e matches ParseError::UnresolvedReturnType { type_text }
                && spec_parse_return_type(contents_views(content@)) == Err::<
                Option<ReturnTypeV>,
                Seq<char>,
            >(type_text@),
        },
{
    let ghost cs = contents_views(content@);
    let marker = str_chars("The response is a");
    let mut m: usize = 0;
    let mut found = false;
    while !found && m < content.len()
        invariant
            cs == contents_views(content@),
            marker@ == "The response is a"@,
            m <= content@.len(),
            response_marker_at(cs, 0) == (if found {
                Some(m as int)
            } else {
                response_marker_at(cs, m as int)
            }),
            found ==> m < content@.len() && cs[m as int] is Text,
        decreases content.len() - m + (if found {
            0int
        } else {
            1int
        }),
    {
        match &content[m] {
            MdContent::Text(t) => {
                let tv = str_chars(t.as_str());
                if starts_with_vec(&tv, &marker) {
                    found = true;
                } else {
                    m = m + 1;
                }
            },
            _ => {
                m = m + 1;
            },
        }
    }
    if !found {
        return Ok(None);
    }
    let is_list = match &content[m] {
        MdContent::Text(t) => {
            let tv = str_chars(t.as_str());
            contains_sub_vec(&tv, &str_chars("array"))
        },
        _ => false,
    };
    proof {
        assert(is_list == spec_is_list(cs));
    }
    let mut ti: usize = m;
    let mut table_found = false;
    while !table_found && ti < content.len()
        invariant
            cs == contents_views(content@),
            m <= ti <= content@.len(),
            table_at(cs, m as int) == (if table_found {
                Some(ti as int)
            } else {
                table_at(cs, ti as int)
            }),
            table_found ==> ti < content@.len() && cs[ti as int] is Table,
        decreases content.len() - ti + (if table_found {
            0int
        } else {
            1int
        }),
    {
        match &content[ti] {
            MdContent::Table(_) => {
                table_found = true;
            },
            _ => {
                ti = ti + 1;
            },
        }
    }
    if !table_found {
        return Ok(None);
    }
    let types = super::object_types::parse_object_types(content);
    let table = match &content[ti] {
        MdContent::Table(tb) => tb,
        _ => {
            proof {
                assert(false);
            }
            return Ok(None);
        },
    };
    let ghost rows = table@.rows;
    let ghost tv = desc_map_view(types@);
    let mut params: Vec<ReturnTypeParameter> = Vec::new();
    let mut k: usize = 0;
    while k < table.rows.len()
        invariant
            cs == contents_views(content@),
            response_marker_at(cs, 0) == Some(m as int),
            table_at(cs, m as int) == Some(ti as int),
            ti < cs.len(),
            cs[ti as int] is Table,
            cs[ti as int]->Table_0.rows == rows,
            is_list == spec_is_list(cs),
            rows == table@.rows,
            tv == desc_map_view(types@),
            tv == object_types_from(cs, 0),
            k <= rows.len(),
            match return_rows_from(rows, tv, k as int) {
                Ok(rest) => return_rows_from(rows, tv, 0) == Ok::<
                    Seq<ReturnTypeParameterV>,
                    Seq<char>,
                >(params@.map_values(|p: ReturnTypeParameter| p@) + rest),
                Err(e) => return_rows_from(rows, tv, 0) == Err::<
                    Seq<ReturnTypeParameterV>,
                    Seq<char>,
                >(e),
            },
        decreases table.rows.len() - k,
    {
        let ghost prev = params@;
        match table.rows[k].to_return_type_parameter(&types) {
            Ok(p) => {
                let ghost pv = p@;
                params.push(p);
                proof {
                    assert(params@.map_values(|p: ReturnTypeParameter| p@) =~= prev.map_values(
                        |p: ReturnTypeParameter| p@,
                    ).push(pv));
                    match return_rows_from(rows, tv, k + 1) {
                        Ok(rest) => {
                            assert(params@.map_values(|p: ReturnTypeParameter| p@) + rest
                                =~= prev.map_values(|p: ReturnTypeParameter| p@) + (seq![pv]
                                + rest));
                        },
                        Err(_) => {},
                    }
                }
            },
            Err(e) => {
                return Err(e);
            },
        }
        k = k + 1;
    }
    proof {
        assert(params@.map_values(|p: ReturnTypeParameter| p@) + Seq::<
            ReturnTypeParameterV,
        >::empty() =~= params@.map_values(|p: ReturnTypeParameter| p@));
    }
    Ok(Some(ReturnType { is_list, parameters: params }))
}

/// The response shape declared among these content items.
pub fn parse_return_type(content: &Vec<MdContent>) -> (r: Result<Option<ReturnType>, ParseError>)
    ensures
        match r {
            Ok(o) => spec_parse_return_type(contents_views(content@)) == Ok::<
                Option<ReturnTypeV>,
                Seq<char>,
            >(match o {
                Some(rt) => Some(rt@),
                None => None,
            }),
            Err(e) => e matches ParseError::UnresolvedReturnType { type_text }
                && spec_parse_return_type(contents_views(content@)) == Err::<
                Option<ReturnTypeV>,
                Seq<char>,
            >(type_text@),
        },
{
    get_return_type(content)
}

impl TokenTree {
    /// The response shape declared in this node's content.
    pub fn parse_return_type(&self) -> (r: Result<Option<ReturnType>, ParseError>)
        ensures
            match r {
                Ok(o) => spec_parse_return_type(self@.content) == Ok::<
                    Option<ReturnTypeV>,
                    Seq<char>,
                >(match o {
                    Some(rt) => Some(rt@),
                    None => None,
                }),
                Err(e) => e matches ParseError::UnresolvedReturnType { type_text }
                    && spec_parse_return_type(self@.content) == Err::<
                    Option<ReturnTypeV>,
                    Seq<char>,
                >(type_text@),
            },
    {
        get_return_type(&self.content)
    }

    /// Whether this node's response sentence announces an array.
    pub fn is_list(&self) -> (r: bool)
        ensures
            r == spec_is_list(self@.content),
    {
        let marker = str_chars("The response is a");
        match super::util::find_content_starts_with(&self.content, "The response is a") {
            Some(t) => {
                let tv = str_chars(t.as_str());
                let r = contains_sub_vec(&tv, &str_chars("array"));
                proof {
                    assert(super::util::text_starts_at(self@.content, "The response is a"@, 0)
                        == response_marker_at(self@.content, 0)) by {
                        lemma_response_marker_is_text_starts(self@.content, 0);
                    }
                }
                r
            },
            None => {
                proof {
                    lemma_response_marker_is_text_starts(self@.content, 0);
                }
                false
            },
        }
    }
}

/// The response marker scan agrees with the generic starts-with scan.
proof fn lemma_response_marker_is_text_starts(cs: Seq<ContentV>, i: int)
    ensures
        response_marker_at(cs, i) == super::util::text_starts_at(cs, "The response is a"@, i),
    decreases cs.len() - i,
{
    if 0 <= i && i < cs.len() {
        lemma_response_marker_is_text_starts(cs, i + 1);
    }
}

} // verus!
