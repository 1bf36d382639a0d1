//! Parameter tables.
//!
//! A `Parameters:` marker line, one item later, is followed by the table
//! whose rows are the method's parameters. A row whose description names a
//! default value is an optional parameter: the sentinel is appended to its
//! name before resolution and recorded as optionality.

use super::util::{spec_col, spec_col_opt};
use crate::md_parser::md_token::{contents_views, ContentV, MdContent, RowV};
use crate::md_parser::TableRow;
use crate::text::{spec_contains, spec_starts_with, starts_with_vec, str_chars, contains_sub_vec};
use crate::types::{desc_map_view, opt_type_view, spec_type_from, Type, TypeDescription, TypeV};
use vstd::prelude::*;

verus! {

/// Index of the first text or emphasis item at or after `i` whose text
/// begins with `Parameters:`.
pub open spec fn params_marker_at(cs: Seq<ContentV>, i: int) -> Option<int>
    decreases cs.len() - i,
{
    if i < 0 || i >= cs.len() {
        None
    } else if (cs[i] matches ContentV::Text(t) && spec_starts_with(t, "Parameters:"@)) || (
    cs[i] matches ContentV::Asterisk(t) && spec_starts_with(t, "Parameters:"@)) {
        Some(i)
    } else {
        params_marker_at(cs, i + 1)
    }
}

/// The resolved type of one parameter row: a description naming a default
/// value appends the optional sentinel to the field name first.
pub open spec fn spec_row_to_type(
    row: RowV,
    types: Seq<(Seq<char>, crate::types::TypeDescriptionV)>,
) -> Option<TypeV> {
    let desc = spec_col_opt(row, 2);
    if desc is Some && spec_contains(desc->0, "default: "@) {
        spec_type_from(spec_col(row, 1), spec_col(row, 0) + " _optional_"@, desc, types)
    } else {
        spec_type_from(spec_col(row, 1), spec_col(row, 0), desc, types)
    }
}

/// The resolved types of the rows from position `i` on; a row that
/// resolves to no known kind is dropped.
pub open spec fn rows_to_types_from(
    rows: Seq<RowV>,
    types: Seq<(Seq<char>, crate::types::TypeDescriptionV)>,
    i: int,
) -> Seq<TypeV>
    decreases rows.len() - i,
{
    if i < 0 || i >= rows.len() {
        Seq::empty()
    } else {
        match spec_row_to_type(rows[i], types) {
            Some(t) => seq![t] + rows_to_types_from(rows, types, i + 1),
            None => rows_to_types_from(rows, types, i + 1),
        }
    }
}

/// The parameter list a content list declares: the rows of the table two
/// items after the `Parameters:` marker, resolved with no enumeration
/// lookups.
pub open spec fn spec_parse_parameters(cs: Seq<ContentV>) -> Option<Seq<TypeV>> {
    match params_marker_at(cs, 0) {
        Some(m) => if m + 2 < cs.len() {
            match cs[m + 2] {
                ContentV::Table(tb) => Some(rows_to_types_from(tb.rows, Seq::empty(), 0)),
                _ => None,
            }
        } else {
            None
        },
        None => None,
    }
}

/// Resolve one parameter row.
pub fn parse_parameter(row: &TableRow, types: &Vec<(String, TypeDescription)>) -> (r: Option<Type>)
    ensures
        opt_type_view(r) == spec_row_to_type(row@, desc_map_view(types@)),
{
    let description = super::util::col_opt(row, 2);
    let name = super::util::col(row, 0);
    let type_str = super::util::col(row, 1);
    let has_default = match &description {
        Some(d) => {
            let dv = str_chars(d.as_str());
            contains_sub_vec(&dv, &str_chars("default: "))
        },
        None => false,
    };
    if has_default {
        let mut name_with_optional = name;
        name_with_optional.append(" _optional_");
        Type::from(type_str.as_str(), name_with_optional.as_str(), description, types)
    } else {
        Type::from(type_str.as_str(), name.as_str(), description, types)
    }
}

/// The parameter list declared among these content items.
pub fn parse_parameters(content: &Vec<MdContent>) -> (r: Option<Vec<Type>>)
    ensures
        (match r {
            Some(ts) => Some(ts@.map_values(|t: Type| t@)),
            None => None,
        }) == spec_parse_parameters(contents_views(content@)),
{
    let ghost cs = contents_views(content@);
    let marker = str_chars("Parameters:");
    let mut m: usize = 0;
    let mut found = false;
    while !found && m < content.len()
        invariant
            cs == contents_views(content@),
            marker@ == "Parameters:"@,
            m <= content@.len(),
            params_marker_at(cs, 0) == (if found {
                Some(m as int)
            } else {
                params_marker_at(cs, m as int)
            }),
            found ==> m < content@.len(),
        decreases content.len() - m + (if found {
            0int
        } else {
            1int
        }),
    {
        match &content[m] {
            MdContent::Text(t) => {
                let tv = str_chars(t.as_str());
                if starts_with_vec(&tv, &marker) {
                    found = true;
                } else {
                    m = m + 1;
                }
            },
            MdContent::Asterisk(t) => {
                let tv = str_chars(t.as_str());
                if starts_with_vec(&tv, &marker) {
                    found = true;
                } else {
                    m = m + 1;
                }
            },
            _ => {
                m = m + 1;
            },
        }
    }
    if !found {
        return None;
    }
    if content.len() - m <= 2 {
        return None;
    }
    let table = match &content[m + 2] {
        MdContent::Table(tb) => tb,
        _ => {
            return None;
        },
    };
    let empty_types: Vec<(String, TypeDescription)> = Vec::new();
    proof {
        assert(desc_map_view(empty_types@) =~= Seq::<
            (Seq<char>, crate::types::TypeDescriptionV),
        >::empty());
    }
    let ghost rows = table@.rows;
    let mut out: Vec<Type> = Vec::new();
    let mut k: usize = 0;
    while k < table.rows.len()
        invariant
            rows == table@.rows,
            desc_map_view(empty_types@) == Seq::<(Seq<char>, crate::types::TypeDescriptionV)>::empty(),
            k <= rows.len(),
            out@.map_values(|t: Type| t@) + rows_to_types_from(rows, Seq::empty(), k as int)
                == rows_to_types_from(rows, Seq::empty(), 0),
        decreases table.rows.len() - k,
    {
        let ghost prev = out@;
        match parse_parameter(&table.rows[k], &empty_types) {
            Some(t) => {
                let ghost tv = t@;
                out.push(t);
                proof {
                    assert(out@.map_values(|t: Type| t@) =~= prev.map_values(|t: Type| t@).push(
                        tv,
                    ));
                    assert(out@.map_values(|t: Type| t@) + rows_to_types_from(
                        rows,
                        Seq::empty(),
                        k + 1,
                    ) =~= prev.map_values(|t: Type| t@) + (seq![tv] + rows_to_types_from(
                        rows,
                        Seq::empty(),
                        k + 1,
                    )));
                }
            },
            None => {},
        }
        k = k + 1;
    }
    proof {
        assert(out@.map_values(|t: Type| t@) + rows_to_types_from(rows, Seq::empty(), k as int)
            =~= out@.map_values(|t: Type| t@));
    }
    Some(out)
}

/// The parameter list declared among these content items.
pub fn get_parameters(content: &Vec<MdContent>) -> (r: Option<Vec<Type>>)
    ensures
        (match r {
            Some(ts) => Some(ts@.map_values(|t: Type| t@)),
            None => None,
        }) == spec_parse_parameters(contents_views(content@)),
{
    parse_parameters(content)
}

} // verus!
