//! Node-local enumeration tables.
//!
//! Within a method's section, a heading of the form
//! ``Possible values of `<field>``` followed by a blank line and a
//! two-column table registers an enumeration: wire value to description.
//! The registrations are keyed by the field name with backticks and colons
//! removed; a later registration of the same name shadows an earlier one.

use super::util::spec_col;
use crate::md_parser::md_token::{contents_views, ContentV, MdContent, RowV, TableV};
use crate::md_parser::{Table, TokenTree};
use crate::text::{
    chars_string, contains_sub_vec, remove_char_vec, spec_contains, spec_remove_char,
    spec_strip_prefix_all, str_chars, strip_prefix_all_vec,
};
use crate::types::{desc_map_view, TypeDescription, TypeDescriptionV, TypeDescriptions, TypeDescriptionsV};
use vstd::prelude::*;

verus! {

/// The value set one table carries: first column the wire value, second
/// column its description.
pub open spec fn desc_of_table(t: TableV) -> TypeDescriptionV {
    TypeDescriptionV {
        values: t.rows.map_values(
            |r: RowV| TypeDescriptionsV { value: spec_col(r, 0), description: spec_col(r, 1) },
        ),
    }
}

/// The key an enumeration heading registers: the heading with the marker
/// prefix stripped and backticks and colons removed.
pub open spec fn enum_key_of(t: Seq<char>) -> Seq<char> {
    spec_remove_char(
        spec_remove_char(spec_strip_prefix_all(t, "Possible values of "@), '`'),
        ':',
    )
}

/// Every enumeration registration from position `i` on: a text item
/// mentioning the marker, any single item after it, then the value table.
pub open spec fn object_types_from(cs: Seq<ContentV>, i: int) -> Seq<(Seq<char>, TypeDescriptionV)>
    decreases cs.len() - i,
{
    if i < 0 || i >= cs.len() {
        Seq::empty()
    } else if cs[i] matches ContentV::Text(t) && spec_contains(t, "Possible values of "@) {
        if i + 2 < cs.len() {
            if cs[i + 2] matches ContentV::Table(tb) {
                seq![(enum_key_of(cs[i]->Text_0), desc_of_table(cs[i + 2]->Table_0))]
                    + object_types_from(cs, i + 3)
            } else {
                object_types_from(cs, i + 3)
            }
        } else {
            Seq::empty()
        }
    } else {
        object_types_from(cs, i + 1)
    }
}

impl Table {
    /// The enumeration value set this table carries.
    pub fn to_type_description(&self) -> (r: TypeDescription)
        ensures
            r@ == desc_of_table(self@),
    {
        TypeDescription { values: self.to_type_descriptions() }
    }

    /// The rows of this table as wire-value/description pairs.
    pub fn to_type_descriptions(&self) -> (r: Vec<TypeDescriptions>)
        ensures
            r@.map_values(|v: TypeDescriptions| v@) == desc_of_table(self@).values,
    {
        let mut r: Vec<TypeDescriptions> = Vec::new();
        let mut k: usize = 0;
        while k < self.rows.len()
            invariant
                k <= self.rows@.len(),
                r@.len() == k,
                forall|t: int|
                    0 <= t < k ==> #[trigger] r@[t]@ == (TypeDescriptionsV {
                        value: spec_col(self.rows@[t]@, 0),
                        description: spec_col(self.rows@[t]@, 1),
                    }),
            decreases self.rows.len() - k,
        {
            let value = super::util::col(&self.rows[k], 0);
            let description = super::util::col(&self.rows[k], 1);
            r.push(TypeDescriptions { value, description });
            k = k + 1;
        }
        proof {
            assert(r@.map_values(|v: TypeDescriptions| v@) =~= desc_of_table(self@).values);
        }
        r
    }
}

/// Collect every enumeration registration in a content list, in document
/// order.
pub fn parse_object_types(content: &Vec<MdContent>) -> (r: Vec<(String, TypeDescription)>)
    ensures
        desc_map_view(r@) == object_types_from(contents_views(content@), 0),
{
    let ghost cs = contents_views(content@);
    let marker = str_chars("Possible values of ");
    proof {
        reveal_strlit("Possible values of ");
    }
    let mut r: Vec<(String, TypeDescription)> = Vec::new();
    let mut i: usize = 0;
    while i < content.len()
        invariant
            cs == contents_views(content@),
            marker@ == "Possible values of "@,
            marker@.len() > 0,
            i <= content@.len(),
            desc_map_view(r@) + object_types_from(cs, i as int) == object_types_from(cs, 0),
        decreases content.len() - i,
    {
        let mut advance: usize = 1;
        match &content[i] {
            MdContent::Text(t) => {
                let tv = str_chars(t.as_str());
                if contains_sub_vec(&tv, &marker) {
                    if content.len() - i > 2 {
                        match &content[i + 2] {
                            MdContent::Table(tb) => {
                                let stripped = strip_prefix_all_vec(&tv, &marker);
                                let key = chars_string(
                                    &remove_char_vec(&remove_char_vec(&stripped, '`'), ':'),
                                );
                                let ghost prev = r@;
                                r.push((key, tb.to_type_description()));
                                proof {
                                    assert(desc_map_view(r@) =~= desc_map_view(prev).push(
                                        (enum_key_of(cs[i as int]->Text_0), desc_of_table(
                                            cs[i + 2]->Table_0,
                                        )),
                                    ));
                                    assert(desc_map_view(r@) + object_types_from(cs, i + 3)
                                        =~= desc_map_view(prev) + (seq![
                                        (enum_key_of(cs[i as int]->Text_0), desc_of_table(
                                            cs[i + 2]->Table_0,
                                        ))] + object_types_from(cs, i + 3)));
                                }
                            },
                            _ => {},
                        }
                    }
                    advance = 3;
                }
            },
            _ => {},
        }
        if content.len() - i <= advance {
            proof {
                assert(object_types_from(cs, i + advance) =~= Seq::<
                    (Seq<char>, TypeDescriptionV),
                >::empty());
                assert(object_types_from(cs, content@.len() as int) =~= Seq::<
                    (Seq<char>, TypeDescriptionV),
                >::empty());
            }
            i = content.len();
        } else {
            i = i + advance;
        }
    }
    proof {
        assert(desc_map_view(r@) + object_types_from(cs, i as int) =~= desc_map_view(r@));
    }
    r
}

impl TokenTree {
    /// Every enumeration registration in this node's content.
    pub fn parse_object_types(&self) -> (r: Vec<(String, TypeDescription)>)
        ensures
            desc_map_view(r@) == object_types_from(self@.content, 0),
    {
        parse_object_types(&self.content)
    }
}

} // verus!
