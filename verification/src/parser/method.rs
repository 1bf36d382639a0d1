//! Method recognition and the composite types of one method section.
//!
//! A child node is a method exactly when its content carries a `Name: `
//! marker line. Beyond parameters and response, a method's section may
//! register ad-hoc composite types: each table is classified by the title
//! line two items before it as an enumeration, a named object, a response
//! shape or a parameter list, first match winning in that order.

use super::parameters::{rows_to_types_from, spec_row_to_type};
use super::url::spec_method_url;
use super::util::{spec_col, spec_col_opt};
use super::{ApiMethod, ApiMethodV, ApiParameters, ApiParametersV};
use crate::casing::{camel_of, to_camel};
use crate::md_parser::md_token::{contents_views, ContentV, MdContent, RowV, TableV};
use crate::md_parser::{Table, TableRow, TokenTree};
use crate::text::{
    chars_string, is_i32_vec, remove_char_vec, replace_char_vec, spec_contains, spec_is_i32,
    spec_lower, spec_match_at, spec_remove_char, spec_replace_char, spec_starts_with,
    spec_strip_paren, starts_with_vec, str_chars, strip_paren_vec, subrange_vec, word_end_exec,
    word_end_from, match_at_vec, contains_sub_vec, lower_vec,
};
use crate::types::{opt_type_view, type_info_of, Type, TypeV};
use crate::ParseError;
use vstd::prelude::*;

verus! {

/// One member of an ad-hoc enumeration.
#[derive(Debug)]
pub struct EnumValue {
    pub description: Option<String>,
    pub value: String,
    pub original_value: String,
}

/// An ad-hoc enumeration registered in a method section.
#[derive(Debug)]
pub struct Enum {
    pub name: String,
    pub values: Vec<EnumValue>,
}

/// A named object type registered in a method section.
#[derive(Debug)]
pub struct TypeWithName {
    pub name: String,
    pub types: Vec<Type>,
}

/// A response or parameter shape without a name of its own.
#[derive(Debug)]
pub struct TypeWithoutName {
    pub types: Vec<Type>,
    pub is_list: bool,
}

/// One classified table of a method section.
#[derive(Debug)]
pub enum CompositeType {
    Enum(Enum),
    Object(TypeWithName),
    Response(TypeWithoutName),
    Parameters(TypeWithoutName),
}

/// Every classified table of a method section, in document order.
#[derive(Debug)]
pub struct CompositeTypes {
    pub composite_types: Vec<CompositeType>,
}

/// The titled tables of a method section, in document order.
#[derive(Debug)]
pub struct Tables {
    pub tables: Vec<(String, Table)>,
}

/// Model of an enumeration member.
pub struct EnumValueV {
    pub description: Option<Seq<char>>,
    pub value: Seq<char>,
    pub original_value: Seq<char>,
}

/// Model of an ad-hoc enumeration.
pub struct EnumV {
    pub name: Seq<char>,
    pub values: Seq<EnumValueV>,
}

/// Model of a named object type.
pub struct TypeWithNameV {
    pub name: Seq<char>,
    pub types: Seq<TypeV>,
}

/// Model of an unnamed shape.
pub struct TypeWithoutNameV {
    pub types: Seq<TypeV>,
    pub is_list: bool,
}

/// Model of one classified table.
pub enum CompositeTypeV {
    Enum(EnumV),
    Object(TypeWithNameV),
    Response(TypeWithoutNameV),
    Parameters(TypeWithoutNameV),
}

impl View for EnumValue {
    type V = EnumValueV;

    open spec fn view(&self) -> EnumValueV {
        EnumValueV {
            description: match &self.description {
                Some(d) => Some(d@),
                None => None,
            },
            value: self.value@,
            original_value: self.original_value@,
        }
    }
}

impl View for Enum {
    type V = EnumV;

    open spec fn view(&self) -> EnumV {
        EnumV { name: self.name@, values: self.values@.map_values(|v: EnumValue| v@) }
    }
}

impl View for TypeWithName {
    type V = TypeWithNameV;

    open spec fn view(&self) -> TypeWithNameV {
        TypeWithNameV { name: self.name@, types: self.types@.map_values(|t: Type| t@) }
    }
}

impl View for TypeWithoutName {
    type V = TypeWithoutNameV;

    open spec fn view(&self) -> TypeWithoutNameV {
        TypeWithoutNameV { types: self.types@.map_values(|t: Type| t@), is_list: self.is_list }
    }
}

impl View for CompositeType {
    type V = CompositeTypeV;

    open spec fn view(&self) -> CompositeTypeV {
        match self {
            CompositeType::Enum(e) => CompositeTypeV::Enum(e@),
            CompositeType::Object(o) => CompositeTypeV::Object(o@),
            CompositeType::Response(r) => CompositeTypeV::Response(r@),
            CompositeType::Parameters(p) => CompositeTypeV::Parameters(p@),
        }
    }
}

impl View for CompositeTypes {
    type V = Seq<CompositeTypeV>;

    open spec fn view(&self) -> Seq<CompositeTypeV> {
        self.composite_types@.map_values(|c: CompositeType| c@)
    }
}

impl View for Tables {
    type V = Seq<(Seq<char>, TableV)>;

    open spec fn view(&self) -> Seq<(Seq<char>, TableV)> {
        self.tables@.map_values(|p: (String, Table)| (p.0@, p.1@))
    }
}

/// The field name of an enumeration table title: a title of the exact
/// form ``Possible values of `<name>``` yields the name.
pub open spec fn enum_title_of(t: Seq<char>) -> Option<Seq<char>> {
    let p = "Possible values of `"@;
    if spec_starts_with(t, p) {
        let ws = p.len() as int;
        let we = word_end_from(t, ws);
        if we > ws && we + 1 == t.len() && t[we] == '`' {
            Some(t.subrange(ws, we))
        } else {
            None
        }
    } else {
        None
    }
}

/// The name of an object table title: a title of the exact form
/// `<Name> object` yields the name.
pub open spec fn object_title_of(t: Seq<char>) -> Option<Seq<char>> {
    let we = word_end_from(t, 0);
    if we > 0 && t.subrange(we, t.len() as int) == " object"@ {
        Some(t.subrange(0, we))
    } else {
        None
    }
}

/// The member one enumeration table row yields: an integral wire value
/// takes its identifier from the cleaned description, any other from the
/// wire value itself.
pub open spec fn spec_enum_value(row: RowV) -> EnumValueV {
    let original = spec_col(row, 0);
    let value = if spec_is_i32(original) {
        let d = spec_col(row, 1);
        camel_of(
            spec_strip_paren(
                spec_replace_char(
                    spec_replace_char(spec_replace_char(d, ' ', '_'), '-', '_'),
                    ',',
                    '_',
                ),
            ),
        )
    } else {
        camel_of(original)
    };
    EnumValueV { description: spec_col_opt(row, 1), value, original_value: original }
}

/// The types a table's rows resolve into, with no enumeration lookups.
pub open spec fn spec_table_types(t: TableV) -> Seq<TypeV> {
    rows_to_types_from(t.rows, Seq::empty(), 0)
}

/// The classification of one titled table: an enumeration, a named
/// object, a response shape or a parameter list, first match winning in
/// that order; an unrecognized title yields nothing.
pub open spec fn spec_to_composite(title: Seq<char>, t: TableV) -> Option<CompositeTypeV> {
    match enum_title_of(title) {
        Some(n) => Some(
            CompositeTypeV::Enum(
                EnumV {
                    name: camel_of(n),
                    values: t.rows.map_values(|r: RowV| spec_enum_value(r)),
                },
            ),
        ),
        None => match object_title_of(title) {
            Some(n) => Some(
                CompositeTypeV::Object(
                    TypeWithNameV { name: camel_of(n), types: spec_table_types(t) },
                ),
            ),
            None => if spec_starts_with(title, "The response is a"@) {
                Some(
                    CompositeTypeV::Response(
                        TypeWithoutNameV {
                            types: spec_table_types(t),
                            is_list: spec_contains(spec_lower(title), "array"@),
                        },
                    ),
                )
            } else if spec_starts_with(title, "Parameters"@) {
                Some(
                    CompositeTypeV::Parameters(
                        TypeWithoutNameV {
                            types: spec_table_types(t),
                            is_list: spec_contains(spec_lower(title), "array"@),
                        },
                    ),
                )
            } else {
                None
            },
        },
    }
}

/// Every titled table from position `i` on: each table is keyed by the
/// title line two items before it, colons removed; a table without such a
/// title line is a structural fault.
pub open spec fn tables_from(cs: Seq<ContentV>, i: int) -> Result<Seq<(Seq<char>, TableV)>, ()>
    decreases cs.len() - i,
{
    if i < 0 || i >= cs.len() {
        Ok(Seq::empty())
    } else if cs[i] is Table {
        let title = if i >= 2 && cs[i - 2] is Text {
            Some(cs[i - 2]->Text_0)
        } else if i >= 2 && cs[i - 2] is Asterisk {
            Some(cs[i - 2]->Asterisk_0)
        } else {
            None
        };
        match title {
            Some(t) => match tables_from(cs, i + 1) {
                Ok(rest) => Ok(seq![(spec_remove_char(t, ':'), cs[i]->Table_0)] + rest),
                Err(e) => Err(e),
            },
            None => Err(()),
        }
    } else {
        tables_from(cs, i + 1)
    }
}

/// The classified tables of a list of titled tables, from position `i` on.
pub open spec fn composites_from(pairs: Seq<(Seq<char>, TableV)>, i: int) -> Seq<CompositeTypeV>
    decreases pairs.len() - i,
{
    if i < 0 || i >= pairs.len() {
        Seq::empty()
    } else {
        match spec_to_composite(pairs[i].0, pairs[i].1) {
            Some(c) => seq![c] + composites_from(pairs, i + 1),
            None => composites_from(pairs, i + 1),
        }
    }
}

impl TableRow {
    /// Resolve this row with no enumeration lookups.
    pub fn to_type(&self) -> (r: Option<Type>)
        ensures
            opt_type_view(r) == spec_row_to_type(self@, Seq::empty()),
    {
        let empty_types: Vec<(String, crate::types::TypeDescription)> = Vec::new();
        proof {
            assert(crate::types::desc_map_view(empty_types@) =~= Seq::<
                (Seq<char>, crate::types::TypeDescriptionV),
            >::empty());
        }
        super::parameters::parse_parameter(self, &empty_types)
    }
}

impl EnumValue {
    /// The member one enumeration table row yields.
    pub fn from(row: &TableRow) -> (r: EnumValue)
        ensures
            r@ == spec_enum_value(row@),
    {
        let original_value = super::util::col(row, 0);
        let description = super::util::col_opt(row, 1);
        let ov = str_chars(original_value.as_str());
        let value = if is_i32_vec(&ov) {
            let d = super::util::col(row, 1);
            let dv = str_chars(d.as_str());
            let replaced = replace_char_vec(
                &replace_char_vec(&replace_char_vec(&dv, ' ', '_'), '-', '_'),
                ',',
                '_',
            );
            let stripped = strip_paren_vec(&replaced);
            to_camel(chars_string(&stripped).as_str())
        } else {
            to_camel(original_value.as_str())
        };
        EnumValue { description, value, original_value }
    }
}

impl Enum {
    /// The enumeration one titled value table yields.
    pub fn new(name: &str, table: &Table) -> (r: Enum)
        ensures
            r@ == (EnumV {
                name: name@,
                values: table@.rows.map_values(|row: RowV| spec_enum_value(row)),
            }),
    {
        let mut values: Vec<EnumValue> = Vec::new();
        let mut k: usize = 0;
        while k < table.rows.len()
            invariant
                k <= table.rows@.len(),
                values@.len() == k,
                forall|t: int|
                    0 <= t < k ==> #[trigger] values@[t]@ == spec_enum_value(table.rows@[t]@),
            decreases table.rows.len() - k,
        {
            values.push(EnumValue::from(&table.rows[k]));
            k = k + 1;
        }
        let r = Enum { name: name.to_owned(), values };
        proof {
            assert(r@.values =~= table@.rows.map_values(|row: RowV| spec_enum_value(row)));
        }
        r
    }
}

impl TypeWithoutName {
    /// Bundle an unnamed shape.
    pub fn new(types: Vec<Type>, is_list: bool) -> (r: Self)
        ensures
            r@ == (TypeWithoutNameV { types: types@.map_values(|t: Type| t@), is_list }),
    {
        TypeWithoutName { types, is_list }
    }
}

impl TypeWithName {
    /// Bundle a named object type.
    pub fn new(name: &str, types: Vec<Type>) -> (r: Self)
        ensures
            r@ == (TypeWithNameV { name: name@, types: types@.map_values(|t: Type| t@) }),
    {
        TypeWithName { name: name.to_owned(), types }
    }
}

impl Table {
    /// The resolved types of this table's rows, with no enumeration
    /// lookups.
    pub fn to_types(&self) -> (r: Vec<Type>)
        ensures
            r@.map_values(|t: Type| t@) == spec_table_types(self@),
    {
        let ghost rows = self@.rows;
        let mut out: Vec<Type> = Vec::new();
        let mut k: usize = 0;
        while k < self.rows.len()
            invariant
                rows == self@.rows,
                k <= rows.len(),
                out@.map_values(|t: Type| t@) + rows_to_types_from(rows, Seq::empty(), k as int)
                    == rows_to_types_from(rows, Seq::empty(), 0),
            decreases self.rows.len() - k,
        {
            let ghost prev = out@;
            match self.rows[k].to_type() {
                Some(t) => {
                    let ghost tv = t@;
                    out.push(t);
                    proof {
                        assert(out@.map_values(|t: Type| t@) =~= prev.map_values(
                            |t: Type| t@,
                        ).push(tv));
                        assert(out@.map_values(|t: Type| t@) + rows_to_types_from(
                            rows,
                            Seq::empty(),
                            k + 1,
                        ) =~= prev.map_values(|t: Type| t@) + (seq![tv] + rows_to_types_from(
                            rows,
                            Seq::empty(),
                            k + 1,
                        )));
                    }
                },
                None => {},
            }
            k = k + 1;
        }
        proof {
            assert(out@.map_values(|t: Type| t@) + rows_to_types_from(rows, Seq::empty(), k as int)
                =~= out@.map_values(|t: Type| t@));
        }
        out
    }

    /// Classify this table as an enumeration, where its title fits.
    pub fn to_enum(&self, input_name: &str) -> (r: Option<CompositeType>)
        ensures
            (match r {
                Some(c) => Some(c@),
                None => None,
            }) == (match enum_title_of(input_name@) {
                Some(n) => Some(
                    CompositeTypeV::Enum(
                        EnumV {
                            name: camel_of(n),
                            values: self@.rows.map_values(|row: RowV| spec_enum_value(row)),
                        },
                    ),
                ),
                None => None::<CompositeTypeV>,
            }),
    {
        let tv = str_chars(input_name);
        let p = str_chars("Possible values of `");
        proof {
            reveal_strlit("Possible values of `");
        }
        if !starts_with_vec(&tv, &p) {
            return None;
        }
        let ws = p.len();
        let we = word_end_exec(&tv, ws);
        if we > ws && tv.len() - we == 1 && tv[we] == '`' {
            let name = to_camel(chars_string(&subrange_vec(&tv, ws, we)).as_str());
            Some(CompositeType::Enum(Enum::new(name.as_str(), self)))
        } else {
            None
        }
    }

    /// Classify this table as a named object, where its title fits.
    pub fn to_object(&self, input_name: &str) -> (r: Option<CompositeType>)
        ensures
            (match r {
                Some(c) => Some(c@),
                None => None,
            }) == (match object_title_of(input_name@) {
                Some(n) => Some(
                    CompositeTypeV::Object(
                        TypeWithNameV { name: camel_of(n), types: spec_table_types(self@) },
                    ),
                ),
                None => None::<CompositeTypeV>,
            }),
    {
        let tv = str_chars(input_name);
        let we = word_end_exec(&tv, 0);
        let obj = str_chars(" object");
        proof {
            reveal_strlit(" object");
        }
        if we > 0 && tv.len() - we == obj.len() && match_at_vec(&tv, &obj, we) {
            proof {
                assert(tv@.subrange(we as int, tv@.len() as int) =~= " object"@);
            }
            let name = to_camel(chars_string(&subrange_vec(&tv, 0, we)).as_str());
            Some(CompositeType::Object(TypeWithName::new(name.as_str(), self.to_types())))
        } else {
            proof {
                if we > 0 && tv@.subrange(we as int, tv@.len() as int) == " object"@ {
                    assert(spec_match_at(tv@, " object"@, we as int));
                }
            }
            None
        }
    }

    /// Classify this table as a response shape, where its title fits.
    pub fn to_response(&self, input_name: &str) -> (r: Option<CompositeType>)
        ensures
            (match r {
                Some(c) => Some(c@),
                None => None,
            }) == (if spec_starts_with(input_name@, "The response is a"@) {
                Some(
                    CompositeTypeV::Response(
                        TypeWithoutNameV {
                            types: spec_table_types(self@),
                            is_list: spec_contains(spec_lower(input_name@), "array"@),
                        },
                    ),
                )
            } else {
                None::<CompositeTypeV>
            }),
    {
        let tv = str_chars(input_name);
        if !starts_with_vec(&tv, &str_chars("The response is a")) {
            return None;
        }
        let is_list = contains_sub_vec(&lower_vec(&tv), &str_chars("array"));
        Some(CompositeType::Response(TypeWithoutName::new(self.to_types(), is_list)))
    }

    /// Classify this table as a parameter list, where its title fits.
    pub fn to_parameters(&self, input_name: &str) -> (r: Option<CompositeType>)
        ensures
            (match r {
                Some(c) => Some(c@),
                None => None,
            }) == (if spec_starts_with(input_name@, "Parameters"@) {
                Some(
                    CompositeTypeV::Parameters(
                        TypeWithoutNameV {
                            types: spec_table_types(self@),
                            is_list: spec_contains(spec_lower(input_name@), "array"@),
                        },
                    ),
                )
            } else {
                None::<CompositeTypeV>
            }),
    {
        let tv = str_chars(input_name);
        if !starts_with_vec(&tv, &str_chars("Parameters")) {
            return None;
        }
        let is_list = contains_sub_vec(&lower_vec(&tv), &str_chars("array"));
        Some(CompositeType::Parameters(TypeWithoutName::new(self.to_types(), is_list)))
    }

    /// Classify this table by its title: an enumeration, a named object,
    /// a response shape or a parameter list, first match winning.
    pub fn to_composite_type(&self, input_name: &str) -> (r: Option<CompositeType>)
        ensures
            (match r {
                Some(c) => Some(c@),
                None => None,
            }) == spec_to_composite(input_name@, self@),
    {
        match self.to_enum(input_name) {
            Some(c) => Some(c),
            None => match self.to_object(input_name) {
                Some(c) => Some(c),
                None => match self.to_response(input_name) {
                    Some(c) => Some(c),
                    None => self.to_parameters(input_name),
                },
            },
        }
    }
}


/// Every titled table from position `i` on, as exec code collects them.
impl Tables {
    /// Collect every titled table of a node's content; a table too early
    /// in the section to have a title line is a structural fault.
    pub fn from(tree: &TokenTree) -> (r: Result<Tables, ParseError>)
        ensures
            match r {
                Ok(tb) => tables_from(tree@.content, 0) == Ok::<Seq<(Seq<char>, TableV)>, ()>(tb@),
                Err(e) => e is MissingTableTitle && tables_from(tree@.content, 0) is Err,
            },
    {
        let content = &tree.content;
        let ghost cs = tree@.content;
        let mut tables: Vec<(String, Table)> = Vec::new();
        let mut i: usize = 0;
        while i < content.len()
            invariant
                cs == tree@.content,
                cs == contents_views(content@),
                i <= content@.len(),
                match tables_from(cs, i as int) {
                    Ok(rest) => tables_from(cs, 0) == Ok::<Seq<(Seq<char>, TableV)>, ()>(
                        tables@.map_values(|p: (String, Table)| (p.0@, p.1@)) + rest,
                    ),
                    Err(e) => tables_from(cs, 0) == Err::<Seq<(Seq<char>, TableV)>, ()>(e),
                },
            decreases content.len() - i,
        {
            proof {
                assert(cs[i as int] == content@[i as int]@);
            }
            match &content[i] {
                MdContent::Table(tb) => {
                    if i < 2 {
                        return Err(ParseError::MissingTableTitle);
                    }
                    proof {
                        assert(cs[i - 2] == content@[i - 2]@);
                    }
                    let title = match &content[i - 2] {
                        MdContent::Text(t) => t.clone(),
                        MdContent::Asterisk(t) => t.clone(),
                        _ => {
                            return Err(ParseError::MissingTableTitle);
                        },
                    };
                    let key = chars_string(&remove_char_vec(&str_chars(title.as_str()), ':'));
                    let ghost prev = tables@;
                    tables.push((key, tb.duplicate()));
                    proof {
                        let f = |p: (String, Table)| (p.0@, p.1@);
                        let entry = (spec_remove_char(
                            (match cs[i - 2] {
                                ContentV::Text(tt) => tt,
                                ContentV::Asterisk(tt) => tt,
                                _ => Seq::empty(),
                            }),
                            ':',
                        ), cs[i as int]->Table_0);
                        assert(tables@.map_values(f) =~= prev.map_values(f).push(entry));
                        match tables_from(cs, i + 1) {
                            Ok(rest) => {
                                assert(tables@.map_values(f) + rest =~= prev.map_values(f) + (seq![
                                    entry] + rest));
                            },
                            Err(_) => {},
                        }
                    }
                },
                _ => {},
            }
            i = i + 1;
        }
        proof {
            let f = |p: (String, Table)| (p.0@, p.1@);
            assert(tables@.map_values(f) + Seq::<(Seq<char>, TableV)>::empty() =~= tables@
                .map_values(f));
        }
        Ok(Tables { tables })
    }

    /// Classify every titled table, in document order.
    pub fn get_all_tables_as_types(&self) -> (r: Vec<CompositeType>)
        ensures
            r@.map_values(|c: CompositeType| c@) == composites_from(self@, 0),
    {
        let ghost pairs = self@;
        let mut out: Vec<CompositeType> = Vec::new();
        let mut k: usize = 0;
        while k < self.tables.len()
            invariant
                pairs == self@,
                k <= pairs.len(),
                out@.map_values(|c: CompositeType| c@) + composites_from(pairs, k as int)
                    == composites_from(pairs, 0),
            decreases self.tables.len() - k,
        {
            let ghost prev = out@;
            match self.tables[k].1.to_composite_type(self.tables[k].0.as_str()) {
                Some(c) => {
                    let ghost cv = c@;
                    out.push(c);
                    proof {
                        assert(out@.map_values(|c: CompositeType| c@) =~= prev.map_values(
                            |c: CompositeType| c@,
                        ).push(cv));
                        assert(out@.map_values(|c: CompositeType| c@) + composites_from(
                            pairs,
                            k + 1,
                        ) =~= prev.map_values(|c: CompositeType| c@) + (seq![cv] + composites_from(
                            pairs,
                            k + 1,
                        )));
                    }
                },
                None => {},
            }
            k = k + 1;
        }
        proof {
            assert(out@.map_values(|c: CompositeType| c@) + composites_from(pairs, k as int)
                =~= out@.map_values(|c: CompositeType| c@));
        }
        out
    }
}

/// Index of the first parameter-list entry at or after `i`.
pub open spec fn params_entry_at(cs: Seq<CompositeTypeV>, i: int) -> Option<int>
    decreases cs.len() - i,
{
    if i < 0 || i >= cs.len() {
        None
    } else if cs[i] is Parameters {
        Some(i)
    } else {
        params_entry_at(cs, i + 1)
    }
}

/// Index of the first response entry at or after `i`.
pub open spec fn response_entry_at(cs: Seq<CompositeTypeV>, i: int) -> Option<int>
    decreases cs.len() - i,
{
    if i < 0 || i >= cs.len() {
        None
    } else if cs[i] is Response {
        Some(i)
    } else {
        response_entry_at(cs, i + 1)
    }
}

/// The parameter types of the first parameter-list entry, if any.
pub open spec fn spec_parameters_of(cs: Seq<CompositeTypeV>) -> Seq<TypeV> {
    match params_entry_at(cs, 0) {
        Some(i) => cs[i]->Parameters_0.types,
        None => Seq::empty(),
    }
}

/// The members of `ts` whose optionality equals `want`, in order.
pub open spec fn filter_opt_from(ts: Seq<TypeV>, want: bool, i: int) -> Seq<TypeV>
    decreases ts.len() - i,
{
    if i < 0 || i >= ts.len() {
        Seq::empty()
    } else if type_info_of(ts[i]).is_optional == want {
        seq![ts[i]] + filter_opt_from(ts, want, i + 1)
    } else {
        filter_opt_from(ts, want, i + 1)
    }
}

/// The named object entries of `cs`, in order.
pub open spec fn objects_from(cs: Seq<CompositeTypeV>, i: int) -> Seq<TypeWithNameV>
    decreases cs.len() - i,
{
    if i < 0 || i >= cs.len() {
        Seq::empty()
    } else if cs[i] is Object {
        seq![cs[i]->Object_0] + objects_from(cs, i + 1)
    } else {
        objects_from(cs, i + 1)
    }
}

/// The enumeration entries of `cs`, in order.
pub open spec fn enums_from(cs: Seq<CompositeTypeV>, i: int) -> Seq<EnumV>
    decreases cs.len() - i,
{
    if i < 0 || i >= cs.len() {
        Seq::empty()
    } else if cs[i] is Enum {
        seq![cs[i]->Enum_0] + enums_from(cs, i + 1)
    } else {
        enums_from(cs, i + 1)
    }
}

impl CompositeTypes {
    /// Classify every titled table of a method section.
    pub fn new(tables: &Tables) -> (r: Self)
        ensures
            r@ == composites_from(tables@, 0),
    {
        CompositeTypes { composite_types: tables.get_all_tables_as_types() }
    }

    /// The parameter types of the first parameter-list table, or nothing.
    pub fn parameters(&self) -> (r: Vec<&Type>)
        ensures
            r@.map_values(|t: &Type| t@) == spec_parameters_of(self@),
    {
        let ghost cs = self@;
        let mut i: usize = 0;
        while i < self.composite_types.len()
            invariant
                cs == self@,
                i <= cs.len(),
                params_entry_at(cs, 0) == params_entry_at(cs, i as int),
            decreases self.composite_types.len() - i,
        {
            match &self.composite_types[i] {
                CompositeType::Parameters(p) => {
                    let ghost ts = cs[i as int]->Parameters_0.types;
                    let mut out: Vec<&Type> = Vec::new();
                    let mut k: usize = 0;
                    while k < p.types.len()
                        invariant
                            ts == p.types@.map_values(|t: Type| t@),
                            k <= p.types@.len(),
                            out@.len() == k,
                            forall|j: int| 0 <= j < k ==> #[trigger] out@[j]@ == ts[j],
                        decreases p.types.len() - k,
                    {
                        out.push(&p.types[k]);
                        k = k + 1;
                    }
                    proof {
                        assert(out@.map_values(|t: &Type| t@) =~= ts);
                    }
                    return out;
                },
                _ => {},
            }
            i = i + 1;
        }
        let out: Vec<&Type> = Vec::new();
        proof {
            assert(out@.map_values(|t: &Type| t@) =~= Seq::<TypeV>::empty());
        }
        out
    }

    /// The optional parameters, in order.
    pub fn optional_parameters(&self) -> (r: Vec<&Type>)
        ensures
            r@.map_values(|t: &Type| t@) == filter_opt_from(spec_parameters_of(self@), true, 0),
    {
        self.filtered_parameters(true)
    }

    /// The mandatory parameters, in order.
    pub fn mandatory_params(&self) -> (r: Vec<&Type>)
        ensures
            r@.map_values(|t: &Type| t@) == filter_opt_from(spec_parameters_of(self@), false, 0),
    {
        self.filtered_parameters(false)
    }

    /// The parameters whose optionality equals `want`, in order.
    fn filtered_parameters(&self, want: bool) -> (r: Vec<&Type>)
        ensures
            r@.map_values(|t: &Type| t@) == filter_opt_from(spec_parameters_of(self@), want, 0),
    {
        let params = self.parameters();
        let ghost ts = spec_parameters_of(self@);
        let mut out: Vec<&Type> = Vec::new();
        let mut k: usize = 0;
        while k < params.len()
            invariant
                params@.map_values(|t: &Type| t@) == ts,
                params@.len() == ts.len(),
                k <= ts.len(),
                out@.map_values(|t: &Type| t@) + filter_opt_from(ts, want, k as int)
                    == filter_opt_from(ts, want, 0),
            decreases params.len() - k,
        {
            let ghost prev = out@;
            proof {
                assert(params@[k as int]@ == ts[k as int]);
            }
            if params[k].is_optional() == want {
                out.push(params[k]);
                proof {
                    assert(out@.map_values(|t: &Type| t@) =~= prev.map_values(|t: &Type| t@).push(
                        ts[k as int],
                    ));
                    assert(out@.map_values(|t: &Type| t@) + filter_opt_from(ts, want, k + 1)
                        =~= prev.map_values(|t: &Type| t@) + (seq![ts[k as int]] + filter_opt_from(
                        ts,
                        want,
                        k + 1,
                    )));
                }
            }
            k = k + 1;
        }
        proof {
            assert(out@.map_values(|t: &Type| t@) + filter_opt_from(ts, want, k as int) =~= out@
                .map_values(|t: &Type| t@));
        }
        out
    }

    /// The first response shape, if any.
    pub fn response(&self) -> (r: Option<&TypeWithoutName>)
        ensures
            match r {
                Some(p) => response_entry_at(self@, 0) is Some && p@ == self@[
                    response_entry_at(self@, 0)->0]->Response_0,
                None => response_entry_at(self@, 0) is None,
            },
    {
        let ghost cs = self@;
        let mut i: usize = 0;
        while i < self.composite_types.len()
            invariant
                cs == self@,
                i <= cs.len(),
                response_entry_at(cs, 0) == response_entry_at(cs, i as int),
            decreases self.composite_types.len() - i,
        {
            match &self.composite_types[i] {
                CompositeType::Response(p) => {
                    return Some(p);
                },
                _ => {},
            }
            i = i + 1;
        }
        None
    }

    /// The named object types, in order.
    pub fn objects(&self) -> (r: Vec<&TypeWithName>)
        ensures
            r@.map_values(|o: &TypeWithName| o@) == objects_from(self@, 0),
    {
        let ghost cs = self@;
        let mut out: Vec<&TypeWithName> = Vec::new();
        let mut i: usize = 0;
        while i < self.composite_types.len()
            invariant
                cs == self@,
                i <= cs.len(),
                out@.map_values(|o: &TypeWithName| o@) + objects_from(cs, i as int) == objects_from(
                    cs,
                    0,
                ),
            decreases self.composite_types.len() - i,
        {
            let ghost prev = out@;
            match &self.composite_types[i] {
                CompositeType::Object(o) => {
                    out.push(o);
                    proof {
                        assert(out@.map_values(|o: &TypeWithName| o@) =~= prev.map_values(
                            |o: &TypeWithName| o@,
                        ).push(cs[i as int]->Object_0));
                        assert(out@.map_values(|o: &TypeWithName| o@) + objects_from(cs, i + 1)
                            =~= prev.map_values(|o: &TypeWithName| o@) + (seq![
                            cs[i as int]->Object_0] + objects_from(cs, i + 1)));
                    }
                },
                _ => {},
            }
            i = i + 1;
        }
        proof {
            assert(out@.map_values(|o: &TypeWithName| o@) + objects_from(cs, i as int) =~= out@
                .map_values(|o: &TypeWithName| o@));
        }
        out
    }

    /// The enumerations, in order.
    pub fn enums(&self) -> (r: Vec<&Enum>)
        ensures
            r@.map_values(|e: &Enum| e@) == enums_from(self@, 0),
    {
        let ghost cs = self@;
        let mut out: Vec<&Enum> = Vec::new();
        let mut i: usize = 0;
        while i < self.composite_types.len()
            invariant
                cs == self@,
                i <= cs.len(),
                out@.map_values(|e: &Enum| e@) + enums_from(cs, i as int) == enums_from(cs, 0),
            decreases self.composite_types.len() - i,
        {
            let ghost prev = out@;
            match &self.composite_types[i] {
                CompositeType::Enum(e) => {
                    out.push(e);
                    proof {
                        assert(out@.map_values(|e: &Enum| e@) =~= prev.map_values(
                            |e: &Enum| e@,
                        ).push(cs[i as int]->Enum_0));
                        assert(out@.map_values(|e: &Enum| e@) + enums_from(cs, i + 1)
                            =~= prev.map_values(|e: &Enum| e@) + (seq![cs[i as int]->Enum_0]
                            + enums_from(cs, i + 1)));
                    }
                },
                _ => {},
            }
            i = i + 1;
        }
        proof {
            assert(out@.map_values(|e: &Enum| e@) + enums_from(cs, i as int) =~= out@.map_values(
                |e: &Enum| e@,
            ));
        }
        out
    }
}

/// The parameter split a content list declares, if it declares one.
pub open spec fn spec_api_parameters(cs: Seq<ContentV>) -> Option<ApiParametersV> {
    match super::parameters::spec_parse_parameters(cs) {
        Some(ts) => Some(
            ApiParametersV {
                mandatory: filter_opt_from(ts, false, 0),
                optional: filter_opt_from(ts, true, 0),
            },
        ),
        None => None,
    }
}

/// The method a child node declares, if it declares one, or the first
/// failing return-type string.
pub open spec fn spec_try_method(cs: Seq<ContentV>) -> Result<Option<ApiMethodV>, Seq<char>> {
    match spec_method_url(cs) {
        None => Ok(None),
        Some(name) => match super::return_type::spec_parse_return_type(cs) {
            Ok(rt) => Ok(
                Some(
                    ApiMethodV {
                        name: name,
                        description: super::description::spec_method_description(cs),
                        url: name,
                        parameters: spec_api_parameters(cs),
                        return_type: rt,
                    },
                ),
            ),
            Err(e) => Err(e),
        },
    }
}

impl ApiMethod {
    /// Recognize a child node as a method and extract it; a node without
    /// the `Name: ` marker is no method, which is no fault.
    pub fn try_new(child: &TokenTree) -> (r: Result<Option<ApiMethod>, ParseError>)
        ensures
            match r {
                Ok(o) => spec_try_method(child@.content) == Ok::<Option<ApiMethodV>, Seq<char>>(
                    match o {
                        Some(meth) => Some(meth@),
                        None => None,
                    },
                ),
                Err(e) => e matches ParseError::UnresolvedReturnType { type_text }
                    && spec_try_method(child@.content) == Err::<Option<ApiMethodV>, Seq<char>>(
                    type_text@,
                ),
            },
    {
        let name = match super::url::get_method_url(&child.content) {
            Some(n) => n,
            None => {
                return Ok(None);
            },
        };
        match ApiMethod::new(child, name) {
            Ok(meth) => Ok(Some(meth)),
            Err(e) => Err(e),
        }
    }

    /// Extract the method named `name` from its node.
    pub fn new(child: &TokenTree, name: String) -> (r: Result<ApiMethod, ParseError>)
        ensures
            match r {
                Ok(meth) => super::return_type::spec_parse_return_type(child@.content) is Ok
                    && meth@ == (ApiMethodV {
                    name: name@,
                    description: super::description::spec_method_description(child@.content),
                    url: name@,
                    parameters: spec_api_parameters(child@.content),
                    return_type: super::return_type::spec_parse_return_type(
                        child@.content,
                    )->Ok_0,
                }),
                Err(e) => e matches ParseError::UnresolvedReturnType { type_text }
                    && super::return_type::spec_parse_return_type(child@.content) == Err::<
                    Option<super::ReturnTypeV>,
                    Seq<char>,
                >(type_text@),
            },
    {
        let description = super::description::get_method_description(&child.content);
        let return_type = match super::return_type::get_return_type(&child.content) {
            Ok(rt) => rt,
            Err(e) => {
                return Err(e);
            },
        };
        let parameters = match super::parameters::parse_parameters(&child.content) {
            Some(ts) => Some(partition_parameters(ts)),
            None => None,
        };
        let url = name.clone();
        Ok(ApiMethod { name, description, url, parameters, return_type })
    }
}

/// Split a parameter list into its mandatory and optional members, in
/// order.
fn partition_parameters(ts: Vec<Type>) -> (r: ApiParameters)
    ensures
        r@ == (ApiParametersV {
            mandatory: filter_opt_from(ts@.map_values(|t: Type| t@), false, 0),
            optional: filter_opt_from(ts@.map_values(|t: Type| t@), true, 0),
        }),
{
    let ghost full = ts@.map_values(|t: Type| t@);
    let ghost total = full.len() as int;
    let mut rest = ts;
    let mut mandatory: Vec<Type> = Vec::new();
    let mut optional: Vec<Type> = Vec::new();
    while rest.len() > 0
        invariant
            total == full.len(),
            rest@.len() <= total,
            rest@.map_values(|t: Type| t@) == full.subrange(total - rest@.len(), total),
            mandatory@.map_values(|t: Type| t@) + filter_opt_from(
                full,
                false,
                total - rest@.len(),
            ) == filter_opt_from(full, false, 0),
            optional@.map_values(|t: Type| t@) + filter_opt_from(full, true, total - rest@.len())
                == filter_opt_from(full, true, 0),
        decreases rest.len(),
    {
        let ghost idx = total - rest@.len();
        let ghost pre_rest = rest@;
        let t = rest.remove(0);
        proof {
            assert(t@ == pre_rest.map_values(|t: Type| t@)[0]);
            assert(t@ == full[idx]);
            assert(rest@ =~= pre_rest.subrange(1, pre_rest.len() as int));
            assert forall|j: int| 0 <= j < rest@.len() implies #[trigger] rest@[j]@ == full[idx + 1
                + j] by {
                assert(pre_rest.map_values(|t: Type| t@)[j + 1] == pre_rest[j + 1]@);
                assert(full.subrange(idx, total)[j + 1] == full[idx + 1 + j]);
            }
            assert(rest@.map_values(|t: Type| t@) =~= full.subrange(idx + 1, total));
        }
        let ghost prev_m = mandatory@;
        let ghost prev_o = optional@;
        if t.is_optional() {
            optional.push(t);
            proof {
                assert(optional@.map_values(|t: Type| t@) =~= prev_o.map_values(
                    |t: Type| t@,
                ).push(full[idx]));
                assert(optional@.map_values(|t: Type| t@) + filter_opt_from(full, true, idx + 1)
                    =~= prev_o.map_values(|t: Type| t@) + (seq![full[idx]] + filter_opt_from(
                    full,
                    true,
                    idx + 1,
                )));
            }
        } else {
            mandatory.push(t);
            proof {
                assert(mandatory@.map_values(|t: Type| t@) =~= prev_m.map_values(
                    |t: Type| t@,
                ).push(full[idx]));
                assert(mandatory@.map_values(|t: Type| t@) + filter_opt_from(full, false, idx + 1)
                    =~= prev_m.map_values(|t: Type| t@) + (seq![full[idx]] + filter_opt_from(
                    full,
                    false,
                    idx + 1,
                )));
            }
        }
    }
    proof {
        assert(mandatory@.map_values(|t: Type| t@) + filter_opt_from(full, false, total)
            =~= mandatory@.map_values(|t: Type| t@));
        assert(optional@.map_values(|t: Type| t@) + filter_opt_from(full, true, total) =~= optional@
            .map_values(|t: Type| t@));
    }
    ApiParameters { mandatory, optional }
}

} // verus!
