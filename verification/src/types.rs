//! The typed field descriptors that table rows resolve into.
//!
//! A row's type string maps onto a small closed set of scalar kinds; an
//! `array` row or a recognizable description sentence resolves into a named
//! object reference or a key-to-value map reference instead; a row whose
//! field name matches a node-local enumeration table carries that table's
//! values along.

use crate::casing::{camel_of, to_camel};
use crate::text::{
    chars_string, contains_sub_vec, eq_vec, find_sub_vec, first_sub_at, lower_vec, match_at_vec,
    remove_sub_vec, spec_contains, spec_lower, spec_match_at, spec_remove_sub, spec_trim,
    str_chars, subrange_vec, trim_vec, word_end_exec, word_end_from, word_start_back,
    word_start_exec,
};
use vstd::prelude::*;

verus! {

/// The sentinel appended to a field name to record, during resolution,
/// that its description names a default value, hence the field is optional.
pub const OPTIONAL: &'static str = "_optional_";

/// One row of an enumeration table: a wire value and its description.
#[derive(Debug, Clone, PartialEq, Eq)]
pub struct TypeDescriptions {
    pub value: String,
    pub description: String,
}

/// The value set of one enumeration table.
#[derive(Debug, Clone, PartialEq, Eq)]
pub struct TypeDescription {
    pub values: Vec<TypeDescriptions>,
}

/// What every resolved field carries: its name, optionality, list-ness,
/// description and, for enumerated fields, the enumeration's value set.
#[derive(Debug, Clone)]
pub struct TypeInfo {
    pub name: String,
    pub is_optional: bool,
    pub is_list: bool,
    pub description: Option<String>,
    pub type_description: Option<TypeDescription>,
}

/// A reference to a named object type, or to a map from one named type to
/// another.
#[derive(Debug, Clone, PartialEq, Eq)]
pub enum RefType {
    String(String),
    KeyValue(String, String),
}

/// An object-typed field and what it refers to.
#[derive(Debug, Clone)]
pub struct Object {
    pub type_info: TypeInfo,
    pub ref_type: RefType,
}

/// An enumeration attached to a field.
#[derive(Debug, Clone)]
pub struct Enum {
    pub type_info: TypeInfo,
    pub values: Vec<EnumValue>,
}

/// One member of an enumeration: the wire value is kept verbatim beside
/// the derived identifier.
#[derive(Debug, Clone)]
pub struct EnumValue {
    pub description: Option<String>,
    pub key: String,
    pub value: String,
}

/// A resolved field descriptor.
#[derive(Debug, Clone)]
pub enum Type {
    Number(TypeInfo),
    Float(TypeInfo),
    Bool(TypeInfo),
    String(TypeInfo),
    StringArray(TypeInfo),
    Object(Object),
}

/// Model of an enumeration row.
pub struct TypeDescriptionsV {
    pub value: Seq<char>,
    pub description: Seq<char>,
}

/// Model of an enumeration's value set.
pub struct TypeDescriptionV {
    pub values: Seq<TypeDescriptionsV>,
}

/// Model of a field's shared information.
pub struct TypeInfoV {
    pub name: Seq<char>,
    pub is_optional: bool,
    pub is_list: bool,
    pub description: Option<Seq<char>>,
    pub type_description: Option<TypeDescriptionV>,
}

/// Model of an object reference.
pub enum RefTypeV {
    String(Seq<char>),
    KeyValue(Seq<char>, Seq<char>),
}

/// Model of an object-typed field.
pub struct ObjectV {
    pub type_info: TypeInfoV,
    pub ref_type: RefTypeV,
}

/// Model of a resolved field descriptor.
pub enum TypeV {
    Number(TypeInfoV),
    Float(TypeInfoV),
    Bool(TypeInfoV),
    String(TypeInfoV),
    StringArray(TypeInfoV),
    Object(ObjectV),
}

/// The model of an optional string.
pub open spec fn opt_str_view(o: Option<String>) -> Option<Seq<char>> {
    match o {
        Some(s) => Some(s@),
        None => None,
    }
}

impl View for TypeDescriptions {
    type V = TypeDescriptionsV;

    open spec fn view(&self) -> TypeDescriptionsV {
        TypeDescriptionsV { value: self.value@, description: self.description@ }
    }
}

impl View for TypeDescription {
    type V = TypeDescriptionV;

    open spec fn view(&self) -> TypeDescriptionV {
        TypeDescriptionV { values: self.values@.map_values(|v: TypeDescriptions| v@) }
    }
}

impl View for TypeInfo {
    type V = TypeInfoV;

    open spec fn view(&self) -> TypeInfoV {
        TypeInfoV {
            name: self.name@,
            is_optional: self.is_optional,
            is_list: self.is_list,
            description: opt_str_view(self.description),
            type_description: match &self.type_description {
                Some(d) => Some(d@),
                None => None,
            },
        }
    }
}

impl View for RefType {
    type V = RefTypeV;

    open spec fn view(&self) -> RefTypeV {
        match self {
            RefType::String(s) => RefTypeV::String(s@),
            RefType::KeyValue(k, v) => RefTypeV::KeyValue(k@, v@),
        }
    }
}

impl View for Object {
    type V = ObjectV;

    open spec fn view(&self) -> ObjectV {
        ObjectV { type_info: self.type_info@, ref_type: self.ref_type@ }
    }
}

impl View for Type {
    type V = TypeV;

    open spec fn view(&self) -> TypeV {
        match self {
            Type::Number(t) => TypeV::Number(t@),
            Type::Float(t) => TypeV::Float(t@),
            Type::Bool(t) => TypeV::Bool(t@),
            Type::String(t) => TypeV::String(t@),
            Type::StringArray(t) => TypeV::StringArray(t@),
            Type::Object(o) => TypeV::Object(o@),
        }
    }
}

/// The shared information a resolved type carries.
pub open spec fn type_info_of(t: TypeV) -> TypeInfoV {
    match t {
        TypeV::Number(i) => i,
        TypeV::Float(i) => i,
        TypeV::Bool(i) => i,
        TypeV::String(i) => i,
        TypeV::StringArray(i) => i,
        TypeV::Object(o) => o.type_info,
    }
}

/// The model of an optional resolved type.
pub open spec fn opt_type_view(o: Option<Type>) -> Option<TypeV> {
    match o {
        Some(t) => Some(t@),
        None => None,
    }
}

/// The model of an enumeration lookup table, in insertion order.
pub open spec fn desc_map_view(m: Seq<(String, TypeDescription)>) -> Seq<
    (Seq<char>, TypeDescriptionV),
> {
    m.map_values(|p: (String, TypeDescription)| (p.0@, p.1@))
}

/// The value set registered under `key`, latest entry first, as a hash
/// map whose inserts overwrite would hold it.
pub open spec fn lookup_desc(entries: Seq<(Seq<char>, TypeDescriptionV)>, key: Seq<char>) -> Option<
    TypeDescriptionV,
>
    decreases entries.len(),
{
    if entries.len() == 0 {
        None
    } else if entries.last().0 == key {
        Some(entries.last().1)
    } else {
        lookup_desc(entries.drop_last(), key)
    }
}

impl TypeDescriptions {
    /// An owned copy with the same model.
    pub fn duplicate(&self) -> (r: Self)
        ensures
            r@ == self@,
    {
        TypeDescriptions { value: self.value.clone(), description: self.description.clone() }
    }
}

impl TypeDescription {
    /// An owned copy with the same model.
    pub fn duplicate(&self) -> (r: Self)
        ensures
            r@ == self@,
    {
        let mut values: Vec<TypeDescriptions> = Vec::new();
        let mut k: usize = 0;
        while k < self.values.len()
            invariant
                k <= self.values@.len(),
                values@.len() == k,
                forall|t: int| 0 <= t < k ==> #[trigger] values@[t]@ == self.values@[t]@,
            decreases self.values.len() - k,
        {
            values.push(self.values[k].duplicate());
            k = k + 1;
        }
        let r = TypeDescription { values };
        proof {
            assert(r@.values =~= self@.values);
        }
        r
    }
}

/// Find the value set registered under `key`.
pub fn lookup_description(entries: &Vec<(String, TypeDescription)>, key: &Vec<char>) -> (r: Option<
    TypeDescription,
>)
    ensures
        (match r {
            Some(d) => Some(d@),
            None => None,
        }) == lookup_desc(desc_map_view(entries@), key@),
{
    proof {
        assert(desc_map_view(entries@).subrange(0, entries@.len() as int) =~= desc_map_view(
            entries@,
        ));
    }
    let mut j: usize = entries.len();
    while j > 0
        invariant
            j <= entries@.len(),
            lookup_desc(desc_map_view(entries@), key@) == lookup_desc(
                desc_map_view(entries@).subrange(0, j as int),
                key@,
            ),
        decreases j,
    {
        let kv = str_chars(entries[j - 1].0.as_str());
        proof {
            let dm = desc_map_view(entries@);
            assert(dm.subrange(0, j as int).last() == dm[j - 1]);
            assert(dm.subrange(0, j as int).drop_last() =~= dm.subrange(0, j - 1));
        }
        if eq_vec(&kv, key) {
            return Some(entries[j - 1].1.duplicate());
        }
        j = j - 1;
    }
    proof {
        assert(desc_map_view(entries@).subrange(0, 0) =~= Seq::<(Seq<char>, TypeDescriptionV)>::empty());
    }
    None
}

/// The list-reference reading of a description: a sentence of the form
/// `Array of <name> objects` or `List of <name> objects`, case-insensitive,
/// yields the camel-cased name.
pub open spec fn list_ref_of(d: Seq<char>) -> Option<Seq<char>> {
    let l = spec_lower(d);
    match spec_alt_start(l) {
        Some((p, plen)) => {
            let ws = p + plen;
            let we = word_end_from(d, ws);
            if we > ws && spec_match_at(l, " objects"@, we) {
                Some(camel_of(d.subrange(ws, we)))
            } else {
                None
            }
        },
        None => None,
    }
}

/// The map-reference reading of a description: a sentence of the form
/// `map from <key> to <value> object`, case-insensitive, yields both
/// camel-cased names.
pub open spec fn map_ref_of(d: Seq<char>) -> Option<(Seq<char>, Seq<char>)> {
    let l = spec_lower(d);
    match first_sub_at(l, "map from "@, 0) {
        Some(p) => {
            let ks = p + "map from "@.len() as int;
            let ke = word_end_from(d, ks);
            if ke > ks && spec_match_at(l, " to "@, ke) {
                let vs = ke + " to "@.len() as int;
                let ve = word_end_from(d, vs);
                if ve > vs && spec_match_at(l, " object"@, ve) {
                    Some((camel_of(d.subrange(ks, ke)), camel_of(d.subrange(vs, ve))))
                } else {
                    None
                }
            } else {
                None
            }
        },
        None => None,
    }
}

/// The bare-object reading of a description: a sentence of the form
/// `<name> object see table below`, case-insensitive, yields the
/// camel-cased name.
pub open spec fn object_ref_of(d: Seq<char>) -> Option<Seq<char>> {
    let l = spec_lower(d);
    match first_sub_at(l, " object see table below"@, 0) {
        Some(k) => {
            let b = word_start_back(d, k);
            if b < k {
                Some(camel_of(d.subrange(b, k)))
            } else {
                None
            }
        },
        None => None,
    }
}

/// The start and key length of the leftmost of the two alternation keys.
pub open spec fn spec_alt_start(l: Seq<char>) -> Option<(int, int)> {
    let a1 = first_sub_at(l, "array of "@, 0);
    let a2 = first_sub_at(l, "list of "@, 0);
    match (a1, a2) {
        (Some(p1), Some(p2)) => if p1 <= p2 {
            Some((p1, "array of "@.len() as int))
        } else {
            Some((p2, "list of "@.len() as int))
        },
        (Some(p1), None) => Some((p1, "array of "@.len() as int)),
        (None, Some(p2)) => Some((p2, "list of "@.len() as int)),
        (None, None) => None,
    }
}

/// Find the pattern start chosen between the two alternation keys.
fn alternation_start(l: &Vec<char>) -> (r: Option<(usize, usize)>)
    ensures
        (match r {
            Some(pp) => spec_alt_start(l@) == Some((pp.0 as int, pp.1 as int)) && pp.0 + pp.1
                <= l@.len(),
            None => spec_alt_start(l@) is None,
        }),
{
    proof {
        reveal_strlit("array of ");
        reveal_strlit("list of ");
    }
    let k1 = str_chars("array of ");
    let k2 = str_chars("list of ");
    let a1 = find_sub_vec(l, &k1);
    let a2 = find_sub_vec(l, &k2);
    proof {
        crate::text::lemma_first_sub_at_bounds(l@, "array of "@, 0);
        crate::text::lemma_first_sub_at_bounds(l@, "list of "@, 0);
    }
    match (a1, a2) {
        (Some(p1), Some(p2)) => if p1 <= p2 {
            Some((p1, k1.len()))
        } else {
            Some((p2, k2.len()))
        },
        (Some(p1), None) => Some((p1, k1.len())),
        (None, Some(p2)) => Some((p2, k2.len())),
        (None, None) => None,
    }
}

/// The object reference a description names, if any: a list reference
/// first, then a map reference, then a bare object reference.
pub open spec fn spec_extract_type(desc: Option<Seq<char>>) -> Option<RefTypeV> {
    match desc {
        None => None,
        Some(d) => match list_ref_of(d) {
            Some(n) => Some(RefTypeV::String(n)),
            None => match map_ref_of(d) {
                Some(kv) => Some(RefTypeV::KeyValue(kv.0, kv.1)),
                None => match object_ref_of(d) {
                    Some(n) => Some(RefTypeV::String(n)),
                    None => None,
                },
            },
        },
    }
}


/// The object reference named by a description sentence, if any.
pub fn extract_type(desc: &Option<String>) -> (r: Option<RefType>)
    ensures
        (match r {
            Some(rt) => Some(rt@),
            None => None,
        }) == spec_extract_type(match desc {
            Some(d) => Some(d@),
            None => None,
        }),
{
    let d = match desc {
        Some(d) => str_chars(d.as_str()),
        None => {
            return None;
        },
    };
    let l = lower_vec(&d);
    proof {
        crate::text::lemma_lower_len(d@, 0);
        reveal_strlit("array of ");
        reveal_strlit("list of ");
        reveal_strlit(" objects");
        reveal_strlit("map from ");
        reveal_strlit(" to ");
        reveal_strlit(" object");
        reveal_strlit(" object see table below");
    }
    // list reference
    let ll = l.len();
    match alternation_start(&l) {
        Some((p, plen)) => {
            let ws = p + plen;
            let we = word_end_exec(&d, ws);
            let objs = str_chars(" objects");
            if we > ws && match_at_vec(&l, &objs, we) {
                return Some(RefType::String(to_camel(chars_string(&subrange_vec(&d, ws, we)).as_str())));
            }
        },
        None => {},
    }
    // map reference
    let mf = str_chars("map from ");
    match find_sub_vec(&l, &mf) {
        Some(p) => {
            proof {
                crate::text::lemma_first_sub_at_bounds(l@, "map from "@, 0);
            }
            let ks = p + mf.len();
            let ke = word_end_exec(&d, ks);
            let tov = str_chars(" to ");
            if ke > ks && match_at_vec(&l, &tov, ke) {
                let vs = ke + tov.len();
                proof {
                    assert(vs <= l@.len());
                }
                let ve = word_end_exec(&d, vs);
                let obj = str_chars(" object");
                if ve > vs && match_at_vec(&l, &obj, ve) {
                    return Some(RefType::KeyValue(
                        to_camel(chars_string(&subrange_vec(&d, ks, ke)).as_str()),
                        to_camel(chars_string(&subrange_vec(&d, vs, ve)).as_str()),
                    ));
                }
            }
        },
        None => {},
    }
    // bare object reference
    let key = str_chars(" object see table below");
    match find_sub_vec(&l, &key) {
        Some(k) => {
            proof {
                crate::text::lemma_first_sub_at_bounds(l@, " object see table below"@, 0);
            }
            let b = word_start_exec(&d, k);
            if b < k {
                return Some(RefType::String(to_camel(chars_string(&subrange_vec(&d, b, k)).as_str())));
            }
        },
        None => {},
    }
    None
}

/// The field name with the optional-marker sentinel stripped and trimmed.
pub open spec fn spec_type_name(name: Seq<char>) -> Seq<char> {
    match first_sub_at(name, "_optional_"@, 0) {
        Some(k) => spec_trim(name.subrange(0, k)),
        None => spec_trim(name),
    }
}

/// Whether a description marks the field as a list.
pub open spec fn spec_desc_is_list(desc: Option<Seq<char>>) -> bool {
    match desc {
        Some(d) => spec_contains(d, "array"@) || spec_contains(d, "list"@),
        None => false,
    }
}

/// The shared information a row resolves into.
pub open spec fn spec_type_info(
    ts: Seq<char>,
    name: Seq<char>,
    desc: Option<Seq<char>>,
    types: Seq<(Seq<char>, TypeDescriptionV)>,
) -> TypeInfoV {
    TypeInfoV {
        name: spec_type_name(name),
        is_optional: spec_contains(name, "_optional_"@),
        is_list: spec_desc_is_list(desc) || spec_contains(ts, "array"@),
        description: desc,
        type_description: lookup_desc(types, spec_type_name(name)),
    }
}

/// The resolved type of one table row, if its type string names a known
/// kind: `bool`, `integer`/`number`/`int`, `string` and `float` map to the
/// scalar kinds; `array` resolves through the description into an object
/// reference or falls back to an array of strings; `object` resolves into
/// an object reference; anything else, `raw` included, is rejected.
pub open spec fn spec_type_from(
    ts: Seq<char>,
    name: Seq<char>,
    desc: Option<Seq<char>>,
    types: Seq<(Seq<char>, TypeDescriptionV)>,
) -> Option<TypeV> {
    let ti = spec_type_info(ts, name, desc, types);
    let t0 = spec_trim(ts);
    if t0 == "array"@ {
        match spec_extract_type(desc) {
            Some(rt) => Some(TypeV::Object(ObjectV { type_info: ti, ref_type: rt })),
            None => Some(TypeV::StringArray(ti)),
        }
    } else {
        let t = if spec_contains(ts, "array"@) {
            spec_trim(spec_remove_sub(ts, "array"@))
        } else {
            t0
        };
        if t == "bool"@ {
            Some(TypeV::Bool(ti))
        } else if t == "integer"@ || t == "number"@ || t == "int"@ {
            Some(TypeV::Number(ti))
        } else if t == "string"@ {
            Some(TypeV::String(ti))
        } else if t == "float"@ {
            Some(TypeV::Float(ti))
        } else if t == "object"@ {
            match spec_extract_type(desc) {
                Some(rt) => Some(TypeV::Object(ObjectV { type_info: ti, ref_type: rt })),
                None => Some(
                    TypeV::Object(
                        ObjectV { type_info: ti, ref_type: RefTypeV::String("object"@) },
                    ),
                ),
            }
        } else {
            None
        }
    }
}

impl TypeInfo {
    /// Bundle the shared information of one resolved field.
    pub fn new(
        name: &str,
        is_optional: bool,
        is_list: bool,
        description: Option<String>,
        type_description: Option<TypeDescription>,
    ) -> (r: Self)
        ensures
            r@ == (TypeInfoV {
                name: name@,
                is_optional,
                is_list,
                description: opt_str_view(description),
                type_description: match type_description {
                    Some(d) => Some(d@),
                    None => None,
                },
            }),
    {
        TypeInfo { name: name.to_owned(), is_optional, is_list, description, type_description }
    }
}

impl Type {
    /// The owned Rust type the generated code would use for this field.
    pub fn to_owned_type(&self) -> (r: String)
        ensures
            r@ == (match self@ {
                TypeV::Number(_) => "i128"@,
                TypeV::Float(_) => "f32"@,
                TypeV::Bool(_) => "bool"@,
                TypeV::String(_) => "String"@,
                TypeV::StringArray(_) => "String"@,
                TypeV::Object(_) => "String"@,
            }),
    {
        match self {
            Type::Number(_) => String::from_str("i128"),
            Type::Float(_) => String::from_str("f32"),
            Type::Bool(_) => String::from_str("bool"),
            Type::String(_) => String::from_str("String"),
            Type::StringArray(_) => String::from_str("String"),
            Type::Object(_) => String::from_str("String"),
        }
    }

    /// The borrowed Rust type the generated code would take for this field.
    pub fn to_borrowed_type(&self) -> (r: String)
        ensures
            r@ == (match self@ {
                TypeV::Number(_) => "i32"@,
                TypeV::Float(_) => "f32"@,
                TypeV::Bool(_) => "bool"@,
                TypeV::String(_) => "str"@,
                TypeV::StringArray(_) => "&[str]"@,
                TypeV::Object(_) => "str"@,
            }),
    {
        match self {
            Type::Number(_) => String::from_str("i32"),
            Type::Float(_) => String::from_str("f32"),
            Type::Bool(_) => String::from_str("bool"),
            Type::String(_) => String::from_str("str"),
            Type::StringArray(_) => String::from_str("&[str]"),
            Type::Object(_) => String::from_str("str"),
        }
    }

    /// Whether the generated code should pass this field by reference.
    pub fn should_borrow(&self) -> (r: bool)
        ensures
            r == (self@ is String || self@ is Object),
    {
        match self {
            Type::String(_) => true,
            Type::Object(_) => true,
            _ => false,
        }
    }

    /// Whether this field is optional.
    pub fn is_optional(&self) -> (r: bool)
        ensures
            r == type_info_of(self@).is_optional,
    {
        self.get_type_info().is_optional
    }

    /// Whether this field holds a list.
    pub fn is_list(&self) -> (r: bool)
        ensures
            r == type_info_of(self@).is_list,
    {
        self.get_type_info().is_list
    }

    /// The shared information of this field.
    pub fn get_type_info(&self) -> (r: &TypeInfo)
        ensures
            r@ == type_info_of(self@),
    {
        match self {
            Type::Number(t) => t,
            Type::Float(t) => t,
            Type::Bool(t) => t,
            Type::String(t) => t,
            Type::StringArray(t) => t,
            Type::Object(o) => &o.type_info,
        }
    }

    /// Resolve one table row into a typed field descriptor; see
    /// [`spec_type_from`] for the full mapping.
    pub fn from(
        type_as_str: &str,
        name: &str,
        description: Option<String>,
        types: &Vec<(String, TypeDescription)>,
    ) -> (r: Option<Type>)
        ensures
            opt_type_view(r) == spec_type_from(
                type_as_str@,
                name@,
                opt_str_view(description),
                desc_map_view(types@),
            ),
    {
        let tsv = str_chars(type_as_str);
        let namev = str_chars(name);
        let optv = str_chars(OPTIONAL);
        proof {
            crate::text::lemma_first_sub_at_bounds(namev@, OPTIONAL@, 0);
        }
        let before = match find_sub_vec(&namev, &optv) {
            Some(k) => subrange_vec(&namev, 0, k),
            None => subrange_vec(&namev, 0, namev.len()),
        };
        proof {
            assert(namev@.subrange(0, namev@.len() as int) =~= namev@);
        }
        let type_name_v = trim_vec(&before);
        let is_optional = contains_sub_vec(&namev, &optv);
        let arrv = str_chars("array");
        let listv = str_chars("list");
        let is_list_desc = match &description {
            Some(d) => {
                let dv = str_chars(d.as_str());
                contains_sub_vec(&dv, &arrv) || contains_sub_vec(&dv, &listv)
            },
            None => false,
        };
        proof {
            reveal_strlit("array");
        }
        let contains_array = contains_sub_vec(&tsv, &arrv);
        let reference = extract_type(&description);
        let type_description = lookup_description(types, &type_name_v);
        let type_info = TypeInfo {
            name: chars_string(&type_name_v),
            is_optional,
            is_list: is_list_desc || contains_array,
            description,
            type_description,
        };
        let t0 = trim_vec(&tsv);
        if eq_vec(&t0, &arrv) {
            return match reference {
                Some(rt) => Some(Type::Object(Object { type_info, ref_type: rt })),
                None => Some(Type::StringArray(type_info)),
            };
        }
        let t = if contains_array {
            trim_vec(&remove_sub_vec(&tsv, &arrv))
        } else {
            t0
        };
        if eq_vec(&t, &str_chars("bool")) {
            Some(Type::Bool(type_info))
        } else if eq_vec(&t, &str_chars("integer")) || eq_vec(&t, &str_chars("number")) || eq_vec(
            &t,
            &str_chars("int"),
        ) {
            Some(Type::Number(type_info))
        } else if eq_vec(&t, &str_chars("string")) {
            Some(Type::String(type_info))
        } else if eq_vec(&t, &str_chars("float")) {
            Some(Type::Float(type_info))
        } else if eq_vec(&t, &str_chars("object")) {
            match reference {
                Some(rt) => Some(Type::Object(Object { type_info, ref_type: rt })),
                None => Some(
                    Type::Object(
                        Object { type_info, ref_type: RefType::String(String::from_str("object")) },
                    ),
                ),
            }
        } else {
            None
        }
    }
}

} // verus!
