//! Semantic extraction: from the document tree to the API schema.

pub mod description;
pub mod method;
pub mod object_types;
pub mod parameters;
pub mod return_type;
pub mod url;
pub mod util;

use crate::md_parser::token_tree::{lemma_children_views, NodeV};
use crate::md_parser::token_tree_factory::spec_build;
use crate::md_parser::TokenTree;
use crate::md_parser::md_token::spec_tokenize;
use crate::text::{
    chars_string, eq_vec, spec_lower, spec_replace_char, spec_strip_suffix_all, spec_trim,
    str_chars, lower_vec, strip_suffix_all_vec, trim_vec, replace_char_vec,
};
use crate::types::{Type, TypeV};
use crate::ParseError;
use vstd::prelude::*;

verus! {

/// One API group: a top-level section of the reference.
#[derive(Debug)]
pub struct ApiGroup {
    pub name: String,
    pub methods: Vec<ApiMethod>,
    pub description: Option<String>,
    pub url: String,
}

/// One callable API method within a group.
#[derive(Debug)]
pub struct ApiMethod {
    pub name: String,
    pub description: Option<String>,
    pub url: String,
    pub parameters: Option<ApiParameters>,
    pub return_type: Option<ReturnType>,
}

/// A method's parameters, split into the mandatory and the optional ones.
#[derive(Debug)]
pub struct ApiParameters {
    pub mandatory: Vec<Type>,
    pub optional: Vec<Type>,
}

/// The shape of a method's response.
#[derive(Debug)]
pub struct ReturnType {
    pub is_list: bool,
    pub parameters: Vec<ReturnTypeParameter>,
}

/// One field of a method's response.
#[derive(Debug)]
pub struct ReturnTypeParameter {
    pub name: String,
    pub description: String,
    pub return_type: Type,
}

/// Model of an API group.
pub struct ApiGroupV {
    pub name: Seq<char>,
    pub methods: Seq<ApiMethodV>,
    pub description: Option<Seq<char>>,
    pub url: Seq<char>,
}

/// Model of an API method.
pub struct ApiMethodV {
    pub name: Seq<char>,
    pub description: Option<Seq<char>>,
    pub url: Seq<char>,
    pub parameters: Option<ApiParametersV>,
    pub return_type: Option<ReturnTypeV>,
}

/// Model of a parameter split.
pub struct ApiParametersV {
    pub mandatory: Seq<TypeV>,
    pub optional: Seq<TypeV>,
}

/// Model of a response shape.
pub struct ReturnTypeV {
    pub is_list: bool,
    pub parameters: Seq<ReturnTypeParameterV>,
}

/// Model of one response field.
pub struct ReturnTypeParameterV {
    pub name: Seq<char>,
    pub description: Seq<char>,
    pub return_type: TypeV,
}

impl View for ReturnTypeParameter {
    type V = ReturnTypeParameterV;

    open spec fn view(&self) -> ReturnTypeParameterV {
        ReturnTypeParameterV {
            name: self.name@,
            description: self.description@,
            return_type: self.return_type@,
        }
    }
}

impl View for ReturnType {
    type V = ReturnTypeV;

    open spec fn view(&self) -> ReturnTypeV {
        ReturnTypeV {
            is_list: self.is_list,
            parameters: self.parameters@.map_values(|p: ReturnTypeParameter| p@),
        }
    }
}

impl View for ApiParameters {
    type V = ApiParametersV;

    open spec fn view(&self) -> ApiParametersV {
        ApiParametersV {
            mandatory: self.mandatory@.map_values(|t: Type| t@),
            optional: self.optional@.map_values(|t: Type| t@),
        }
    }
}

impl View for ApiMethod {
    type V = ApiMethodV;

    open spec fn view(&self) -> ApiMethodV {
        ApiMethodV {
            name: self.name@,
            description: match &self.description {
                Some(d) => Some(d@),
                None => None,
            },
            url: self.url@,
            parameters: match &self.parameters {
                Some(p) => Some(p@),
                None => None,
            },
            return_type: match &self.return_type {
                Some(rt) => Some(rt@),
                None => None,
            },
        }
    }
}

impl View for ApiGroup {
    type V = ApiGroupV;

    open spec fn view(&self) -> ApiGroupV {
        ApiGroupV {
            name: self.name@,
            methods: self.methods@.map_values(|m: ApiMethod| m@),
            description: match &self.description {
                Some(d) => Some(d@),
                None => None,
            },
            url: self.url@,
        }
    }
}


/// Model of a structural failure during group extraction.
pub enum GroupErrV {
    MissingTitle,
    MissingUrl(Seq<char>),
    Unresolved(Seq<char>),
}

/// Whether a concrete error reports the modelled group failure.
pub open spec fn group_err_matches(ge: GroupErrV, e: ParseError) -> bool {
    match ge {
        GroupErrV::MissingTitle => e is MissingGroupTitle,
        GroupErrV::MissingUrl(n) => e matches ParseError::MissingGroupUrl { group } && group@ == n,
        GroupErrV::Unresolved(t) => e matches ParseError::UnresolvedReturnType { type_text }
            && type_text@ == t,
    }
}

/// The normalized group name a section title yields: lower-cased, the
/// trailing experimental marker removed, trimmed, spaces to underscores.
pub open spec fn spec_group_name(title: Seq<char>) -> Seq<char> {
    spec_replace_char(
        spec_trim(spec_strip_suffix_all(spec_lower(title), "(experimental)"@)),
        ' ',
        '_',
    )
}

/// The methods of a group node: each child that carries the method
/// marker, in order, or the first failing return-type string.
pub open spec fn methods_from(children: Seq<NodeV>, i: int) -> Result<Seq<ApiMethodV>, Seq<char>>
    decreases children.len() - i,
{
    if i < 0 || i >= children.len() {
        Ok(Seq::empty())
    } else {
        match method::spec_try_method(children[i].content) {
            Ok(Some(m)) => match methods_from(children, i + 1) {
                Ok(rest) => Ok(seq![m] + rest),
                Err(e) => Err(e),
            },
            Ok(None) => methods_from(children, i + 1),
            Err(e) => Err(e),
        }
    }
}

/// The group a retained top-level node yields, or what made it fail: an
/// unresolved return type first, then a missing URL sentence, then a
/// missing title.
pub open spec fn spec_group_from(n: NodeV) -> Result<ApiGroupV, GroupErrV> {
    match methods_from(n.children, 0) {
        Err(e) => Err(GroupErrV::Unresolved(e)),
        Ok(ms) => match url::spec_group_url(n.content) {
            None => Err(
                GroupErrV::MissingUrl(
                    match n.title {
                        Some(t) => spec_group_name(t),
                        None => Seq::empty(),
                    },
                ),
            ),
            Some(u) => match n.title {
                None => Err(GroupErrV::MissingTitle),
                Some(t) => Ok(
                    ApiGroupV {
                        name: spec_group_name(t),
                        methods: ms,
                        description: description::spec_group_description(n.content),
                        url: u,
                    },
                ),
            },
        },
    }
}

/// The groups of a list of retained nodes, or the first failure.
pub open spec fn groups_from(nodes: Seq<NodeV>, i: int) -> Result<Seq<ApiGroupV>, GroupErrV>
    decreases nodes.len() - i,
{
    if i < 0 || i >= nodes.len() {
        Ok(Seq::empty())
    } else {
        match spec_group_from(nodes[i]) {
            Ok(g) => match groups_from(nodes, i + 1) {
                Ok(rest) => Ok(seq![g] + rest),
                Err(e) => Err(e),
            },
            Err(e) => Err(e),
        }
    }
}

/// Position of the first top-level child at or after `i` that stops the
/// front-matter skip: an untitled child or the anchor section.
pub open spec fn skip_front(children: Seq<NodeV>, i: int) -> int
    decreases children.len() - i,
{
    if 0 <= i && i < children.len() && (children[i].title matches Some(t) && t
        != "Authentication"@) {
        skip_front(children, i + 1)
    } else {
        i
    }
}

/// The titled children from `i` on whose title is not the versioning
/// section.
pub open spec fn keep_from(children: Seq<NodeV>, i: int) -> Seq<NodeV>
    decreases children.len() - i,
{
    if i < 0 || i >= children.len() {
        Seq::empty()
    } else if children[i].title matches Some(t) && t != "WebAPI versioning"@ {
        seq![children[i]] + keep_from(children, i + 1)
    } else {
        keep_from(children, i + 1)
    }
}

/// The retained top-level sections of a document tree: front matter up to
/// the anchor section dropped, the versioning section excluded.
pub open spec fn spec_relevant(root: NodeV) -> Seq<NodeV> {
    keep_from(root.children, skip_front(root.children, 0))
}

impl TokenTree {
    /// The normalized group name of this node's title, where it has one.
    pub fn name(&self) -> (r: Option<String>)
        ensures
            (match r {
                Some(n) => Some(n@),
                None => None,
            }) == (match self@.title {
                Some(t) => Some(spec_group_name(t)),
                None => None::<Seq<char>>,
            }),
    {
        let title = match &self.title {
            Some(t) => t,
            None => {
                return None;
            },
        };
        let tv = lower_vec(&str_chars(title.as_str()));
        let marker = str_chars("(experimental)");
        proof {
            reveal_strlit("(experimental)");
        }
        let stripped = strip_suffix_all_vec(&tv, &marker);
        Some(chars_string(&replace_char_vec(&trim_vec(&stripped), ' ', '_')))
    }

    /// The methods among this node's children, in order.
    pub fn methods(&self) -> (r: Result<Vec<ApiMethod>, ParseError>)
        ensures
            match r {
                Ok(ms) => methods_from(self@.children, 0) == Ok::<Seq<ApiMethodV>, Seq<char>>(
                    ms@.map_values(|m: ApiMethod| m@),
                ),
                Err(e) => e matches ParseError::UnresolvedReturnType { type_text }
                    && methods_from(self@.children, 0) == Err::<Seq<ApiMethodV>, Seq<char>>(
                    type_text@,
                ),
            },
    {
        let ghost kids = self@.children;
        proof {
            lemma_children_views(self.children@);
        }
        let mut out: Vec<ApiMethod> = Vec::new();
        let mut k: usize = 0;
        while k < self.children.len()
            invariant
                kids == TokenTree::children_views(self.children@),
                kids.len() == self.children@.len(),
                forall|j: int| 0 <= j < kids.len() ==> #[trigger] kids[j] == self.children@[j]@,
                k <= kids.len(),
                match methods_from(kids, k as int) {
                    Ok(rest) => methods_from(kids, 0) == Ok::<Seq<ApiMethodV>, Seq<char>>(
                        out@.map_values(|m: ApiMethod| m@) + rest,
                    ),
                    Err(e) => methods_from(kids, 0) == Err::<Seq<ApiMethodV>, Seq<char>>(e),
                },
            decreases self.children.len() - k,
        {
            let ghost prev = out@;
            match ApiMethod::try_new(&self.children[k]) {
                Ok(Some(m)) => {
                    let ghost mv = m@;
                    out.push(m);
                    proof {
                        assert(out@.map_values(|m: ApiMethod| m@) =~= prev.map_values(
                            |m: ApiMethod| m@,
                        ).push(mv));
                        match methods_from(kids, k + 1) {
                            Ok(rest) => {
                                assert(out@.map_values(|m: ApiMethod| m@) + rest =~= prev
                                    .map_values(|m: ApiMethod| m@) + (seq![mv] + rest));
                            },
                            Err(_) => {},
                        }
                    }
                },
                Ok(None) => {},
                Err(e) => {
                    return Err(e);
                },
            }
            k = k + 1;
        }
        proof {
            assert(out@.map_values(|m: ApiMethod| m@) + Seq::<ApiMethodV>::empty() =~= out@
                .map_values(|m: ApiMethod| m@));
        }
        Ok(out)
    }
}

impl ApiGroup {
    /// Extract one group from a retained top-level node.
    pub fn new(tree: &TokenTree) -> (r: Result<ApiGroup, ParseError>)
        ensures
            match r {
                Ok(g) => spec_group_from(tree@) == Ok::<ApiGroupV, GroupErrV>(g@),
                Err(e) => spec_group_from(tree@) is Err && group_err_matches(
                    spec_group_from(tree@)->Err_0,
                    e,
                ),
            },
    {
        let methods = match tree.methods() {
            Ok(ms) => ms,
            Err(e) => {
                return Err(e);
            },
        };
        let name = tree.name();
        let url = match tree.get_group_url() {
            Some(u) => u,
            None => {
                return Err(
                    ParseError::MissingGroupUrl {
                        group: match name {
                            Some(n) => n,
                            None => String::new(),
                        },
                    },
                );
            },
        };
        let name = match name {
            Some(n) => n,
            None => {
                return Err(ParseError::MissingGroupTitle);
            },
        };
        let description = tree.parse_group_description();
        proof {
            assert(methods@.map_values(|m: ApiMethod| m@) + Seq::<ApiMethodV>::empty()
                =~= methods@.map_values(|m: ApiMethod| m@));
        }
        Ok(ApiGroup { name, methods, description, url })
    }
}

/// Extract one group from a retained top-level node.
pub fn parse_api_group(tree: &TokenTree) -> (r: Result<ApiGroup, ParseError>)
    ensures
        match r {
            Ok(g) => spec_group_from(tree@) == Ok::<ApiGroupV, GroupErrV>(g@),
            Err(e) => spec_group_from(tree@) is Err && group_err_matches(
                spec_group_from(tree@)->Err_0,
                e,
            ),
        },
{
    ApiGroup::new(tree)
}

/// Recognize a child node as a method and extract it.
pub fn parse_api_method(child: &TokenTree) -> (r: Result<Option<ApiMethod>, ParseError>)
    ensures
        match r {
            Ok(o) => method::spec_try_method(child@.content) == Ok::<
                Option<ApiMethodV>,
                Seq<char>,
            >(match o {
                Some(m) => Some(m@),
                None => None,
            }),
            Err(e) => e matches ParseError::UnresolvedReturnType { type_text }
                && method::spec_try_method(child@.content) == Err::<Option<ApiMethodV>, Seq<char>>(
                type_text@,
            ),
        },
{
    ApiMethod::try_new(child)
}

/// Extract the method named `name` from its node.
pub fn to_api_method(child: &TokenTree, name: String) -> (r: Result<ApiMethod, ParseError>)
    ensures
        match r {
            Ok(meth) => return_type::spec_parse_return_type(child@.content) is Ok && meth@
                == (ApiMethodV {
                name: name@,
                description: description::spec_method_description(child@.content),
                url: name@,
                parameters: method::spec_api_parameters(child@.content),
                return_type: return_type::spec_parse_return_type(child@.content)->Ok_0,
            }),
            Err(e) => e matches ParseError::UnresolvedReturnType { type_text }
                && return_type::spec_parse_return_type(child@.content) == Err::<
                Option<ReturnTypeV>,
                Seq<char>,
            >(type_text@),
        },
{
    ApiMethod::new(child, name)
}

/// Keep only the top-level sections that make up the API reference.
pub fn extract_relevant_parts(tree: TokenTree) -> (r: Vec<TokenTree>)
    ensures
        r@.map_values(|t: TokenTree| t@) == spec_relevant(tree@),
{
    let ghost kids = tree@.children;
    proof {
        lemma_children_views(tree.children@);
    }
    let anchor = str_chars("Authentication");
    let versioning = str_chars("WebAPI versioning");
    proof {
        reveal_strlit("Authentication");
        reveal_strlit("WebAPI versioning");
    }
    let ghost total = kids.len() as int;
    let mut children = tree.children;
    let mut out: Vec<TokenTree> = Vec::new();
    let mut skipping = true;
    while children.len() > 0
        invariant
            anchor@ == "Authentication"@,
            versioning@ == "WebAPI versioning"@,
            total == kids.len(),
            children@.len() <= total,
            forall|j: int|
                0 <= j < children@.len() ==> #[trigger] children@[j]@ == kids[total
                    - children@.len() + j],
            (if skipping {
                out@.len() == 0 && skip_front(kids, 0) == skip_front(kids, total - children@.len())
            } else {
                skip_front(kids, 0) <= total - children@.len() && out@.map_values(
                    |t: TokenTree| t@,
                ) + keep_from(kids, total - children@.len()) == keep_from(
                    kids,
                    skip_front(kids, 0),
                )
            }),
        decreases children.len(),
    {
        let ghost idx = total - children@.len();
        let ghost pre = children@;
        let boxed = children.remove(0);
        let child = *boxed;
        proof {
            assert(child@ == kids[idx]);
            assert forall|j: int| 0 <= j < children@.len() implies #[trigger] children@[j]@
                == kids[idx + 1 + j] by {
                assert(children@[j] == pre[j + 1]);
            }
        }
        let keep_checking = skipping;
        if keep_checking {
            let stops = match &child.title {
                Some(t) => eq_vec(&str_chars(t.as_str()), &anchor),
                None => true,
            };
            if stops {
                skipping = false;
                proof {
                    assert(skip_front(kids, idx) == idx);
                }
            } else {
                proof {
                    assert(skip_front(kids, idx) == skip_front(kids, idx + 1));
                }
            }
        }
        if !skipping {
            let keep = match &child.title {
                Some(t) => !eq_vec(&str_chars(t.as_str()), &versioning),
                None => false,
            };
            let ghost prev = out@;
            if keep {
                let ghost cv = child@;
                out.push(child);
                proof {
                    assert(out@.map_values(|t: TokenTree| t@) =~= prev.map_values(
                        |t: TokenTree| t@,
                    ).push(cv));
                    assert(out@.map_values(|t: TokenTree| t@) + keep_from(kids, idx + 1) =~= prev
                        .map_values(|t: TokenTree| t@) + (seq![cv] + keep_from(kids, idx + 1)));
                }
            } else {
                proof {
                    assert(keep_from(kids, idx) == keep_from(kids, idx + 1));
                }
            }
        }
    }
    proof {
        if skipping {
            assert(skip_front(kids, 0) == skip_front(kids, total));
            assert(keep_from(kids, skip_front(kids, 0)) =~= Seq::<NodeV>::empty());
            assert(out@.map_values(|t: TokenTree| t@) =~= Seq::<NodeV>::empty());
        } else {
            assert(out@.map_values(|t: TokenTree| t@) + keep_from(kids, total) =~= out@
                .map_values(|t: TokenTree| t@));
        }
    }
    out
}

/// Extract every group from a list of retained top-level nodes.
pub fn parse_groups(trees: Vec<TokenTree>) -> (r: Result<Vec<ApiGroup>, ParseError>)
    ensures
        match r {
            Ok(gs) => groups_from(trees@.map_values(|t: TokenTree| t@), 0) == Ok::<
                Seq<ApiGroupV>,
                GroupErrV,
            >(gs@.map_values(|g: ApiGroup| g@)),
            Err(e) => groups_from(trees@.map_values(|t: TokenTree| t@), 0) is Err
                && group_err_matches(
                groups_from(trees@.map_values(|t: TokenTree| t@), 0)->Err_0,
                e,
            ),
        },
{
    let ghost nodes = trees@.map_values(|t: TokenTree| t@);
    let ghost total = nodes.len() as int;
    let mut rest = trees;
    let mut out: Vec<ApiGroup> = Vec::new();
    while rest.len() > 0
        invariant
            nodes == trees@.map_values(|t: TokenTree| t@),
            total == nodes.len(),
            rest@.len() <= total,
            forall|j: int|
                0 <= j < rest@.len() ==> #[trigger] rest@[j]@ == nodes[total - rest@.len() + j],
            match groups_from(nodes, total - rest@.len()) {
                Ok(restg) => groups_from(nodes, 0) == Ok::<Seq<ApiGroupV>, GroupErrV>(
                    out@.map_values(|g: ApiGroup| g@) + restg,
                ),
                Err(e) => groups_from(nodes, 0) == Err::<Seq<ApiGroupV>, GroupErrV>(e),
            },
        decreases rest.len(),
    {
        let ghost idx = total - rest@.len();
        let ghost pre = rest@;
        let tree = rest.remove(0);
        proof {
            assert(tree@ == nodes[idx]);
            assert forall|j: int| 0 <= j < rest@.len() implies #[trigger] rest@[j]@ == nodes[idx + 1
                + j] by {
                assert(rest@[j] == pre[j + 1]);
            }
        }
        let ghost prev = out@;
        match ApiGroup::new(&tree) {
            Ok(g) => {
                let ghost gv = g@;
                out.push(g);
                proof {
                    assert(out@.map_values(|g: ApiGroup| g@) =~= prev.map_values(
                        |g: ApiGroup| g@,
                    ).push(gv));
                    match groups_from(nodes, idx + 1) {
                        Ok(restg) => {
                            assert(out@.map_values(|g: ApiGroup| g@) + restg =~= prev.map_values(
                                |g: ApiGroup| g@,
                            ) + (seq![gv] + restg));
                        },
                        Err(_) => {},
                    }
                }
            },
            Err(e) => {
                return Err(e);
            },
        }
    }
    proof {
        assert(out@.map_values(|g: ApiGroup| g@) + Seq::<ApiGroupV>::empty() =~= out@.map_values(
            |g: ApiGroup| g@,
        ));
    }
    Ok(out)
}

/// Parse the whole document into its API groups: tokenize, build the
/// header tree, keep the reference sections, extract every group.
pub fn parse_api_groups(content: &str) -> (r: Result<Vec<ApiGroup>, ParseError>)
    ensures
        match spec_tokenize(content@) {
            Err(e) => r is Err && r->Err_0 == e,
            Ok(ts) => match groups_from(spec_relevant(spec_build(ts)), 0) {
                Ok(gs) => r is Ok && r->Ok_0@.map_values(|g: ApiGroup| g@) == gs,
                Err(ge) => r is Err && group_err_matches(ge, r->Err_0),
            },
        },
{
    let tree = match crate::md_parser::TokenTreeFactory::create(content) {
        Ok(t) => t,
        Err(e) => {
            return Err(e);
        },
    };
    let relevant = extract_relevant_parts(tree);
    parse_groups(relevant)
}

} // verus!
