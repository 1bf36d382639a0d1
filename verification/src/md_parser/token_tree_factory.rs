//! Builder that folds the token stream into the document tree.
//!
//! A stack of open nodes starts with an empty root at level 0. A header of
//! level L first closes every open node of level at least L, attaching each
//! closed node to the node below it, then opens a new node on top. Every
//! non-header token lands in the content of the topmost open node. At the
//! end of the stream the remaining nodes close onto the root.

use super::md_token::{
    spec_tokenize, tokens_views, wf_token, ContentV, HeaderV, MdContent, MdToken, TokenV,
};
use super::token_tree::{NodeV, TokenTree};
use crate::text::spec_lines;
use crate::ParseError;
use vstd::prelude::*;
use vstd::string::StrSliceExecFns;

verus! {

/// The empty root every build starts from.
pub open spec fn root_node() -> NodeV {
    NodeV { title: None, content: Seq::empty(), children: Seq::empty(), level: 0 }
}

/// An empty header title becomes no title at all.
pub open spec fn title_of(text: Seq<char>) -> Option<Seq<char>> {
    if text.len() == 0 {
        None
    } else {
        Some(text)
    }
}

/// The fresh node a header token opens.
pub open spec fn new_node(h: HeaderV) -> NodeV {
    NodeV { title: title_of(h.text), content: Seq::empty(), children: Seq::empty(), level: h.level }
}

/// Close the topmost open node: it becomes the last child of the node
/// below it. Meaningful only for a stack of at least two nodes.
pub open spec fn close_one(stack: Seq<NodeV>) -> Seq<NodeV> {
    let top = stack.last();
    let parent = stack[stack.len() - 2];
    stack.drop_last().drop_last().push(
        NodeV {
            title: parent.title,
            content: parent.content,
            children: parent.children.push(top),
            level: parent.level,
        },
    )
}

/// Close every open node whose level is at least `level`; the root, at
/// level 0, never closes here.
pub open spec fn close_to(stack: Seq<NodeV>, level: int) -> Seq<NodeV>
    decreases stack.len(),
{
    if stack.len() >= 2 && stack.last().level >= level {
        close_to(close_one(stack), level)
    } else {
        stack
    }
}

/// Attach a content item to the topmost open node.
pub open spec fn push_content(stack: Seq<NodeV>, c: ContentV) -> Seq<NodeV> {
    let top = stack.last();
    stack.drop_last().push(
        NodeV {
            title: top.title,
            content: top.content.push(c),
            children: top.children,
            level: top.level,
        },
    )
}

/// One build step: what a single token does to the stack of open nodes.
pub open spec fn step(stack: Seq<NodeV>, t: TokenV) -> Seq<NodeV> {
    match t {
        TokenV::Header(h) => close_to(stack, h.level).push(new_node(h)),
        TokenV::Content(c) => push_content(stack, c),
    }
}

/// Fold a token stream over the stack, first token first.
pub open spec fn fold_tokens(stack: Seq<NodeV>, ts: Seq<TokenV>) -> Seq<NodeV>
    decreases ts.len(),
{
    if ts.len() == 0 {
        stack
    } else {
        fold_tokens(step(stack, ts[0]), ts.drop_first())
    }
}

/// Close every node still open at the end of the stream.
pub open spec fn close_all(stack: Seq<NodeV>) -> Seq<NodeV>
    decreases stack.len(),
{
    if stack.len() >= 2 {
        close_all(close_one(stack))
    } else {
        stack
    }
}

/// The tree a token stream builds: fold every token over a stack seeded
/// with the empty root, then close what remains open.
pub open spec fn spec_build(ts: Seq<TokenV>) -> NodeV {
    close_all(fold_tokens(seq![root_node()], ts))[0]
}

/// A healthy stack of open nodes: never empty, the root at level 0 below,
/// every other node at a real header level.
pub open spec fn wf_stack(stack: Seq<NodeV>) -> bool {
    &&& stack.len() >= 1
    &&& stack[0].level == 0
    &&& forall|k: int| 1 <= k < stack.len() ==> #[trigger] stack[k].level >= 1
}

/// Folding distributes over appending one token at the end of the stream.
proof fn lemma_fold_push(stack: Seq<NodeV>, ts: Seq<TokenV>, t: TokenV)
    ensures
        fold_tokens(stack, ts.push(t)) == step(fold_tokens(stack, ts), t),
    decreases ts.len(),
{
    if ts.len() == 0 {
        assert(ts.push(t)[0] == t);
        assert(ts.push(t).drop_first() =~= Seq::<TokenV>::empty());
        assert(fold_tokens(stack, ts.push(t)) == fold_tokens(
            step(stack, t),
            Seq::<TokenV>::empty(),
        ));
        assert(fold_tokens(step(stack, t), Seq::<TokenV>::empty()) == step(stack, t));
        assert(fold_tokens(stack, ts) == stack);
    } else {
        assert(ts.push(t)[0] == ts[0]);
        assert(ts.push(t).drop_first() =~= ts.drop_first().push(t));
        lemma_fold_push(step(stack, ts[0]), ts.drop_first(), t);
    }
}

/// Folding one token more extends the fold of the prefix by one step.
proof fn lemma_fold_snoc(stack: Seq<NodeV>, ts: Seq<TokenV>, i: int)
    requires
        0 <= i < ts.len(),
    ensures
        fold_tokens(stack, ts.subrange(0, i + 1)) == step(
            fold_tokens(stack, ts.subrange(0, i)),
            ts[i],
        ),
{
    assert(ts.subrange(0, i + 1) =~= ts.subrange(0, i).push(ts[i]));
    lemma_fold_push(stack, ts.subrange(0, i), ts[i]);
}

/// One open node under construction: the mutable counterpart of a
/// [`TokenTree`] node.
#[derive(Debug, Default)]
pub struct TokenTreeFactory {
    pub title: Option<String>,
    pub content: Vec<MdContent>,
    pub children: Vec<Box<TokenTree>>,
    pub level: usize,
}

impl View for TokenTreeFactory {
    type V = NodeV;

    open spec fn view(&self) -> NodeV {
        NodeV {
            title: match &self.title {
                Some(t) => Some(t@),
                None => None,
            },
            content: super::md_token::contents_views(self.content@),
            children: TokenTree::children_views(self.children@),
            level: self.level as int,
        }
    }
}

/// The models of a stack of open nodes.
pub open spec fn factory_views(s: Seq<TokenTreeFactory>) -> Seq<NodeV> {
    s.map_values(|f: TokenTreeFactory| f@)
}

impl TokenTree {
    /// Seal one finished builder node into a tree node.
    pub fn from(factory: TokenTreeFactory) -> (r: TokenTree)
        ensures
            r@ == factory@,
    {
        TokenTree {
            title: factory.title,
            content: factory.content,
            children: factory.children,
            level: factory.level,
        }
    }
}

impl TokenTreeFactory {
    /// A fresh open node; an empty title means none.
    pub fn new(title: &str, level: usize) -> (r: Self)
        ensures
            r@ == new_node(HeaderV { level: level as int, text: title@ }),
    {
        let t: Option<String> = if title.unicode_len() == 0 {
            None
        } else {
            Some(title.to_owned())
        };
        let r = TokenTreeFactory { title: t, content: Vec::new(), children: Vec::new(), level };
        proof {
            assert(r@.content =~= Seq::<ContentV>::empty());
            assert(r@.children =~= Seq::<NodeV>::empty());
        }
        r
    }

    /// Attach one content item to this open node.
    pub fn add_content(&mut self, content: MdContent)
        ensures
            final(self)@ == (NodeV { content: old(self)@.content.push(content@), ..old(self)@ }),
    {
        let ghost c = content@;
        self.content.push(content);
        proof {
            assert(super::md_token::contents_views(self.content@) =~= old(self)@.content.push(c));
        }
    }

    /// Attach one finished child node to this open node.
    pub fn append(&mut self, child: TokenTree)
        ensures
            final(self)@ == (NodeV { children: old(self)@.children.push(child@), ..old(self)@ }),
    {
        let ghost cv = child@;
        self.children.push(Box::new(child));
        proof {
            super::token_tree::lemma_children_views_push(
                old(self).children@,
                self.children@.last(),
            );
            assert(self.children@.drop_last() =~= old(self).children@);
            assert(self.children@ =~= old(self).children@.push(self.children@.last()));
        }
    }

    /// Build the document tree of a whole document: tokenize it, then fold
    /// the tokens by header level.
    pub fn create(content: &str) -> (r: Result<TokenTree, ParseError>)
        ensures
            match spec_tokenize(content@) {
                Ok(ts) => r is Ok && r->Ok_0@ == spec_build(ts),
                Err(e) => r is Err && r->Err_0 == e,
            },
    {
        let mut tokens = match MdToken::from(content) {
            Ok(t) => t,
            Err(e) => {
                return Err(e);
            },
        };
        let ghost ts = tokens_views(tokens@);
        let ghost total = ts.len() as int;
        proof {
            super::md_token::lemma_tokenize_wf(
                spec_lines(content@),
                0,
                super::md_token::MAX_ITERATIONS as int,
            );
        }
        let mut stack: Vec<TokenTreeFactory> = Vec::new();
        stack.push(TokenTreeFactory::default_root());
        proof {
            assert(factory_views(stack@) =~= seq![root_node()]);
            assert(ts.subrange(0, 0) =~= Seq::<TokenV>::empty());
        }
        while tokens.len() > 0
            invariant
                total == ts.len(),
                tokens@.len() <= total,
                tokens_views(tokens@) == ts.subrange(total - tokens@.len(), total),
                forall|k: int| 0 <= k < ts.len() ==> wf_token(#[trigger] ts[k]),
                wf_stack(factory_views(stack@)),
                factory_views(stack@) == fold_tokens(
                    seq![root_node()],
                    ts.subrange(0, total - tokens@.len()),
                ),
            decreases tokens.len(),
        {
            let ghost idx = total - tokens@.len();
            let ghost pre = factory_views(stack@);
            let ghost pre_tokens = tokens@;
            let token = tokens.remove(0);
            proof {
                assert(token@ == tokens_views(pre_tokens)[0]);
                assert(token@ == ts[idx]);
                assert(tokens@ =~= pre_tokens.subrange(1, pre_tokens.len() as int));
                assert forall|k: int| 0 <= k < tokens@.len() implies tokens@[k]@ == ts[idx + 1
                    + k] by {
                    assert(tokens_views(pre_tokens)[k + 1] == pre_tokens[k + 1]@);
                    assert(ts.subrange(idx, total)[k + 1] == ts[idx + 1 + k]);
                }
                assert(tokens_views(tokens@) =~= ts.subrange(idx + 1, total));
                lemma_fold_snoc(seq![root_node()], ts, idx);
            }
            match token {
                MdToken::Header(h) => {
                    let level = h.level;
                    proof {
                        assert(wf_token(ts[idx]));
                    }
                    while peek_level(&stack) >= level
                        invariant
                            level >= 1,
                            wf_stack(factory_views(stack@)),
                            close_to(factory_views(stack@), level as int) == close_to(
                                pre,
                                level as int,
                            ),
                        decreases stack@.len(),
                    {
                        proof {
                            let sv = factory_views(stack@);
                            if sv.len() == 1 {
                                assert(sv.last() == sv[0]);
                                assert(false);
                            }
                        }
                        close_top(&mut stack);
                    }
                    proof {
                        let sv = factory_views(stack@);
                        assert(close_to(sv, level as int) == sv);
                        assert(sv == close_to(pre, level as int));
                    }
                    let new_fact = TokenTreeFactory::new(h.content.as_str(), level);
                    stack.push(new_fact);
                    proof {
                        assert(factory_views(stack@) =~= close_to(pre, level as int).push(
                            new_node(HeaderV { level: level as int, text: h.content@ }),
                        ));
                        assert(factory_views(stack@) == step(pre, ts[idx]));
                    }
                },
                MdToken::Content(c) => {
                    let ghost cv = c@;
                    let top_opt = stack.pop();
                    let mut top = top_opt.unwrap();
                    top.add_content(c);
                    stack.push(top);
                    proof {
                        assert(factory_views(stack@) =~= push_content(pre, cv));
                        assert(factory_views(stack@) == step(pre, ts[idx]));
                    }
                },
            }
        }
        proof {
            assert(ts.subrange(0, total) =~= ts);
        }
        let ghost folded = factory_views(stack@);
        while stack.len() >= 2
            invariant
                wf_stack(factory_views(stack@)),
                close_all(factory_views(stack@)) == close_all(folded),
            decreases stack@.len(),
        {
            close_top(&mut stack);
        }
        proof {
            let sv = factory_views(stack@);
            assert(close_all(sv) == sv);
            assert(sv[0] == spec_build(ts));
        }
        let root_opt = stack.pop();
        let root_fact = root_opt.unwrap();
        Ok(TokenTree::from(root_fact))
    }

    /// The empty root node every build starts from.
    pub fn default_root() -> (r: Self)
        ensures
            r@ == root_node(),
    {
        let r = TokenTreeFactory {
            title: None,
            content: Vec::new(),
            children: Vec::new(),
            level: 0,
        };
        proof {
            assert(r@.content =~= root_node().content);
            assert(r@.children =~= root_node().children);
        }
        r
    }
}

/// The level of the topmost open node.
fn peek_level(stack: &Vec<TokenTreeFactory>) -> (r: usize)
    requires
        stack@.len() >= 1,
    ensures
        r as int == factory_views(stack@).last().level,
{
    let n = stack.len();
    stack[n - 1].level
}

/// Close the topmost open node onto the node below it.
fn close_top(stack: &mut Vec<TokenTreeFactory>)
    requires
        old(stack)@.len() >= 2,
        wf_stack(factory_views(old(stack)@)),
    ensures
        final(stack)@.len() == old(stack)@.len() - 1,
        factory_views(final(stack)@) == close_one(factory_views(old(stack)@)),
        wf_stack(factory_views(final(stack)@)),
{
    let ghost ov = factory_views(old(stack)@);
    let top_opt = stack.pop();
    let top = top_opt.unwrap();
    let tree = TokenTree::from(top);
    let parent_opt = stack.pop();
    let mut parent = parent_opt.unwrap();
    parent.append(tree);
    stack.push(parent);
    proof {
        assert(factory_views(stack@) =~= close_one(ov));
        let nv = factory_views(stack@);
        assert forall|k: int| 1 <= k < nv.len() implies #[trigger] nv[k].level >= 1 by {
            assert(nv[k].level == ov[k].level);
        }
        assert(nv[0].level == ov[0].level);
    }
}


/// A stack fit for building a well-formed tree: levels strictly increase
/// upward from the level-0 root, and every open node already satisfies
/// the tree shape for the children it has gathered so far.
pub open spec fn stack_shape(stack: Seq<NodeV>) -> bool {
    &&& stack.len() >= 1
    &&& stack[0].level == 0
    &&& (forall|k: int| 0 <= k < stack.len() - 1 ==> #[trigger] stack[k].level < stack[k + 1].level)
    &&& (forall|k: int| 0 <= k < stack.len() ==> super::token_tree::node_wf(#[trigger] stack[k]))
}

/// Closing the top node keeps the stack shape.
proof fn lemma_close_one_shape(stack: Seq<NodeV>)
    requires
        stack.len() >= 2,
        stack_shape(stack),
    ensures
        stack_shape(close_one(stack)),
        close_one(stack).len() == stack.len() - 1,
        close_one(stack).last().level == stack[stack.len() - 2].level,
{
    let ns = close_one(stack);
    let parent = stack[stack.len() - 2];
    let top = stack.last();
    let merged = ns.last();
    assert(merged.children =~= parent.children.push(top));
    assert(super::token_tree::node_wf(parent));
    assert(super::token_tree::node_wf(top));
    assert(top.level > parent.level);
    assert forall|k: int| 0 <= k < merged.children.len() implies (#[trigger] merged.children[
        k]).level > merged.level && super::token_tree::node_wf(merged.children[k]) by {
        if k < parent.children.len() {
            assert(merged.children[k] == parent.children[k]);
        } else {
            assert(merged.children[k] == top);
        }
    }
    assert(super::token_tree::node_wf(merged));
    assert forall|k: int| 0 <= k < ns.len() implies super::token_tree::node_wf(
        #[trigger] ns[k],
    ) by {
        if k < ns.len() - 1 {
            assert(ns[k] == stack[k]);
        }
    }
    assert forall|k: int| 0 <= k < ns.len() - 1 implies #[trigger] ns[k].level < ns[k
        + 1].level by {
        assert(ns[k] == stack[k]);
        if k + 1 < ns.len() - 1 {
            assert(ns[k + 1] == stack[k + 1]);
        } else {
            assert(ns[k + 1].level == parent.level);
        }
    }
}

/// Closing down to a level keeps the stack shape and leaves the top
/// strictly below that level.
proof fn lemma_close_to_shape(stack: Seq<NodeV>, level: int)
    requires
        stack_shape(stack),
        level >= 1,
    ensures
        stack_shape(close_to(stack, level)),
        close_to(stack, level).last().level < level,
    decreases stack.len(),
{
    if stack.len() >= 2 && stack.last().level >= level {
        lemma_close_one_shape(stack);
        lemma_close_to_shape(close_one(stack), level);
    } else {
        if stack.len() == 1 {
            assert(stack.last() == stack[0]);
        }
    }
}

/// One build step keeps the stack shape.
proof fn lemma_step_shape(stack: Seq<NodeV>, t: TokenV)
    requires
        stack_shape(stack),
        wf_token(t),
    ensures
        stack_shape(step(stack, t)),
{
    match t {
        TokenV::Header(h) => {
            lemma_close_to_shape(stack, h.level);
            let closed = close_to(stack, h.level);
            let ns = closed.push(new_node(h));
            assert forall|k: int| 0 <= k < ns.len() implies super::token_tree::node_wf(
                #[trigger] ns[k],
            ) by {
                if k < closed.len() {
                    assert(ns[k] == closed[k]);
                } else {
                    assert(ns[k] == new_node(h));
                    assert(new_node(h).children.len() == 0);
                }
            }
            assert forall|k: int| 0 <= k < ns.len() - 1 implies #[trigger] ns[k].level < ns[k
                + 1].level by {
                assert(ns[k] == closed[k]);
                if k + 1 < closed.len() {
                    assert(ns[k + 1] == closed[k + 1]);
                } else {
                    assert(closed[k] == closed.last() || k < closed.len() - 1);
                    assert(closed.last().level < h.level);
                }
            }
        },
        TokenV::Content(c) => {
            let ns = push_content(stack, c);
            let top = stack.last();
            let merged = ns.last();
            assert(merged.children == top.children);
            assert(merged.level == top.level);
            assert(super::token_tree::node_wf(top));
            assert(super::token_tree::node_wf(merged));
            assert forall|k: int| 0 <= k < ns.len() implies super::token_tree::node_wf(
                #[trigger] ns[k],
            ) by {
                if k < ns.len() - 1 {
                    assert(ns[k] == stack[k]);
                }
            }
            assert forall|k: int| 0 <= k < ns.len() - 1 implies #[trigger] ns[k].level < ns[k
                + 1].level by {
                assert(ns[k] == stack[k]);
                if k + 1 < ns.len() - 1 {
                    assert(ns[k + 1] == stack[k + 1]);
                }
            }
        },
    }
}

/// Folding a stream of well-formed tokens keeps the stack shape.
proof fn lemma_fold_shape(stack: Seq<NodeV>, ts: Seq<TokenV>)
    requires
        stack_shape(stack),
        forall|k: int| 0 <= k < ts.len() ==> wf_token(#[trigger] ts[k]),
    ensures
        stack_shape(fold_tokens(stack, ts)),
    decreases ts.len(),
{
    if ts.len() > 0 {
        lemma_step_shape(stack, ts[0]);
        assert(forall|k: int|
            0 <= k < ts.drop_first().len() ==> wf_token(#[trigger] ts.drop_first()[k]));
        lemma_fold_shape(step(stack, ts[0]), ts.drop_first());
    }
}

/// Closing everything still open keeps the stack shape.
proof fn lemma_close_all_shape(stack: Seq<NodeV>)
    requires
        stack_shape(stack),
    ensures
        stack_shape(close_all(stack)),
        close_all(stack).len() == 1,
        close_all(stack)[0].level == 0,
    decreases stack.len(),
{
    if stack.len() >= 2 {
        lemma_close_one_shape(stack);
        lemma_close_all_shape(close_one(stack));
    }
}

/// The tree of any successfully tokenized document is well formed: its
/// root sits at level 0, and every child of every node sits at a strictly
/// greater header level than its parent. Headers of equal level can
/// therefore only ever be siblings.
pub proof fn lemma_document_tree_well_formed(s: Seq<char>)
    ensures
        match spec_tokenize(s) {
            Ok(ts) => super::token_tree::node_wf(spec_build(ts)) && spec_build(ts).level == 0,
            Err(_) => true,
        },
{
    match spec_tokenize(s) {
        Ok(ts) => {
            super::md_token::lemma_tokenize_wf(
                spec_lines(s),
                0,
                super::md_token::MAX_ITERATIONS as int,
            );
            lemma_build_well_formed(ts);
        },
        Err(_) => {},
    }
}

/// The tree built from well-formed tokens is well formed: its root sits
/// at level 0, and every child of every node sits at a strictly greater
/// header level than its parent.
pub proof fn lemma_build_well_formed(ts: Seq<TokenV>)
    requires
        forall|k: int| 0 <= k < ts.len() ==> wf_token(#[trigger] ts[k]),
    ensures
        super::token_tree::node_wf(spec_build(ts)),
        spec_build(ts).level == 0,
{
    let init = seq![root_node()];
    assert(init[0] == root_node());
    assert(super::token_tree::node_wf(root_node()));
    assert(stack_shape(init));
    lemma_fold_shape(init, ts);
    lemma_close_all_shape(fold_tokens(init, ts));
}

} // verus!

