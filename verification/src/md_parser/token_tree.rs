//! The document tree: headers nest by level, other tokens attach as
//! content to the nearest open header node.

use super::md_token::{contents_views, ContentV, MdContent};
use vstd::prelude::*;

verus! {

/// One node of the document tree. The root carries no title and level 0;
/// every real header node has the level of its header line, and its
/// children all have strictly greater levels.
#[derive(Debug)]
pub struct TokenTree {
    pub title: Option<String>,
    pub content: Vec<MdContent>,
    pub children: Vec<Box<TokenTree>>,
    pub level: usize,
}

/// Model of a document tree node.
pub struct NodeV {
    pub title: Option<Seq<char>>,
    pub content: Seq<ContentV>,
    pub children: Seq<NodeV>,
    pub level: int,
}

impl TokenTree {
    /// The model of this node.
    pub open spec fn view(&self) -> NodeV
        decreases self,
    {
        NodeV {
            title: match &self.title {
                Some(t) => Some(t@),
                None => None,
            },
            content: contents_views(self.content@),
            children: Self::children_views(self.children@),
            level: self.level as int,
        }
    }

    /// The models of a sequence of nodes.
    pub open spec fn children_views(s: Seq<Box<TokenTree>>) -> Seq<NodeV>
        decreases s,
    {
        if s.len() == 0 {
            Seq::empty()
        } else {
            seq![s[0].view()] + Self::children_views(s.subrange(1, s.len() as int))
        }
    }
}

/// `children_views` maps the view over the sequence, member by member.
pub proof fn lemma_children_views(s: Seq<Box<TokenTree>>)
    ensures
        TokenTree::children_views(s).len() == s.len(),
        forall|i: int|
            0 <= i < s.len() ==> #[trigger] TokenTree::children_views(s)[i] == s[i].view(),
    decreases s,
{
    if s.len() > 0 {
        lemma_children_views(s.subrange(1, s.len() as int));
    }
}

/// Views distribute over pushing one node at the end.
pub proof fn lemma_children_views_push(s: Seq<Box<TokenTree>>, t: Box<TokenTree>)
    ensures
        TokenTree::children_views(s.push(t)) == TokenTree::children_views(s).push(t.view()),
{
    lemma_children_views(s.push(t));
    lemma_children_views(s);
    assert(TokenTree::children_views(s.push(t)) =~= TokenTree::children_views(s).push(t.view()));
}


/// A well-formed document tree node: every child sits at a strictly
/// greater header level than its parent, recursively.
pub open spec fn node_wf(n: NodeV) -> bool
    decreases n,
{
    forall|k: int|
        0 <= k < n.children.len() ==> (#[trigger] n.children[k]).level > n.level && node_wf(
            n.children[k],
        )
}

} // verus!
