//! The syntax tree that the formatter works on.

use vstd::prelude::*;

verus! {

/// What a node or a token stands for. The formatter tells apart the kinds that have a variant of
/// their own; every other kind of the grammar is `Other` with its number.
#[derive(Clone, Copy, Debug, PartialEq, Eq, Structural)]
pub enum SyntaxKind {
    Whitespace,
    Comment,
    Component,
    Element,
    PropertyDeclaration,
    Binding,
    BindingExpression,
    DeclaredIdentifier,
    QualifiedName,
    Type,
    Identifier,
    LBrace,
    RBrace,
    LAngle,
    RAngle,
    Colon,
    ColonEqual,
    Other(u16),
}

/// A leaf of the tree. `id` names the token for the owner of the text.
#[derive(Clone, Copy, Debug, PartialEq, Eq, Structural)]
pub struct SyntaxToken {
    pub kind: SyntaxKind,
    pub id: usize,
}

/// An inner node of the tree. `id` names the node for the owner of the text.
#[derive(Debug)]
pub struct SyntaxNode {
    pub kind: SyntaxKind,
    pub id: usize,
    pub children: Vec<NodeOrToken>,
}

/// A child of a node.
#[derive(Debug)]
pub enum NodeOrToken {
    Node(SyntaxNode),
    Token(SyntaxToken),
}

impl NodeOrToken {
    pub open spec fn spec_kind(&self) -> SyntaxKind {
        match self {
            NodeOrToken::Node(n) => n.kind,
            NodeOrToken::Token(t) => t.kind,
        }
    }

    pub open spec fn spec_id(&self) -> usize {
        match self {
            NodeOrToken::Node(n) => n.id,
            NodeOrToken::Token(t) => t.id,
        }
    }

    /// The kind of the node or of the token.
    pub fn kind(&self) -> (kind: SyntaxKind)
        ensures
            kind == self.spec_kind(),
    {
        match self {
            NodeOrToken::Node(n) => n.kind,
            NodeOrToken::Token(t) => t.kind,
        }
    }

    /// The name of the node or of the token.
    pub fn id(&self) -> (id: usize)
        ensures
            id == self.spec_id(),
    {
        match self {
            NodeOrToken::Node(n) => n.id,
            NodeOrToken::Token(t) => t.id,
        }
    }
}

/// The tokens below a node, from left to right.
pub open spec fn node_tokens(n: SyntaxNode) -> Seq<SyntaxToken>
    decreases n, 0int,
{
    list_tokens(n.children@, n.children@.len() as int)
}

/// The tokens of a node or of a token, from left to right.
pub open spec fn tokens(e: NodeOrToken) -> Seq<SyntaxToken>
    decreases e, 0int,
{
    match e {
        NodeOrToken::Node(n) => node_tokens(n),
        NodeOrToken::Token(t) => seq![t],
    }
}

/// The tokens of the first `k` elements of a list of children, from left to right.
pub open spec fn list_tokens(children: Seq<NodeOrToken>, k: int) -> Seq<SyntaxToken>
    decreases children, k,
{
    if 0 < k <= children.len() {
        list_tokens(children, k - 1) + tokens(children[k - 1])
    } else {
        Seq::empty()
    }
}

/// A node or a token is of its own kind and has its own name.
pub proof fn law_kind_and_id(n: SyntaxNode, t: SyntaxToken)
    ensures
        NodeOrToken::Node(n).spec_kind() == n.kind,
        NodeOrToken::Token(t).spec_kind() == t.kind,
        NodeOrToken::Node(n).spec_id() == n.id,
        NodeOrToken::Token(t).spec_id() == t.id,
{
}

/// A token stands for itself, and a node for the tokens of its children, one child after the other:
/// with one more child at the end, a node has the tokens of that child in addition, at the end.
pub proof fn law_tokens_of_children(
    n: SyntaxNode,
    longer: SyntaxNode,
    e: NodeOrToken,
    t: SyntaxToken,
)
    requires
        longer.children@ == n.children@.push(e),
    ensures
        tokens(NodeOrToken::Token(t)) == seq![t],
        tokens(NodeOrToken::Node(n)) == node_tokens(n),
        node_tokens(longer) == node_tokens(n) + tokens(e),
        n.children@.len() == 0 ==> node_tokens(n) == Seq::<SyntaxToken>::empty(),
{
    lemma_list_prefix(n.children@, e, n.children@.len() as int);
}

proof fn lemma_list_prefix(children: Seq<NodeOrToken>, e: NodeOrToken, k: int)
    requires
        0 <= k <= children.len(),
    ensures
        list_tokens(children.push(e), k) == list_tokens(children, k),
    decreases k,
{
    if k > 0 {
        lemma_list_prefix(children, e, k - 1);
        assert(children.push(e)[k - 1] == children[k - 1]);
    }
}

} // verus!
