//! What becomes of whitespace and of nodes in the middle of a document.

use vstd::prelude::*;

use crate::fmt::effects;
use crate::fmt::formatter;
use crate::fmt::laws;
use crate::fmt::plan;
use crate::fmt::plan::{EditView, Op, Printer};
use crate::fmt::syntax;
use crate::fmt::syntax::{NodeOrToken, SyntaxKind, SyntaxNode, SyntaxToken};

verus! {

/// The node at the end of a path that names a child for each step down.
pub open spec fn node_at(n: SyntaxNode, path: Seq<int>) -> Option<SyntaxNode>
    decreases path.len(),
{
    if path.len() == 0 {
        Some(n)
    } else if 0 <= path[0] < n.children@.len() {
        match n.children@[path[0]] {
            NodeOrToken::Node(child) => node_at(child, path.skip(1)),
            NodeOrToken::Token(_) => None,
        }
    } else {
        None
    }
}

/// Whether `part` stands in `ops`, all in one piece.
spec fn has_part(ops: Seq<Op>, part: Seq<Op>) -> bool {
    exists|k: int| #[trigger] part_at(ops, part, k)
}

spec fn part_at(ops: Seq<Op>, part: Seq<Op>, k: int) -> bool {
    0 <= k <= ops.len() - part.len() && ops.subrange(k, k + part.len()) == part
}

/// Whether a layout leaves an element out.
spec fn leaves_out(ops: Seq<Op>, e: NodeOrToken) -> bool {
    exists|k: int| #[trigger] left_out_at(ops, e, k)
}

spec fn left_out_at(ops: Seq<Op>, e: NodeOrToken, k: int) -> bool {
    0 <= k < ops.len() && (ops[k] matches Op::Inconsistency { found: Some(f), .. } && f == e)
}

spec fn kept_or_left_out(ops: Seq<Op>, part: Seq<Op>, e: NodeOrToken) -> bool {
    has_part(ops, part) || leaves_out(ops, e)
}

proof fn lemma_whole(part: Seq<Op>)
    ensures
        has_part(part, part),
{
    assert(part.subrange(0, part.len() as int) =~= part);
    assert(part_at(part, part, 0));
}

proof fn lemma_within(a: Seq<Op>, ops: Seq<Op>, b: Seq<Op>, part: Seq<Op>, e: NodeOrToken)
    requires
        kept_or_left_out(ops, part, e),
    ensures
        kept_or_left_out(a + ops + b, part, e),
{
    let all = a + ops + b;
    if has_part(ops, part) {
        let k = choose|k: int| #[trigger] part_at(ops, part, k);
        assert(all.subrange(a.len() + k, a.len() + k + part.len()) =~= ops.subrange(
            k,
            k + part.len(),
        ));
        assert(part_at(all, part, a.len() + k));
    } else {
        let k = choose|k: int| #[trigger] left_out_at(ops, e, k);
        assert(all[a.len() + k] == ops[k]);
        assert(left_out_at(all, e, a.len() + k));
    }
}

proof fn lemma_in_join(parts: Seq<Seq<Op>>, from: int, to: int, j: int, e: NodeOrToken)
    requires
        from <= j < to,
    ensures
        kept_or_left_out(plan::join(parts, from, to), parts[j], e),
    decreases to - from,
{
    let part = parts[j];
    plan::lemma_join_split(parts, from, j + 1, to);
    lemma_whole(part);
    lemma_within(plan::join(parts, from, j), part, plan::join(parts, j + 1, to), part, e);
    assert(plan::join(parts, from, to) =~= plan::join(parts, from, j) + part + plan::join(
        parts,
        j + 1,
        to,
    ));
}

proof fn lemma_in_body(
    children: Seq<NodeOrToken>,
    parts: Seq<Seq<Op>>,
    from: int,
    to: int,
    j: int,
    e: NodeOrToken,
)
    requires
        from <= j < to,
    ensures
        kept_or_left_out(plan::element_body(children, parts, from, to), parts[j], e),
    decreases to - from,
{
    let before = plan::element_body(children, parts, from, to - 1);
    let none = Seq::<Op>::empty();
    let all = plan::element_body(children, parts, from, to);
    if j == to - 1 {
        lemma_whole(parts[j]);
        if children[j].spec_kind() == SyntaxKind::RBrace {
            let open = seq![Op::Dedent, Op::Forget, Op::NewLine];
            lemma_within(before + open, parts[j], seq![Op::NewLine], parts[j], e);
            assert(all =~= before + open + parts[j] + seq![Op::NewLine]);
        } else {
            lemma_within(before, parts[j], none, parts[j], e);
            assert(all =~= before + parts[j] + none);
        }
    } else {
        lemma_in_body(children, parts, from, to - 1, j, e);
        let rest = all.skip(before.len() as int);
        lemma_within(none, before, rest, parts[j], e);
        assert(all =~= none + before + rest);
    }
}

proof fn lemma_in_next(
    children: Seq<NodeOrToken>,
    parts: Seq<Seq<Op>>,
    from: int,
    expected: SyntaxKind,
    gap: Seq<char>,
    j: int,
)
    requires
        0 <= from <= j < plan::after_next(children, from),
        from <= children.len(),
    ensures
        j < children.len(),
        kept_or_left_out(
            plan::to_next(children, parts, from, expected, gap),
            parts[j],
            children[j],
        ),
{
    let at = plan::next_solid(children, from);
    plan::lemma_next_solid(children, from);
    let first = seq![Op::Gap(gap)];
    let none = Seq::<Op>::empty();
    let all = plan::to_next(children, parts, from, expected, gap);
    let blanks = plan::join(parts, from, at);
    if j < at {
        lemma_in_join(parts, from, at, j, children[j]);
        let rest = all.skip((first + blanks).len() as int);
        lemma_within(first, blanks, rest, parts[j], children[j]);
        assert(all =~= first + blanks + rest);
    } else if plan::is_next(children, from, expected) {
        lemma_whole(parts[j]);
        lemma_within(first + blanks, parts[j], none, parts[j], children[j]);
        assert(all =~= first + blanks + parts[j] + none);
    } else {
        assert(left_out_at(all, children[j], all.len() - 1));
    }
}

proof fn lemma_in_head(
    children: Seq<NodeOrToken>,
    parts: Seq<Seq<Op>>,
    kinds: Seq<(SyntaxKind, Seq<char>)>,
    j: int,
)
    ensures
        0 <= plan::head(children, parts, kinds).rest <= children.len(),
        0 <= j < plan::head(children, parts, kinds).rest ==> kept_or_left_out(
            plan::head(children, parts, kinds).ops,
            parts[j],
            children[j],
        ),
    decreases kinds.len(),
{
    if kinds.len() > 0 {
        let before = plan::head(children, parts, kinds.drop_last());
        let all = plan::head(children, parts, kinds);
        let (expected, gap) = kinds.last();
        let none = Seq::<Op>::empty();
        lemma_in_head(children, parts, kinds.drop_last(), j);
        if before.complete {
            let next = plan::to_next(children, parts, before.rest, expected, gap);
            plan::lemma_next_solid(children, before.rest);
            if 0 <= j < before.rest {
                lemma_within(none, before.ops, next, parts[j], children[j]);
                assert(all.ops =~= none + before.ops + next);
            } else if before.rest <= j < all.rest {
                lemma_in_next(children, parts, before.rest, expected, gap, j);
                lemma_within(before.ops, next, none, parts[j], children[j]);
                assert(all.ops =~= before.ops + next + none);
            }
        }
    }
}

proof fn lemma_in_rest(
    children: Seq<NodeOrToken>,
    parts: Seq<Seq<Op>>,
    kinds: Seq<(SyntaxKind, Seq<char>)>,
    middle: Seq<Op>,
    rest: Seq<Op>,
    end: Seq<Op>,
    j: int,
)
    requires
        0 <= j < children.len(),
        j >= plan::head(children, parts, kinds).rest ==> kept_or_left_out(
            rest,
            parts[j],
            children[j],
        ),
    ensures
        kept_or_left_out(
            plan::head(children, parts, kinds).ops + middle + rest + end,
            parts[j],
            children[j],
        ),
{
    let h = plan::head(children, parts, kinds);
    let none = Seq::<Op>::empty();
    let all = h.ops + middle + rest + end;
    lemma_in_head(children, parts, kinds, j);
    if j < h.rest {
        lemma_within(none, h.ops, middle + rest + end, parts[j], children[j]);
        assert(all =~= none + h.ops + (middle + rest + end));
    } else {
        lemma_within(h.ops + middle, rest, end, parts[j], children[j]);
    }
}

/// Each child of a node is laid out in one piece, or left out.
proof fn lemma_in_arrange(
    kind: SyntaxKind,
    children: Seq<NodeOrToken>,
    parts: Seq<Seq<Op>>,
    j: int,
)
    requires
        0 <= j < children.len(),
    ensures
        kept_or_left_out(plan::arrange(kind, children, parts), parts[j], children[j]),
{
    let len = children.len() as int;
    let all = plan::arrange(kind, children, parts);
    let none = Seq::<Op>::empty();
    let line = seq![Op::NewLine];
    match kind {
        SyntaxKind::Component => {
            let kinds = plan::component_head();
            let h = plan::head(children, parts, kinds);
            let rest = plan::join(parts, h.rest, len);
            if j >= h.rest {
                lemma_in_join(parts, h.rest, len, j, children[j]);
            }
            lemma_in_rest(children, parts, kinds, none, rest, line, j);
            assert(all =~= h.ops + none + rest + line);
        },
        SyntaxKind::Element => {
            let kinds = plan::element_head();
            let h = plan::head(children, parts, kinds);
            if h.complete {
                let rest = plan::element_body(children, parts, h.rest, len);
                let deeper = seq![Op::Indent, Op::NewLine];
                if j >= h.rest {
                    lemma_in_body(children, parts, h.rest, len, j, children[j]);
                }
                lemma_in_rest(children, parts, kinds, deeper, rest, none, j);
                assert(all =~= h.ops + deeper + rest + none);
            } else {
                let rest = plan::join(parts, h.rest, len);
                if j >= h.rest {
                    lemma_in_join(parts, h.rest, len, j, children[j]);
                }
                lemma_in_rest(children, parts, kinds, none, rest, none, j);
                assert(all =~= h.ops + none + rest + none);
            }
        },
        SyntaxKind::PropertyDeclaration => {
            let kinds = plan::property_head();
            let h = plan::head(children, parts, kinds);
            let rest = plan::join(parts, h.rest, len);
            let gap = seq![Op::Gap(plan::nothing())];
            if j >= h.rest {
                lemma_in_join(parts, h.rest, len, j, children[j]);
            }
            lemma_in_rest(children, parts, kinds, gap, rest, line, j);
        },
        SyntaxKind::Binding => {
            let kinds = plan::binding_head();
            let h = plan::head(children, parts, kinds);
            let rest = plan::join(parts, h.rest, len);
            if j >= h.rest {
                lemma_in_join(parts, h.rest, len, j, children[j]);
            }
            lemma_in_rest(children, parts, kinds, none, rest, line, j);
            assert(all =~= h.ops + none + rest + line);
        },
        _ => {
            lemma_in_join(parts, 0, len, j, children[j]);
        },
    }
}

proof fn lemma_child_tokens(children: Seq<NodeOrToken>, k: int, j: int)
    requires
        0 <= j < k <= children.len(),
    ensures
        syntax::list_tokens(children, k).len() >= syntax::tokens(children[j]).len(),
    decreases k,
{
    if j < k - 1 {
        lemma_child_tokens(children, k - 1, j);
    }
}

proof fn lemma_deep_tokens(n: SyntaxNode, path: Seq<int>)
    requires
        node_at(n, path) is Some,
    ensures
        syntax::node_tokens(n).len() >= syntax::node_tokens(node_at(n, path)->0).len(),
    decreases path.len(),
{
    if path.len() > 0 {
        let child = n.children@[path[0]]->Node_0;
        lemma_deep_tokens(child, path.skip(1));
        lemma_child_tokens(n.children@, n.children@.len() as int, path[0]);
    }
}

proof fn lemma_part_of_part(all: Seq<Op>, whole: Seq<Op>, part: Seq<Op>)
    requires
        has_part(all, whole),
        has_part(whole, part),
    ensures
        has_part(all, part),
{
    let k = choose|k: int| #[trigger] part_at(all, whole, k);
    let l = choose|l: int| #[trigger] part_at(whole, part, l);
    assert(all.subrange(k + l, k + l + part.len()) =~= whole.subrange(l, l + part.len()));
    assert(part_at(all, part, k + l));
}

/// Whether an operation leaves out an element that holds a token.
spec fn loses(op: Op) -> bool {
    op matches Op::Inconsistency { found: Some(e), .. } && syntax::tokens(e).len() > 0
}

/// A node somewhere in a document that loses no token is laid out in one piece.
proof fn lemma_node_in_one_piece(n: SyntaxNode, path: Seq<int>)
    requires
        node_at(n, path) is Some,
        syntax::node_tokens(node_at(n, path)->0).len() > 0,
        forall|i: int|
            0 <= i < plan::node_layout(n).len() ==> !loses(#[trigger] plan::node_layout(n)[i]),
    ensures
        has_part(plan::node_layout(n), plan::node_layout(node_at(n, path)->0)),
    decreases path.len(),
{
    if path.len() == 0 {
        lemma_whole(plan::node_layout(n));
    } else {
        let j = path[0];
        let children = n.children@;
        let child = children[j]->Node_0;
        let parts = plan::layouts(children, children.len() as int);
        let all = plan::node_layout(n);
        plan::lemma_layouts(children, children.len() as int);
        lemma_in_arrange(n.kind, children, parts, j);
        lemma_deep_tokens(child, path.skip(1));
        if !has_part(all, parts[j]) {
            let k = choose|k: int| #[trigger] left_out_at(all, children[j], k);
            assert(loses(all[k]));
        }
        let k = choose|k: int| #[trigger] part_at(all, parts[j], k);
        let inner = plan::node_layout(child);
        assert(parts[j] == inner);
        assert forall|i: int| 0 <= i < inner.len() implies !loses(#[trigger] inner[i]) by {
            assert(inner[i] == all.subrange(k, k + inner.len())[i]);
            assert(inner[i] == all[k + i]);
        }
        lemma_node_in_one_piece(child, path.skip(1));
        lemma_part_of_part(all, inner, plan::node_layout(node_at(n, path)->0));
    }
}

proof fn lemma_edits_grow(p: Printer, ops: Seq<Op>)
    ensures
        p.edits.len() <= p.run(ops).edits.len(),
        p.run(ops).edits.take(p.edits.len() as int) == p.edits,
    decreases ops.len(),
{
    if ops.len() == 0 {
        assert(p.edits.take(p.edits.len() as int) =~= p.edits);
    } else {
        lemma_edits_grow(p, ops.drop_last());
        let n = p.edits.len() as int;
        let before = p.run(ops.drop_last()).edits;
        let after = p.run(ops).edits;
        assert(after.take(n) =~= before.take(n));
    }
}

/// Wherever a node stands in a document that loses no token, the document is formatted up to there,
/// then the node from the state that was reached, and then the rest behind it: what holds of a node
/// for every printer holds of it in every document.
pub proof fn law_everywhere(doc: SyntaxNode, path: Seq<int>) -> (p: Printer)
    requires
        !laws::loses_tokens(doc),
        node_at(doc, path) is Some,
        syntax::node_tokens(node_at(doc, path)->0).len() > 0,
    ensures
        p.run(plan::node_layout(node_at(doc, path)->0)).edits.is_prefix_of(
            formatter::formatted(doc),
        ),
{
    let all = plan::node_layout(doc);
    let part = plan::node_layout(node_at(doc, path)->0);
    assert forall|i: int| 0 <= i < all.len() implies !loses(#[trigger] all[i]) by {
        assert(!(all[i] matches Op::Inconsistency { found: Some(e), .. } && syntax::tokens(e).len()
            > 0));
    }
    lemma_node_in_one_piece(doc, path);
    let k = choose|k: int| #[trigger] part_at(all, part, k);
    let before = all.take(k);
    let after = all.skip(k + part.len());
    assert(all =~= before + part + after);
    let p = Printer::start().run(before);
    plan::lemma_run_append(Printer::start(), before, part);
    plan::lemma_run_append(Printer::start(), before + part, after);
    lemma_edits_grow(p.run(part), after);
    let done = p.run(part).edits;
    assert(done =~= formatter::formatted(doc).take(done.len() as int));
    p
}

proof fn lemma_pair(p: Printer, n: SyntaxNode, i: int) -> (k: int)
    requires
        n.kind != SyntaxKind::Component,
        n.kind != SyntaxKind::Element,
        n.kind != SyntaxKind::PropertyDeclaration,
        n.kind != SyntaxKind::Binding,
        0 <= i,
        i + 1 < n.children@.len(),
        n.children@[i] is Token,
        n.children@[i].spec_kind() != SyntaxKind::Whitespace,
        n.children@[i + 1] is Token,
        n.children@[i + 1].spec_kind() == SyntaxKind::Whitespace,
    ensures
        ({
            let edits = p.run(plan::node_layout(n)).edits;
            let t = n.children@[i]->Token_0;
            &&& 0 <= k
            &&& k + 1 < edits.len()
            &&& edits[k] == EditView::NoChange(t) || (edits[k] matches EditView::InsertBefore(u, _)
                && u == t)
            &&& edits[k + 1] == EditView::NoChange(n.children@[i + 1]->Token_0)
        }),
{
    let ch = n.children@;
    let len = ch.len() as int;
    let parts = plan::layouts(ch, len);
    let (t, w) = (ch[i]->Token_0, ch[i + 1]->Token_0);
    plan::lemma_layouts(ch, len);
    plan::lemma_join_split(parts, 0, i + 2, len);
    let before = plan::join(parts, 0, i);
    let q = p.run(before);
    plan::lemma_run_append(p, before, parts[i]);
    plan::lemma_run_append(p, before + parts[i], parts[i + 1]);
    effects::law_token(q, t);
    let r = q.run(parts[i]);
    effects::law_token(r, w);
    let done = r.run(parts[i + 1]);
    assert(plan::join(parts, 0, i + 1) =~= before + parts[i]);
    assert(plan::join(parts, 0, i + 2) =~= before + parts[i] + parts[i + 1]);
    let rest = plan::join(parts, i + 2, len);
    plan::lemma_run_append(p, plan::join(parts, 0, i + 2), rest);
    lemma_edits_grow(done, rest);
    let k = q.edits.len() as int;
    let edits = p.run(plan::node_layout(n)).edits;
    assert(edits.take(done.edits.len() as int) == done.edits);
    assert(edits[k] == done.edits[k]);
    assert(edits[k + 1] == done.edits[k + 1]);
    k
}

/// In a node that the formatter has no layout for, whitespace that directly follows a token stays:
/// wherever the node stands in a document and however deep it is indented, the token is written, with
/// or without something before it, and the whitespace behind it is written as it is.
pub proof fn law_whitespace_stays(doc: SyntaxNode, path: Seq<int>, i: int) -> (k: int)
    requires
        !laws::loses_tokens(doc),
        node_at(doc, path) is Some,
        ({
            let n = node_at(doc, path)->0;
            &&& n.kind != SyntaxKind::Component
            &&& n.kind != SyntaxKind::Element
            &&& n.kind != SyntaxKind::PropertyDeclaration
            &&& n.kind != SyntaxKind::Binding
            &&& 0 <= i
            &&& i + 1 < n.children@.len()
            &&& n.children@[i] is Token
            &&& n.children@[i].spec_kind() != SyntaxKind::Whitespace
            &&& n.children@[i + 1] is Token
            &&& n.children@[i + 1].spec_kind() == SyntaxKind::Whitespace
        }),
    ensures
        ({
            let edits = formatter::formatted(doc);
            let n = node_at(doc, path)->0;
            let t = n.children@[i]->Token_0;
            &&& 0 <= k
            &&& k + 1 < edits.len()
            &&& edits[k] == EditView::NoChange(t) || (edits[k] matches EditView::InsertBefore(u, _)
                && u == t)
            &&& edits[k + 1] == EditView::NoChange(n.children@[i + 1]->Token_0)
        }),
{
    let n = node_at(doc, path)->0;
    lemma_child_tokens(n.children@, n.children@.len() as int, i);
    let p = law_everywhere(doc, path);
    let k = lemma_pair(p, n, i);
    let edits = p.run(plan::node_layout(n)).edits;
    let all = formatter::formatted(doc);
    assert(edits =~= all.take(edits.len() as int));
    assert(all[k] == edits[k] && all[k + 1] == edits[k + 1]);
    k
}

} // verus!
