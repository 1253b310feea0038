//! What holds of every formatted document.

use vstd::prelude::*;

use crate::fmt::formatter;
use crate::fmt::plan;
use crate::fmt::plan::{EditView, Op, Printer};
use crate::fmt::syntax;
use crate::fmt::syntax::{NodeOrToken, SyntaxKind, SyntaxNode, SyntaxToken};

verus! {

/// The tokens that a list of edits writes or replaces, in order.
pub open spec fn written(edits: Seq<EditView>) -> Seq<SyntaxToken>
    decreases edits.len(),
{
    if edits.len() == 0 {
        Seq::empty()
    } else {
        let before = written(edits.drop_last());
        match edits.last() {
            EditView::NoChange(t) => before.push(t),
            EditView::WithNewContent(t, _) => before.push(t),
            EditView::InsertBefore(t, _) => before.push(t),
            EditView::Inconsistency { .. } => before,
        }
    }
}

/// The tokens of a layout, in order, with or without those of the elements that it leaves out.
pub open spec fn laid_out(ops: Seq<Op>, with_left_out: bool) -> Seq<SyntaxToken>
    decreases ops.len(),
{
    if ops.len() == 0 {
        Seq::empty()
    } else {
        let before = laid_out(ops.drop_last(), with_left_out);
        match ops.last() {
            Op::Token(t) => before.push(t),
            Op::Inconsistency { found: Some(e), .. } => if with_left_out {
                before + syntax::tokens(e)
            } else {
                before
            },
            _ => before,
        }
    }
}

/// Whether the formatter leaves out an element that holds a token.
pub open spec fn loses_tokens(doc: SyntaxNode) -> bool {
    exists|i: int|
        0 <= i < plan::node_layout(doc).len() && (#[trigger] plan::node_layout(
            doc,
        )[i] matches Op::Inconsistency { found: Some(e), .. } && syntax::tokens(e).len() > 0)
}

/// The tokens of the children from `from` up to `to`.
spec fn range_tokens(children: Seq<NodeOrToken>, from: int, to: int) -> Seq<SyntaxToken>
    decreases to - from,
{
    if from < to {
        range_tokens(children, from, to - 1) + syntax::tokens(children[to - 1])
    } else {
        Seq::empty()
    }
}

proof fn lemma_range_split(children: Seq<NodeOrToken>, from: int, middle: int, to: int)
    requires
        from <= middle <= to,
    ensures
        range_tokens(children, from, to) == range_tokens(children, from, middle) + range_tokens(
            children,
            middle,
            to,
        ),
    decreases to - middle,
{
    if middle < to {
        lemma_range_split(children, from, middle, to - 1);
    }
    assert(range_tokens(children, from, to) =~= range_tokens(children, from, middle)
        + range_tokens(children, middle, to));
}

proof fn lemma_range_is_list(children: Seq<NodeOrToken>, k: int)
    requires
        0 <= k <= children.len(),
    ensures
        range_tokens(children, 0, k) == syntax::list_tokens(children, k),
    decreases k,
{
    if k > 0 {
        lemma_range_is_list(children, k - 1);
    }
}

proof fn lemma_laid_out_append(a: Seq<Op>, b: Seq<Op>, all: bool)
    ensures
        laid_out(a + b, all) == laid_out(a, all) + laid_out(b, all),
    decreases b.len(),
{
    if b.len() == 0 {
        assert(a + b =~= a);
        assert(laid_out(a, all) + laid_out(b, all) =~= laid_out(a, all));
    } else {
        lemma_laid_out_append(a, b.drop_last(), all);
        assert((a + b).drop_last() =~= a + b.drop_last());
        assert(laid_out(a + b, all) =~= laid_out(a, all) + laid_out(b, all));
    }
}

proof fn lemma_laid_out_one(op: Op, all: bool)
    ensures
        laid_out(seq![op], all) == (match op {
            Op::Token(t) => seq![t],
            Op::Inconsistency { found: Some(e), .. } => if all {
                syntax::tokens(e)
            } else {
                Seq::empty()
            },
            _ => Seq::empty(),
        }),
{
    let ops = seq![op];
    assert(ops.drop_last() =~= Seq::empty());
    assert(laid_out(ops.drop_last(), all) =~= Seq::empty());
    match op {
        Op::Token(t) => {
            assert(laid_out(ops, all) =~= seq![t]);
        },
        Op::Inconsistency { found: Some(e), .. } => {
            if all {
                assert(laid_out(ops, all) =~= syntax::tokens(e));
            }
        },
        _ => {},
    }
}

/// The layouts of children account for the tokens of each child.
spec fn accounted(children: Seq<NodeOrToken>, parts: Seq<Seq<Op>>) -> bool {
    &&& parts.len() == children.len()
    &&& forall|i: int|
        0 <= i < parts.len() ==> laid_out(#[trigger] parts[i], true) == syntax::tokens(children[i])
}

proof fn lemma_join_accounted(
    children: Seq<NodeOrToken>,
    parts: Seq<Seq<Op>>,
    from: int,
    to: int,
)
    requires
        accounted(children, parts),
        0 <= from,
        to <= parts.len(),
    ensures
        laid_out(plan::join(parts, from, to), true) == range_tokens(children, from, to),
    decreases to - from,
{
    if from < to {
        lemma_join_accounted(children, parts, from, to - 1);
        lemma_laid_out_append(plan::join(parts, from, to - 1), parts[to - 1], true);
    }
}

proof fn lemma_to_next_accounted(
    children: Seq<NodeOrToken>,
    parts: Seq<Seq<Op>>,
    from: int,
    expected: SyntaxKind,
    gap: Seq<char>,
)
    requires
        accounted(children, parts),
        0 <= from <= children.len(),
    ensures
        from <= plan::after_next(children, from) <= children.len(),
        laid_out(plan::to_next(children, parts, from, expected, gap), true) == range_tokens(
            children,
            from,
            plan::after_next(children, from),
        ),
{
    plan::lemma_next_solid(children, from);
    let at = plan::next_solid(children, from);
    let first = seq![Op::Gap(gap)];
    let before = first + plan::join(parts, from, at);
    lemma_laid_out_one(Op::Gap(gap), true);
    lemma_laid_out_append(first, plan::join(parts, from, at), true);
    lemma_join_accounted(children, parts, from, at);
    assert(laid_out(before, true) =~= range_tokens(children, from, at));
    if plan::is_next(children, from, expected) {
        lemma_laid_out_append(before, parts[at], true);
    } else {
        let op = Op::Inconsistency {
            expected,
            found: if at < children.len() {
                Some(children[at])
            } else {
                None
            },
        };
        lemma_laid_out_append(before, seq![op], true);
        assert(before.push(op) =~= before + seq![op]);
        lemma_laid_out_one(op, true);
        assert(laid_out(before.push(op), true) =~= range_tokens(
            children,
            from,
            plan::after_next(children, from),
        ));
    }
}

proof fn lemma_head_accounted(
    children: Seq<NodeOrToken>,
    parts: Seq<Seq<Op>>,
    kinds: Seq<(SyntaxKind, Seq<char>)>,
)
    requires
        accounted(children, parts),
    ensures
        0 <= plan::head(children, parts, kinds).rest <= children.len(),
        laid_out(plan::head(children, parts, kinds).ops, true) == range_tokens(
            children,
            0,
            plan::head(children, parts, kinds).rest,
        ),
    decreases kinds.len(),
{
    if kinds.len() > 0 {
        lemma_head_accounted(children, parts, kinds.drop_last());
        let before = plan::head(children, parts, kinds.drop_last());
        let (expected, gap) = kinds.last();
        if before.complete {
            lemma_to_next_accounted(children, parts, before.rest, expected, gap);
            lemma_laid_out_append(
                before.ops,
                plan::to_next(children, parts, before.rest, expected, gap),
                true,
            );
            lemma_range_split(
                children,
                0,
                before.rest,
                plan::after_next(children, before.rest),
            );
        }
    }
}

proof fn lemma_body_accounted(
    children: Seq<NodeOrToken>,
    parts: Seq<Seq<Op>>,
    from: int,
    to: int,
)
    requires
        accounted(children, parts),
        0 <= from,
        to <= parts.len(),
    ensures
        laid_out(plan::element_body(children, parts, from, to), true) == range_tokens(
            children,
            from,
            to,
        ),
    decreases to - from,
{
    if from < to {
        lemma_body_accounted(children, parts, from, to - 1);
        let before = plan::element_body(children, parts, from, to - 1);
        let part = parts[to - 1];
        if children[to - 1].spec_kind() == SyntaxKind::RBrace {
            let open = seq![Op::Dedent, Op::Forget, Op::NewLine];
            let close = seq![Op::NewLine];
            assert(open =~= seq![Op::Dedent] + seq![Op::Forget] + seq![Op::NewLine]);
            lemma_laid_out_one(Op::Dedent, true);
            lemma_laid_out_one(Op::Forget, true);
            lemma_laid_out_one(Op::NewLine, true);
            lemma_laid_out_append(seq![Op::Dedent], seq![Op::Forget], true);
            lemma_laid_out_append(seq![Op::Dedent] + seq![Op::Forget], seq![Op::NewLine], true);
            lemma_laid_out_append(open, part, true);
            lemma_laid_out_append(open + part, close, true);
            lemma_laid_out_append(before, open + part + close, true);
            assert(laid_out(open, true) =~= Seq::empty());
            assert(laid_out(open + part + close, true) =~= laid_out(part, true));
        } else {
            lemma_laid_out_append(before, part, true);
        }
    }
}

proof fn lemma_arrange_accounted(
    kind: SyntaxKind,
    children: Seq<NodeOrToken>,
    parts: Seq<Seq<Op>>,
)
    requires
        accounted(children, parts),
    ensures
        laid_out(plan::arrange(kind, children, parts), true) == range_tokens(
            children,
            0,
            children.len() as int,
        ),
{
    let len = children.len() as int;
    let whole = range_tokens(children, 0, len);
    lemma_laid_out_one(Op::NewLine, true);
    match kind {
        SyntaxKind::Component => {
            lemma_rest_accounted(children, parts, plan::component_head(), Seq::empty());
        },
        SyntaxKind::Binding => {
            lemma_rest_accounted(children, parts, plan::binding_head(), Seq::empty());
        },
        SyntaxKind::PropertyDeclaration => {
            lemma_laid_out_one(Op::Gap(plan::nothing()), true);
            lemma_rest_accounted(
                children,
                parts,
                plan::property_head(),
                seq![Op::Gap(plan::nothing())],
            );
        },
        SyntaxKind::Element => {
            let h = plan::head(children, parts, plan::element_head());
            lemma_head_accounted(children, parts, plan::element_head());
            lemma_range_split(children, 0, h.rest, len);
            if h.complete {
                let indent = seq![Op::Indent, Op::NewLine];
                assert(indent =~= seq![Op::Indent] + seq![Op::NewLine]);
                lemma_laid_out_one(Op::Indent, true);
                lemma_laid_out_append(seq![Op::Indent], seq![Op::NewLine], true);
                lemma_laid_out_append(h.ops, indent, true);
                lemma_body_accounted(children, parts, h.rest, len);
                lemma_laid_out_append(
                    h.ops + indent,
                    plan::element_body(children, parts, h.rest, len),
                    true,
                );
                assert(laid_out(h.ops + indent, true) =~= laid_out(h.ops, true));
            } else {
                lemma_join_accounted(children, parts, h.rest, len);
                lemma_laid_out_append(h.ops, plan::join(parts, h.rest, len), true);
            }
        },
        _ => {
            lemma_join_accounted(children, parts, 0, len);
        },
    }
}

/// A head, operations that write nothing, the other children, and a new line.
proof fn lemma_rest_accounted(
    children: Seq<NodeOrToken>,
    parts: Seq<Seq<Op>>,
    kinds: Seq<(SyntaxKind, Seq<char>)>,
    silent: Seq<Op>,
)
    requires
        accounted(children, parts),
        laid_out(silent, true) =~= Seq::empty(),
    ensures
        ({
            let h = plan::head(children, parts, kinds);
            let rest = plan::join(parts, h.rest, children.len() as int);
            let whole = range_tokens(children, 0, children.len() as int);
            &&& laid_out(h.ops + silent + rest + seq![Op::NewLine], true) == whole
            &&& silent.len() == 0 ==> laid_out(h.ops + rest + seq![Op::NewLine], true) == whole
        }),
{
    let h = plan::head(children, parts, kinds);
    let len = children.len() as int;
    let rest = plan::join(parts, h.rest, len);
    lemma_head_accounted(children, parts, kinds);
    lemma_range_split(children, 0, h.rest, len);
    lemma_join_accounted(children, parts, h.rest, len);
    lemma_laid_out_one(Op::NewLine, true);
    lemma_laid_out_append(h.ops, silent, true);
    lemma_laid_out_append(h.ops + silent, rest, true);
    lemma_laid_out_append(h.ops + silent + rest, seq![Op::NewLine], true);
    assert(laid_out(h.ops + silent + rest + seq![Op::NewLine], true) =~= range_tokens(
        children,
        0,
        len,
    ));
    if silent.len() == 0 {
        assert(h.ops + silent + rest =~= h.ops + rest);
    }
}

proof fn lemma_layout_accounted(e: NodeOrToken)
    ensures
        laid_out(plan::layout(e), true) == syntax::tokens(e),
    decreases e, 0int,
{
    match e {
        NodeOrToken::Node(n) => {
            lemma_node_accounted(n);
        },
        NodeOrToken::Token(t) => {
            lemma_laid_out_one(Op::Token(t), true);
        },
    }
}

proof fn lemma_node_accounted(n: SyntaxNode)
    ensures
        laid_out(plan::node_layout(n), true) == syntax::node_tokens(n),
    decreases n, 0int,
{
    let children = n.children@;
    let parts = plan::layouts(children, children.len() as int);
    plan::lemma_layouts(children, children.len() as int);
    assert forall|i: int| 0 <= i < parts.len() implies laid_out(#[trigger] parts[i], true)
        == syntax::tokens(children[i]) by {
        lemma_layout_accounted(children[i]);
    }
    lemma_arrange_accounted(n.kind, children, parts);
    lemma_range_is_list(children, children.len() as int);
}

proof fn lemma_written_run(p: Printer, ops: Seq<Op>)
    ensures
        written(p.run(ops).edits) == written(p.edits) + laid_out(ops, false),
    decreases ops.len(),
{
    if ops.len() == 0 {
        assert(written(p.edits) + laid_out(ops, false) =~= written(p.edits));
    } else {
        lemma_written_run(p, ops.drop_last());
        let before = p.run(ops.drop_last());
        let after = p.run(ops);
        match ops.last() {
            Op::Token(t) => {
                assert(after.edits.drop_last() =~= before.edits);
                assert(written(after.edits) =~= written(before.edits).push(t));
            },
            Op::Inconsistency { .. } => {
                assert(after.edits.drop_last() =~= before.edits);
            },
            _ => {
                assert(after.edits == before.edits);
            },
        }
        assert(written(after.edits) =~= written(p.edits) + laid_out(ops, false));
    }
}

proof fn lemma_nothing_left_out(ops: Seq<Op>)
    requires
        forall|i: int|
            0 <= i < ops.len() ==> (#[trigger] ops[i] matches Op::Inconsistency {
                found: Some(e),
                ..
            } ==> syntax::tokens(e).len() == 0),
    ensures
        laid_out(ops, true) == laid_out(ops, false),
    decreases ops.len(),
{
    if ops.len() > 0 {
        lemma_nothing_left_out(ops.drop_last());
        assert(ops.last() == ops[ops.len() - 1]);
        match ops.last() {
            Op::Inconsistency { found: Some(e), .. } => {
                assert(laid_out(ops.drop_last(), true) + syntax::tokens(e) =~= laid_out(
                    ops.drop_last(),
                    true,
                ));
            },
            _ => {},
        }
    }
}

/// Formatting writes the tokens of the layout in order, and the layout accounts for every token of
/// the document: each is written once, in its place, or belongs to an element that is left out.
pub proof fn law_tokens_accounted(doc: SyntaxNode)
    ensures
        written(formatter::formatted(doc)) == laid_out(plan::node_layout(doc), false),
        laid_out(plan::node_layout(doc), true) == syntax::node_tokens(doc),
{
    lemma_node_accounted(doc);
    let ops = plan::node_layout(doc);
    lemma_written_run(Printer::start(), ops);
    assert(written(Printer::start().edits) + laid_out(ops, false) =~= laid_out(ops, false));
}

/// Formatting keeps every token of the document, in order, unless an element that holds a token
/// stands where one of another kind has to be.
pub proof fn law_tokens_kept(doc: SyntaxNode)
    requires
        !loses_tokens(doc),
    ensures
        written(formatter::formatted(doc)) == syntax::node_tokens(doc),
{
    law_tokens_accounted(doc);
    lemma_nothing_left_out(plan::node_layout(doc));
}

/// A text of spaces and line breaks.
pub open spec fn blank(text: Seq<char>) -> bool {
    forall|i: int| 0 <= i < text.len() ==> (#[trigger] text[i] == ' ' || text[i] == '\n')
}

/// An edit that changes whitespace alone: a whitespace token is kept or removed, any other token is
/// kept, with or without spaces and line breaks before it.
pub open spec fn changes_whitespace_only(edit: EditView) -> bool {
    match edit {
        EditView::NoChange(_) => true,
        EditView::WithNewContent(t, text) => t.kind == SyntaxKind::Whitespace && text.len() == 0,
        EditView::InsertBefore(t, text) => {
            &&& t.kind != SyntaxKind::Whitespace
            &&& text.len() > 0
            &&& blank(text)
        },
        EditView::Inconsistency { .. } => true,
    }
}

spec fn gaps_blank(ops: Seq<Op>) -> bool {
    forall|i: int| 0 <= i < ops.len() ==> (#[trigger] ops[i] matches Op::Gap(text) ==> blank(text))
}

spec fn all_gaps_blank(parts: Seq<Seq<Op>>) -> bool {
    forall|i: int| 0 <= i < parts.len() ==> gaps_blank(#[trigger] parts[i])
}

proof fn lemma_gaps_append(a: Seq<Op>, b: Seq<Op>)
    requires
        gaps_blank(a),
        gaps_blank(b),
    ensures
        gaps_blank(a + b),
{
    let ab = a + b;
    assert forall|i: int| 0 <= i < ab.len() implies (#[trigger] ab[i] matches Op::Gap(text)
        ==> blank(text)) by {
        if i < a.len() {
            assert(ab[i] == a[i]);
        } else {
            assert(ab[i] == b[i - a.len()]);
        }
    }
}

proof fn lemma_gaps_join(parts: Seq<Seq<Op>>, from: int, to: int)
    requires
        all_gaps_blank(parts),
        0 <= from,
        to <= parts.len(),
    ensures
        gaps_blank(plan::join(parts, from, to)),
    decreases to - from,
{
    if from < to {
        lemma_gaps_join(parts, from, to - 1);
        lemma_gaps_append(plan::join(parts, from, to - 1), parts[to - 1]);
    }
}

proof fn lemma_gaps_body(children: Seq<NodeOrToken>, parts: Seq<Seq<Op>>, from: int, to: int)
    requires
        all_gaps_blank(parts),
        0 <= from,
        to <= parts.len(),
    ensures
        gaps_blank(plan::element_body(children, parts, from, to)),
    decreases to - from,
{
    if from < to {
        lemma_gaps_body(children, parts, from, to - 1);
        let before = plan::element_body(children, parts, from, to - 1);
        let part = parts[to - 1];
        let open = seq![Op::Dedent, Op::Forget, Op::NewLine];
        let close = seq![Op::NewLine];
        lemma_gaps_append(open, part);
        lemma_gaps_append(open + part, close);
        lemma_gaps_append(before, open + part + close);
        lemma_gaps_append(before, part);
    }
}

proof fn lemma_gaps_head(
    children: Seq<NodeOrToken>,
    parts: Seq<Seq<Op>>,
    kinds: Seq<(SyntaxKind, Seq<char>)>,
)
    requires
        all_gaps_blank(parts),
        parts.len() == children.len(),
        forall|i: int| 0 <= i < kinds.len() ==> blank((#[trigger] kinds[i]).1),
    ensures
        gaps_blank(plan::head(children, parts, kinds).ops),
        0 <= plan::head(children, parts, kinds).rest <= children.len(),
    decreases kinds.len(),
{
    if kinds.len() > 0 {
        lemma_gaps_head(children, parts, kinds.drop_last());
        let before = plan::head(children, parts, kinds.drop_last());
        let (expected, gap) = kinds.last();
        assert(blank(kinds[kinds.len() - 1].1));
        if before.complete {
            plan::lemma_next_solid(children, before.rest);
            let at = plan::next_solid(children, before.rest);
            let first = seq![Op::Gap(gap)];
            lemma_gaps_join(parts, before.rest, at);
            lemma_gaps_append(first, plan::join(parts, before.rest, at));
            let ops = first + plan::join(parts, before.rest, at);
            if plan::is_next(children, before.rest, expected) {
                lemma_gaps_append(ops, parts[at]);
            }
            lemma_gaps_append(
                before.ops,
                plan::to_next(children, parts, before.rest, expected, gap),
            );
        }
    }
}

proof fn lemma_gaps_arrange(kind: SyntaxKind, children: Seq<NodeOrToken>, parts: Seq<Seq<Op>>)
    requires
        all_gaps_blank(parts),
        parts.len() == children.len(),
    ensures
        gaps_blank(plan::arrange(kind, children, parts)),
{
    let len = children.len() as int;
    lemma_gaps_head(children, parts, plan::component_head());
    lemma_gaps_head(children, parts, plan::element_head());
    lemma_gaps_head(children, parts, plan::property_head());
    lemma_gaps_head(children, parts, plan::binding_head());
    let end = seq![Op::NewLine];
    match kind {
        SyntaxKind::Component => {
            let h = plan::head(children, parts, plan::component_head());
            lemma_gaps_join(parts, h.rest, len);
            lemma_gaps_append(h.ops, plan::join(parts, h.rest, len));
            lemma_gaps_append(h.ops + plan::join(parts, h.rest, len), end);
        },
        SyntaxKind::Binding => {
            let h = plan::head(children, parts, plan::binding_head());
            lemma_gaps_join(parts, h.rest, len);
            lemma_gaps_append(h.ops, plan::join(parts, h.rest, len));
            lemma_gaps_append(h.ops + plan::join(parts, h.rest, len), end);
        },
        SyntaxKind::PropertyDeclaration => {
            let h = plan::head(children, parts, plan::property_head());
            let tight = seq![Op::Gap(plan::nothing())];
            lemma_gaps_join(parts, h.rest, len);
            lemma_gaps_append(h.ops, tight);
            lemma_gaps_append(h.ops + tight, plan::join(parts, h.rest, len));
            lemma_gaps_append(h.ops + tight + plan::join(parts, h.rest, len), end);
        },
        SyntaxKind::Element => {
            let h = plan::head(children, parts, plan::element_head());
            let indent = seq![Op::Indent, Op::NewLine];
            lemma_gaps_join(parts, h.rest, len);
            lemma_gaps_append(h.ops, plan::join(parts, h.rest, len));
            lemma_gaps_append(h.ops, indent);
            lemma_gaps_body(children, parts, h.rest, len);
            lemma_gaps_append(h.ops + indent, plan::element_body(children, parts, h.rest, len));
        },
        _ => {
            lemma_gaps_join(parts, 0, len);
        },
    }
}

proof fn lemma_gaps_layout(e: NodeOrToken)
    ensures
        gaps_blank(plan::layout(e)),
    decreases e, 0int,
{
    match e {
        NodeOrToken::Node(n) => {
            lemma_gaps_node(n);
        },
        NodeOrToken::Token(t) => {},
    }
}

proof fn lemma_gaps_node(n: SyntaxNode)
    ensures
        gaps_blank(plan::node_layout(n)),
    decreases n, 0int,
{
    let children = n.children@;
    let parts = plan::layouts(children, children.len() as int);
    plan::lemma_layouts(children, children.len() as int);
    assert forall|i: int| 0 <= i < parts.len() implies gaps_blank(#[trigger] parts[i]) by {
        lemma_gaps_layout(children[i]);
    }
    lemma_gaps_arrange(n.kind, children, parts);
}

spec fn clean(p: Printer) -> bool {
    &&& p.pending matches Some(text) ==> text.len() > 0 && blank(text)
    &&& forall|i: int| 0 <= i < p.edits.len() ==> changes_whitespace_only(#[trigger] p.edits[i])
}

proof fn lemma_run_clean(p: Printer, ops: Seq<Op>)
    requires
        clean(p),
        gaps_blank(ops),
    ensures
        clean(p.run(ops)),
    decreases ops.len(),
{
    if ops.len() > 0 {
        assert(gaps_blank(ops.drop_last()));
        lemma_run_clean(p, ops.drop_last());
        assert(ops.last() == ops[ops.len() - 1]);
    }
}

/// Formatting changes nothing but whitespace.
pub proof fn law_only_whitespace_changes(doc: SyntaxNode)
    ensures
        forall|i: int|
            0 <= i < formatter::formatted(doc).len() ==> changes_whitespace_only(
                #[trigger] formatter::formatted(doc)[i],
            ),
{
    lemma_gaps_node(doc);
    lemma_run_clean(Printer::start(), plan::node_layout(doc));
}

/// The closing brace of an element goes to a line of its own, one level less deep than what
/// stands between the braces, and the next token begins another line.
pub proof fn law_closing_brace(p: Printer, brace: SyntaxToken)
    requires
        brace.kind == SyntaxKind::RBrace,
    ensures
        ({
            let after = p.run(
                seq![Op::Dedent, Op::Forget, Op::NewLine, Op::Token(brace), Op::NewLine],
            );
            &&& after.edits == p.edits.push(
                EditView::InsertBefore(brace, plan::line_start(p.level - 1)),
            )
            &&& after.pending == Some(plan::line_start(p.level - 1))
            &&& after.skip
        }),
{
    reveal_with_fuel(Printer::run, 6);
    let ops = seq![Op::Dedent, Op::Forget, Op::NewLine, Op::Token(brace), Op::NewLine];
    assert(ops.drop_last() =~= seq![Op::Dedent, Op::Forget, Op::NewLine, Op::Token(brace)]);
    assert(ops.drop_last().drop_last() =~= seq![Op::Dedent, Op::Forget, Op::NewLine]);
    plan::lemma_run_three(p, Op::Dedent, Op::Forget, Op::NewLine);
}

/// How many of the children from `from` up to `to` are closing braces.
pub open spec fn closing_braces(children: Seq<NodeOrToken>, from: int, to: int) -> int
    decreases to - from,
{
    if from < to {
        closing_braces(children, from, to - 1) + (
        if children[to - 1].spec_kind() == SyntaxKind::RBrace {
            1int
        } else {
            0int
        })
    } else {
        0
    }
}

/// Whether each element in the tree that has its opening brace has one closing brace behind it.
pub open spec fn closed_once(n: SyntaxNode) -> bool
    decreases n, 0int,
{
    let children = n.children@;
    let len = children.len() as int;
    let h = plan::head(children, plan::layouts(children, len), plan::element_head());
    &&& all_closed_once(children, len)
    &&& n.kind == SyntaxKind::Element && h.complete ==> closing_braces(children, h.rest, len) == 1
}

/// Whether [`closed_once`] holds of the nodes among the first `k` children.
pub open spec fn all_closed_once(children: Seq<NodeOrToken>, k: int) -> bool
    decreases children, k,
{
    if 0 < k <= children.len() {
        &&& all_closed_once(children, k - 1)
        &&& match children[k - 1] {
            NodeOrToken::Node(n) => closed_once(n),
            NodeOrToken::Token(_) => true,
        }
    } else {
        true
    }
}

/// The number of nodes from this one down to the deepest one below it.
pub open spec fn height(n: SyntaxNode) -> int
    decreases n, 0int,
{
    1 + list_height(n.children@, n.children@.len() as int)
}

/// The greatest height of the nodes among the first `k` children.
pub open spec fn list_height(children: Seq<NodeOrToken>, k: int) -> int
    decreases children, k,
{
    if 0 < k <= children.len() {
        let before = list_height(children, k - 1);
        let last = match children[k - 1] {
            NodeOrToken::Node(n) => height(n),
            NodeOrToken::Token(_) => 0,
        };
        if last > before {
            last
        } else {
            before
        }
    } else {
        0
    }
}

/// The level changes by at least `low` and at most `high` on the way, and by `net` in all.
spec fn ranged(ops: Seq<Op>, low: int, high: int, net: int) -> bool {
    &&& forall|k: int| 0 <= k <= ops.len() ==> low <= #[trigger] plan::steps(ops, k) <= high
    &&& plan::steps(ops, ops.len() as int) == net
}

proof fn lemma_ranged_append(a: Seq<Op>, b: Seq<Op>, low: int, high: int, m: int, n: int)
    requires
        ranged(a, low, high, m),
        ranged(b, low - m, high - m, n),
    ensures
        ranged(a + b, low, high, m + n),
{
    let ab = a + b;
    assert forall|k: int| 0 <= k <= ab.len() implies low <= #[trigger] plan::steps(ab, k)
        <= high by {
        if k <= a.len() {
            plan::lemma_steps_prefix(a, b, k);
            assert(low <= plan::steps(a, k) <= high);
        } else {
            plan::lemma_steps_suffix(a, b, k - a.len());
            assert(low - m <= plan::steps(b, k - a.len()) <= high - m);
        }
    }
    plan::lemma_steps_suffix(a, b, b.len() as int);
}

proof fn lemma_ranged_one(op: Op)
    ensures
        ({
            let step = plan::steps(seq![op], 1);
            &&& step == match op {
                Op::Indent => 1int,
                Op::Dedent => -1int,
                _ => 0int,
            }
            &&& forall|low: int, high: int|
                low <= 0 <= high && low <= step <= high ==> #[trigger] ranged(
                    seq![op],
                    low,
                    high,
                    step,
                )
        }),
{
    assert(plan::steps(seq![op], 0) == 0);
    assert(plan::steps(seq![op], 1) == (match op {
        Op::Indent => 1int,
        Op::Dedent => -1int,
        _ => 0int,
    }));
}

spec fn all_ranged(parts: Seq<Seq<Op>>, high: int) -> bool {
    forall|i: int| 0 <= i < parts.len() ==> ranged(#[trigger] parts[i], 0, high, 0)
}

proof fn lemma_ranged_join(parts: Seq<Seq<Op>>, from: int, to: int, high: int)
    requires
        all_ranged(parts, high),
        0 <= from,
        to <= parts.len(),
        0 <= high,
    ensures
        ranged(plan::join(parts, from, to), 0, high, 0),
    decreases to - from,
{
    if from < to {
        lemma_ranged_join(parts, from, to - 1, high);
        lemma_ranged_append(plan::join(parts, from, to - 1), parts[to - 1], 0, high, 0, 0);
    }
}

proof fn lemma_ranged_head(
    children: Seq<NodeOrToken>,
    parts: Seq<Seq<Op>>,
    kinds: Seq<(SyntaxKind, Seq<char>)>,
    high: int,
)
    requires
        all_ranged(parts, high),
        parts.len() == children.len(),
        0 <= high,
    ensures
        ranged(plan::head(children, parts, kinds).ops, 0, high, 0),
        0 <= plan::head(children, parts, kinds).rest <= children.len(),
    decreases kinds.len(),
{
    if kinds.len() > 0 {
        lemma_ranged_head(children, parts, kinds.drop_last(), high);
        let before = plan::head(children, parts, kinds.drop_last());
        let (expected, gap) = kinds.last();
        if before.complete {
            plan::lemma_next_solid(children, before.rest);
            let at = plan::next_solid(children, before.rest);
            let first = seq![Op::Gap(gap)];
            let blanks = plan::join(parts, before.rest, at);
            lemma_ranged_one(Op::Gap(gap));
            lemma_ranged_join(parts, before.rest, at, high);
            lemma_ranged_append(first, blanks, 0, high, 0, 0);
            if plan::is_next(children, before.rest, expected) {
                lemma_ranged_append(first + blanks, parts[at], 0, high, 0, 0);
            } else {
                let op = Op::Inconsistency {
                    expected,
                    found: if at < children.len() {
                        Some(children[at])
                    } else {
                        None
                    },
                };
                lemma_ranged_one(op);
                lemma_ranged_append(first + blanks, seq![op], 0, high, 0, 0);
                assert((first + blanks).push(op) =~= first + blanks + seq![op]);
            }
            lemma_ranged_append(
                before.ops,
                plan::to_next(children, parts, before.rest, expected, gap),
                0,
                high,
                0,
                0,
            );
        }
    }
}

proof fn lemma_closing_braces(children: Seq<NodeOrToken>, from: int, middle: int, to: int)
    requires
        from <= middle <= to,
    ensures
        0 <= closing_braces(children, from, middle) <= closing_braces(children, from, to),
    decreases to - from,
{
    if from < to {
        if middle < to {
            lemma_closing_braces(children, from, middle, to - 1);
        } else {
            lemma_closing_braces(children, from, middle - 1, to - 1);
        }
    }
}

proof fn lemma_ranged_body(
    children: Seq<NodeOrToken>,
    parts: Seq<Seq<Op>>,
    from: int,
    to: int,
    high: int,
)
    requires
        all_ranged(parts, high),
        0 <= from,
        to <= parts.len(),
        0 <= high,
        closing_braces(children, from, to) <= 1,
    ensures
        ranged(
            plan::element_body(children, parts, from, to),
            -closing_braces(children, from, to),
            high,
            -closing_braces(children, from, to),
        ),
    decreases to - from,
{
    if from < to {
        let count = closing_braces(children, from, to);
        let seen = closing_braces(children, from, to - 1);
        lemma_closing_braces(children, from, to - 1, to);
        lemma_ranged_body(children, parts, from, to - 1, high);
        let before = plan::element_body(children, parts, from, to - 1);
        let part = parts[to - 1];
        if children[to - 1].spec_kind() == SyntaxKind::RBrace {
            let open = seq![Op::Dedent, Op::Forget, Op::NewLine];
            lemma_ranged_one(Op::Dedent);
            lemma_ranged_one(Op::Forget);
            lemma_ranged_one(Op::NewLine);
            assert(open =~= seq![Op::Dedent] + seq![Op::Forget] + seq![Op::NewLine]);
            lemma_ranged_append(seq![Op::Dedent], seq![Op::Forget], -1, high, -1, 0);
            lemma_ranged_append(
                seq![Op::Dedent] + seq![Op::Forget],
                seq![Op::NewLine],
                -1,
                high,
                -1,
                0,
            );
            assert(ranged(part, 0, high + 1, 0));
            lemma_ranged_append(open, part, -1, high, -1, 0);
            lemma_ranged_append(open + part, seq![Op::NewLine], -1, high, -1, 0);
            assert(seen == 0);
            assert(ranged(before, -1, high, 0));
            lemma_ranged_append(before, open + part + seq![Op::NewLine], -1, high, 0, -1);
        } else {
            assert(ranged(part, 0, high + count, 0));
            lemma_ranged_append(before, part, -count, high, -count, 0);
        }
    } else {
        assert(plan::steps(plan::element_body(children, parts, from, to), 0) == 0);
    }
}

/// A part of the arrangements: a head, the other children and single operations that keep the
/// level.
proof fn lemma_ranged_rest(
    children: Seq<NodeOrToken>,
    parts: Seq<Seq<Op>>,
    kinds: Seq<(SyntaxKind, Seq<char>)>,
    high: int,
)
    requires
        all_ranged(parts, high),
        parts.len() == children.len(),
        0 <= high,
    ensures
        ({
            let h = plan::head(children, parts, kinds);
            let rest = plan::join(parts, h.rest, children.len() as int);
            let tight = seq![Op::Gap(plan::nothing())];
            &&& ranged(h.ops + rest, 0, high, 0)
            &&& ranged(h.ops + rest + seq![Op::NewLine], 0, high, 0)
            &&& ranged(h.ops + tight + rest + seq![Op::NewLine], 0, high, 0)
        }),
{
    let h = plan::head(children, parts, kinds);
    let len = children.len() as int;
    let rest = plan::join(parts, h.rest, len);
    let tight = seq![Op::Gap(plan::nothing())];
    lemma_ranged_head(children, parts, kinds, high);
    lemma_ranged_join(parts, h.rest, len, high);
    lemma_ranged_one(Op::NewLine);
    lemma_ranged_one(Op::Gap(plan::nothing()));
    lemma_ranged_append(h.ops, rest, 0, high, 0, 0);
    lemma_ranged_append(h.ops + rest, seq![Op::NewLine], 0, high, 0, 0);
    lemma_ranged_append(h.ops, tight, 0, high, 0, 0);
    lemma_ranged_append(h.ops + tight, rest, 0, high, 0, 0);
    lemma_ranged_append(h.ops + tight + rest, seq![Op::NewLine], 0, high, 0, 0);
}

proof fn lemma_list_height(children: Seq<NodeOrToken>, k: int)
    ensures
        0 <= list_height(children, k),
    decreases k,
{
    if 0 < k <= children.len() {
        lemma_list_height(children, k - 1);
    }
}

proof fn lemma_children_ranged(children: Seq<NodeOrToken>, k: int, i: int)
    requires
        0 <= i < k <= children.len(),
        all_closed_once(children, k),
    ensures
        ranged(plan::layout(children[i]), 0, list_height(children, k), 0),
    decreases children, k,
{
    lemma_list_height(children, k - 1);
    if i < k - 1 {
        lemma_children_ranged(children, k - 1, i);
        assert(ranged(plan::layout(children[i]), 0, list_height(children, k - 1), 0));
    } else {
        match children[k - 1] {
            NodeOrToken::Node(n) => {
                lemma_node_ranged(n);
                assert(ranged(plan::node_layout(n), 0, height(n), 0));
            },
            NodeOrToken::Token(t) => {
                lemma_ranged_one(Op::Token(t));
            },
        }
    }
}

proof fn lemma_node_ranged(n: SyntaxNode)
    requires
        closed_once(n),
    ensures
        ranged(plan::node_layout(n), 0, height(n), 0),
    decreases n, 0int,
{
    let children = n.children@;
    let len = children.len() as int;
    let parts = plan::layouts(children, len);
    let below = list_height(children, len);
    lemma_list_height(children, len);
    plan::lemma_layouts(children, len);
    assert forall|i: int| 0 <= i < parts.len() implies ranged(#[trigger] parts[i], 0, below, 0) by {
        lemma_children_ranged(children, len, i);
    }
    let h = plan::head(children, parts, plan::element_head());
    if n.kind == SyntaxKind::Element && h.complete {
        let indent = seq![Op::Indent, Op::NewLine];
        lemma_ranged_head(children, parts, plan::element_head(), below);
        lemma_ranged_one(Op::Indent);
        lemma_ranged_one(Op::NewLine);
        assert(indent =~= seq![Op::Indent] + seq![Op::NewLine]);
        lemma_ranged_append(seq![Op::Indent], seq![Op::NewLine], 0, below + 1, 1, 0);
        assert(ranged(h.ops, 0, below + 1, 0));
        lemma_ranged_append(h.ops, indent, 0, below + 1, 0, 1);
        lemma_ranged_body(children, parts, h.rest, len, below);
        lemma_ranged_append(
            h.ops + indent,
            plan::element_body(children, parts, h.rest, len),
            0,
            below + 1,
            1,
            -1,
        );
    } else {
        lemma_ranged_rest(children, parts, plan::component_head(), below);
        lemma_ranged_rest(children, parts, plan::element_head(), below);
        lemma_ranged_rest(children, parts, plan::property_head(), below);
        lemma_ranged_rest(children, parts, plan::binding_head(), below);
        lemma_ranged_join(parts, 0, len, below);
        assert(ranged(plan::node_layout(n), 0, below, 0));
    }
}

/// A document in which each opened element is closed once can be formatted, and the formatter is
/// back at the outermost level at its end.
pub proof fn law_closed_documents_fit(doc: SyntaxNode)
    requires
        closed_once(doc),
        height(doc) <= u32::MAX,
    ensures
        formatter::indentation_fits(doc),
        Printer::start().run(plan::node_layout(doc)).level == 0,
{
    lemma_node_ranged(doc);
    plan::lemma_level(Printer::start(), plan::node_layout(doc));
}

/// The operations that write the given tokens.
pub open spec fn writes(tokens: Seq<SyntaxToken>) -> Seq<Op> {
    tokens.map_values(|t: SyntaxToken| Op::Token(t))
}

/// The edits that remove the given tokens.
pub open spec fn removals(tokens: Seq<SyntaxToken>) -> Seq<EditView> {
    tokens.map_values(|t: SyntaxToken| EditView::WithNewContent(t, Seq::empty()))
}

proof fn lemma_blanks_removed(p: Printer, blanks: Seq<SyntaxToken>)
    requires
        p.skip,
        forall|i: int| 0 <= i < blanks.len() ==> (#[trigger] blanks[i]).kind == SyntaxKind::Whitespace,
    ensures
        p.run(writes(blanks)) == (Printer { edits: p.edits + removals(blanks), ..p }),
    decreases blanks.len(),
{
    if blanks.len() == 0 {
        assert(p.edits + removals(blanks) =~= p.edits);
    } else {
        let before = blanks.drop_last();
        lemma_blanks_removed(p, before);
        assert(writes(blanks).drop_last() =~= writes(before));
        assert(writes(blanks).last() == Op::Token(blanks.last()));
        assert(blanks[blanks.len() - 1].kind == SyntaxKind::Whitespace);
        assert(p.edits + removals(blanks) =~= (p.edits + removals(before)).push(
            EditView::WithNewContent(blanks.last(), Seq::empty()),
        ));
    }
}

/// Where a gap or a new line is asked for, the whitespace that stands before the next token is
/// removed, all of it, and exactly what was asked for is put there.
pub proof fn law_whitespace_replaced(
    p: Printer,
    op: Op,
    blanks: Seq<SyntaxToken>,
    next: SyntaxToken,
)
    requires
        op is Gap || op is NewLine,
        forall|i: int| 0 <= i < blanks.len() ==> (#[trigger] blanks[i]).kind == SyntaxKind::Whitespace,
        next.kind != SyntaxKind::Whitespace,
    ensures
        ({
            let asked = p.apply(op);
            let after = asked.run(writes(blanks)).apply(Op::Token(next));
            &&& after.edits == p.edits + removals(blanks) + seq![
                match asked.pending {
                    Some(text) => EditView::InsertBefore(next, text),
                    None => EditView::NoChange(next),
                },
            ]
            &&& after.pending is None
            &&& !after.skip
        }),
{
    let asked = p.apply(op);
    lemma_blanks_removed(asked, blanks);
    let edit = match asked.pending {
        Some(text) => EditView::InsertBefore(next, text),
        None => EditView::NoChange(next),
    };
    assert((p.edits + removals(blanks)).push(edit) =~= p.edits + removals(blanks) + seq![edit]);
}

} // verus!
