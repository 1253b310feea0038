//! What formatting does to each kind of node, wherever it stands, and to what stands in a document.
//!
//! A [`Printer`] holds what has been decided before a node: whether whitespace is dropped up to the
//! next token, what goes before it, how deep the line is indented, and the edits so far. The laws
//! hold for every printer, so whatever stands before the node.

use vstd::prelude::*;

use crate::fmt::formatter;
use crate::fmt::formatter::{FormatState, TokenEdit};
use crate::fmt::plan;
use crate::fmt::plan::{EditView, Op, Printer};
use crate::fmt::syntax::{NodeOrToken, SyntaxKind, SyntaxNode, SyntaxToken};

verus! {

/// The printer after some elements, one after the other.
pub open spec fn through(p: Printer, elements: Seq<NodeOrToken>) -> Printer
    decreases elements.len(),
{
    if elements.len() == 0 {
        p
    } else {
        through(p, elements.drop_last()).run(plan::layout(elements.last()))
    }
}

/// A line break and the given number of spaces, or none where it is negative.
pub open spec fn line(spaces: int) -> Seq<char> {
    seq!['\n'] + Seq::new(
        if spaces >= 0 {
            spaces as nat
        } else {
            0
        },
        |i: int| ' ',
    )
}

/// Whether an element is whitespace or a comment.
pub open spec fn is_blank(e: NodeOrToken) -> bool {
    e.spec_kind() == SyntaxKind::Whitespace || e.spec_kind() == SyntaxKind::Comment
}

/// Whether nothing but whitespace and comments stands from `from` up to `to`.
pub open spec fn blank_between(children: Seq<NodeOrToken>, from: int, to: int) -> bool {
    forall|i: int| from <= i < to ==> is_blank(#[trigger] children[i])
}

proof fn lemma_join_through(p: Printer, children: Seq<NodeOrToken>, from: int, to: int)
    requires
        0 <= from <= to <= children.len(),
    ensures
        p.run(plan::join(plan::layouts(children, children.len() as int), from, to)) == through(
            p,
            children.subrange(from, to),
        ),
    decreases to - from,
{
    let parts = plan::layouts(children, children.len() as int);
    plan::lemma_layouts(children, children.len() as int);
    if from < to {
        lemma_join_through(p, children, from, to - 1);
        let part = children.subrange(from, to);
        assert(part.drop_last() =~= children.subrange(from, to - 1));
        plan::lemma_run_append(p, plan::join(parts, from, to - 1), parts[to - 1]);
    }
}

proof fn lemma_solid_at(children: Seq<NodeOrToken>, from: int, at: int)
    requires
        0 <= from <= at <= children.len(),
        blank_between(children, from, at),
        at < children.len() ==> !is_blank(children[at]),
    ensures
        plan::next_solid(children, from) == at,
    decreases at - from,
{
    if from < at {
        assert(is_blank(children[from]));
        lemma_solid_at(children, from + 1, at);
    }
}

/// A whitespace token is dropped where whitespace is being dropped, and left as it is otherwise; any
/// other token is left as it is, with what was to go before it in front, and ends both. Nothing else
/// changes, at whatever level.
pub proof fn law_token(p: Printer, t: SyntaxToken)
    ensures
        ({
            let after = p.run(plan::layout(NodeOrToken::Token(t)));
            let white = t.kind == SyntaxKind::Whitespace;
            &&& after.level == p.level
            &&& white && p.skip ==> after.edits == p.edits.push(
                EditView::WithNewContent(t, Seq::empty()),
            )
            &&& white && !p.skip ==> after.edits == p.edits.push(EditView::NoChange(t))
            &&& white ==> after.skip == p.skip && after.pending == p.pending
            &&& !white && p.pending is None ==> after.edits == p.edits.push(EditView::NoChange(t))
            &&& !white && p.pending is Some ==> after.edits == p.edits.push(
                EditView::InsertBefore(t, p.pending->0),
            )
            &&& !white ==> !after.skip && after.pending is None
        }),
{
    plan::lemma_run_one(p, Op::Token(t));
}

/// A node that the formatter has no layout for is written child by child, with nothing asked for in
/// between.
pub proof fn law_plain_node(p: Printer, n: SyntaxNode)
    requires
        n.kind != SyntaxKind::Component,
        n.kind != SyntaxKind::Element,
        n.kind != SyntaxKind::PropertyDeclaration,
        n.kind != SyntaxKind::Binding,
    ensures
        p.run(plan::node_layout(n)) == through(p, n.children@),
{
    lemma_join_through(p, n.children@, 0, n.children@.len() as int);
    assert(n.children@.subrange(0, n.children@.len() as int) =~= n.children@);
}

/// Elements one after the other: what comes first is done first, and nothing is done for nothing.
pub proof fn law_one_after_the_other(p: Printer, a: Seq<NodeOrToken>, e: NodeOrToken)
    ensures
        through(p, Seq::empty()) == p,
        through(p, a.push(e)) == through(p, a).run(plan::layout(e)),
{
    assert(a.push(e).drop_last() =~= a);
}

proof fn lemma_to_next_found(
    p: Printer,
    children: Seq<NodeOrToken>,
    from: int,
    at: int,
    expected: SyntaxKind,
    gap: Seq<char>,
)
    requires
        0 <= from <= at < children.len(),
        blank_between(children, from, at),
        children[at].spec_kind() == expected,
        !is_blank(children[at]),
    ensures
        ({
            let parts = plan::layouts(children, children.len() as int);
            &&& p.run(plan::to_next(children, parts, from, expected, gap)) == through(
                p.gap(gap),
                children.subrange(from, at + 1),
            )
            &&& plan::is_next(children, from, expected)
            &&& plan::after_next(children, from) == at + 1
        }),
{
    let parts = plan::layouts(children, children.len() as int);
    lemma_solid_at(children, from, at);
    plan::lemma_run_one(p, Op::Gap(gap));
    let first = seq![Op::Gap(gap)];
    assert(plan::to_next(children, parts, from, expected, gap) =~= first + plan::join(
        parts,
        from,
        at + 1,
    ));
    plan::lemma_run_append(p, first, plan::join(parts, from, at + 1));
    lemma_join_through(p.gap(gap), children, from, at + 1);
}

/// What is looked for and found stands where it stood, with the comments before it, and the text that
/// was asked for goes before the first of them in place of whitespace, behind what was to go there
/// already. An element of another kind in its place is left out and reported, and so is its absence.
pub proof fn law_looking_for_a_kind(
    p: Printer,
    children: Seq<NodeOrToken>,
    from: int,
    at: int,
    expected: SyntaxKind,
    gap: Seq<char>,
)
    requires
        0 <= from <= at <= children.len(),
        blank_between(children, from, at),
        at < children.len() ==> !is_blank(children[at]),
    ensures
        ({
            let parts = plan::layouts(children, children.len() as int);
            let after = p.run(plan::to_next(children, parts, from, expected, gap));
            let asked = Printer {
                skip: true,
                pending: if gap.len() == 0 {
                    p.pending
                } else if p.pending is Some {
                    Some(p.pending->0 + gap)
                } else {
                    Some(gap)
                },
                level: p.level,
                edits: p.edits,
            };
            let blanks = through(asked, children.subrange(from, at));
            &&& at < children.len() && children[at].spec_kind() == expected ==> after == blanks.run(
                plan::layout(children[at]),
            )
            &&& at < children.len() && children[at].spec_kind() != expected ==> after == (Printer {
                edits: blanks.edits.push(
                    EditView::Inconsistency { expected, found: Some(children[at].spec_id()) },
                ),
                ..blanks
            })
            &&& at == children.len() ==> after == (Printer {
                edits: blanks.edits.push(EditView::Inconsistency { expected, found: None }),
                ..blanks
            })
        }),
{
    let parts = plan::layouts(children, children.len() as int);
    lemma_solid_at(children, from, at);
    plan::lemma_run_one(p, Op::Gap(gap));
    let first = seq![Op::Gap(gap)];
    let before = first + plan::join(parts, from, at);
    plan::lemma_run_append(p, first, plan::join(parts, from, at));
    lemma_join_through(p.gap(gap), children, from, at);
    if at < children.len() && children[at].spec_kind() == expected {
        plan::lemma_layouts(children, children.len() as int);
        plan::lemma_run_append(p, before, parts[at]);
    } else {
        let op = Op::Inconsistency {
            expected,
            found: if at < children.len() {
                Some(children[at])
            } else {
                None
            },
        };
        plan::lemma_run_append(p, before, seq![op]);
        plan::lemma_run_one(p.run(before), op);
        assert(before + seq![op] =~= before.push(op));
    }
}

/// `name: expression`. The whitespace before the name, before the colon and before the expression is
/// dropped, one space goes before the expression, the rest is written as it comes, and the next token
/// begins a line.
pub proof fn law_binding(p: Printer, n: SyntaxNode, name: int, colon: int, expression: int)
    requires
        n.kind == SyntaxKind::Binding,
        0 <= name < colon < expression < n.children@.len(),
        n.children@[name].spec_kind() == SyntaxKind::Identifier,
        n.children@[colon].spec_kind() == SyntaxKind::Colon,
        n.children@[expression].spec_kind() == SyntaxKind::BindingExpression,
        blank_between(n.children@, 0, name),
        blank_between(n.children@, name + 1, colon),
        blank_between(n.children@, colon + 1, expression),
    ensures
        ({
            let ch = n.children@;
            let a = through(Printer { skip: true, ..p }, ch.subrange(0, name + 1));
            let b = through(Printer { skip: true, ..a }, ch.subrange(name + 1, colon + 1));
            let c = through(
                Printer {
                    skip: true,
                    pending: Some(
                        if b.pending is Some {
                            b.pending->0 + seq![' ']
                        } else {
                            seq![' ']
                        },
                    ),
                    ..b
                },
                ch.subrange(colon + 1, expression + 1),
            );
            let d = through(c, ch.subrange(expression + 1, ch.len() as int));
            p.run(plan::node_layout(n)) == Printer {
                skip: true,
                pending: Some(
                    if d.pending is Some {
                        seq!['\n'] + d.pending->0
                    } else {
                        line(4 * d.level)
                    },
                ),
                ..d
            }
        }),
{
    let ch = n.children@;
    let len = ch.len() as int;
    let parts = plan::layouts(ch, len);
    let kinds = plan::binding_head();
    let a = p.run(plan::to_next(ch, parts, 0, SyntaxKind::Identifier, plan::nothing()));
    lemma_to_next_found(p, ch, 0, name, SyntaxKind::Identifier, plan::nothing());
    let b = a.run(plan::to_next(ch, parts, name + 1, SyntaxKind::Colon, plan::nothing()));
    lemma_to_next_found(a, ch, name + 1, colon, SyntaxKind::Colon, plan::nothing());
    let c = b.run(
        plan::to_next(ch, parts, colon + 1, SyntaxKind::BindingExpression, plan::space()),
    );
    lemma_to_next_found(
        b,
        ch,
        colon + 1,
        expression,
        SyntaxKind::BindingExpression,
        plan::space(),
    );
    lemma_head_step(p, ch, kinds, 0);
    lemma_head_step(p, ch, kinds, 1);
    lemma_head_step(p, ch, kinds, 2);
    assert(kinds.take(3) =~= kinds);
    lemma_tail(p, n, kinds, c, expression + 1);
}

/// Reading one more kind of a head, where all before it were in their place.
proof fn lemma_head_step(
    p: Printer,
    children: Seq<NodeOrToken>,
    kinds: Seq<(SyntaxKind, Seq<char>)>,
    k: int,
)
    requires
        0 <= k < kinds.len(),
        plan::head(
            children,
            plan::layouts(children, children.len() as int),
            kinds.take(k),
        ).complete,
    ensures
        ({
            let parts = plan::layouts(children, children.len() as int);
            let before = plan::head(children, parts, kinds.take(k));
            let after = plan::head(children, parts, kinds.take(k + 1));
            &&& k == 0 ==> before.rest == 0 && p.run(before.ops) == p
            &&& p.run(after.ops) == p.run(before.ops).run(
                plan::to_next(children, parts, before.rest, kinds[k].0, kinds[k].1),
            )
            &&& after.rest == plan::after_next(children, before.rest)
            &&& after.complete == plan::is_next(children, before.rest, kinds[k].0)
        }),
{
    let parts = plan::layouts(children, children.len() as int);
    let before = plan::head(children, parts, kinds.take(k));
    assert(kinds.take(k + 1).drop_last() =~= kinds.take(k));
    assert(kinds.take(k + 1).last() == kinds[k]);
    plan::lemma_run_append(
        p,
        before.ops,
        plan::to_next(children, parts, before.rest, kinds[k].0, kinds[k].1),
    );
}

/// The end of a node whose head has been read: the rest, and a new line.
proof fn lemma_tail(
    p: Printer,
    n: SyntaxNode,
    kinds: Seq<(SyntaxKind, Seq<char>)>,
    read: Printer,
    from: int,
)
    requires
        0 <= from <= n.children@.len(),
        ({
            let h = plan::head(
                n.children@,
                plan::layouts(n.children@, n.children@.len() as int),
                kinds,
            );
            h.rest == from && p.run(h.ops) == read
        }),
    ensures
        ({
            let len = n.children@.len() as int;
            let parts = plan::layouts(n.children@, len);
            let h = plan::head(n.children@, parts, kinds);
            let rest = through(read, n.children@.subrange(from, len));
            let tight = through(Printer { skip: true, ..read }, n.children@.subrange(from, len));
            &&& p.run(h.ops + plan::join(parts, h.rest, len) + seq![Op::NewLine]) == rest.new_line()
            &&& p.run(
                h.ops + seq![Op::Gap(plan::nothing())] + plan::join(parts, h.rest, len) + seq![
                    Op::NewLine,
                ],
            ) == tight.new_line()
            &&& rest.new_line() == (Printer {
                skip: true,
                pending: Some(
                    if rest.pending is Some {
                        seq!['\n'] + rest.pending->0
                    } else {
                        line(4 * rest.level)
                    },
                ),
                ..rest
            })
            &&& tight.new_line() == (Printer {
                skip: true,
                pending: Some(
                    if tight.pending is Some {
                        seq!['\n'] + tight.pending->0
                    } else {
                        line(4 * tight.level)
                    },
                ),
                ..tight
            })
        }),
{
    let len = n.children@.len() as int;
    let parts = plan::layouts(n.children@, len);
    let h = plan::head(n.children@, parts, kinds);
    let join = plan::join(parts, h.rest, len);
    let rest = through(read, n.children@.subrange(from, len));
    let tight = through(Printer { skip: true, ..read }, n.children@.subrange(from, len));
    lemma_join_through(read, n.children@, from, len);
    plan::lemma_run_append(p, h.ops, join);
    plan::lemma_run_append(p, h.ops + join, seq![Op::NewLine]);
    plan::lemma_run_one(rest, Op::NewLine);
    let gap = seq![Op::Gap(plan::nothing())];
    plan::lemma_run_append(p, h.ops, gap);
    plan::lemma_run_one(read, Op::Gap(plan::nothing()));
    lemma_join_through(Printer { skip: true, ..read }, n.children@, from, len);
    plan::lemma_run_append(p, h.ops + gap, join);
    plan::lemma_run_append(p, h.ops + gap + join, seq![Op::NewLine]);
    plan::lemma_run_one(tight, Op::NewLine);
    lemma_line(rest.level);
    lemma_line(tight.level);
}

proof fn lemma_line(level: int)
    ensures
        plan::line_start(level) == line(4 * level),
{
    assert(plan::line_start(level) =~= line(4 * level));
}

/// `Name := Element`. The whitespace before the name, before the sign and before the element is
/// dropped, one space goes before the sign and one before the element, the rest is written as it comes,
/// and the next token begins a line.
pub proof fn law_component(p: Printer, n: SyntaxNode, name: int, sign: int, element: int)
    requires
        n.kind == SyntaxKind::Component,
        0 <= name < sign < element < n.children@.len(),
        n.children@[name].spec_kind() == SyntaxKind::DeclaredIdentifier,
        n.children@[sign].spec_kind() == SyntaxKind::ColonEqual,
        n.children@[element].spec_kind() == SyntaxKind::Element,
        blank_between(n.children@, 0, name),
        blank_between(n.children@, name + 1, sign),
        blank_between(n.children@, sign + 1, element),
    ensures
        ({
            let ch = n.children@;
            let a = through(Printer { skip: true, ..p }, ch.subrange(0, name + 1));
            let b = through(
                Printer {
                    skip: true,
                    pending: Some(
                        if a.pending is Some {
                            a.pending->0 + seq![' ']
                        } else {
                            seq![' ']
                        },
                    ),
                    ..a
                },
                ch.subrange(name + 1, sign + 1),
            );
            let c = through(
                Printer {
                    skip: true,
                    pending: Some(
                        if b.pending is Some {
                            b.pending->0 + seq![' ']
                        } else {
                            seq![' ']
                        },
                    ),
                    ..b
                },
                ch.subrange(sign + 1, element + 1),
            );
            let d = through(c, ch.subrange(element + 1, ch.len() as int));
            p.run(plan::node_layout(n)) == Printer {
                skip: true,
                pending: Some(
                    if d.pending is Some {
                        seq!['\n'] + d.pending->0
                    } else {
                        line(4 * d.level)
                    },
                ),
                ..d
            }
        }),
{
    let ch = n.children@;
    let len = ch.len() as int;
    let parts = plan::layouts(ch, len);
    let kinds = plan::component_head();
    let a = p.run(plan::to_next(ch, parts, 0, SyntaxKind::DeclaredIdentifier, plan::nothing()));
    lemma_to_next_found(p, ch, 0, name, SyntaxKind::DeclaredIdentifier, plan::nothing());
    let b = a.run(plan::to_next(ch, parts, name + 1, SyntaxKind::ColonEqual, plan::space()));
    lemma_to_next_found(a, ch, name + 1, sign, SyntaxKind::ColonEqual, plan::space());
    let c = b.run(plan::to_next(ch, parts, sign + 1, SyntaxKind::Element, plan::space()));
    lemma_to_next_found(b, ch, sign + 1, element, SyntaxKind::Element, plan::space());
    lemma_head_step(p, ch, kinds, 0);
    lemma_head_step(p, ch, kinds, 1);
    lemma_head_step(p, ch, kinds, 2);
    assert(kinds.take(3) =~= kinds);
    lemma_tail(p, n, kinds, c, element + 1);
}

/// `property <type> name`. The whitespace around all of these is dropped, one space goes before the
/// opening bracket and one before the name, whitespace directly behind the name is dropped as well,
/// the rest is written as it comes, and the next token begins a line.
pub proof fn law_property_declaration(p: Printer, n: SyntaxNode, at: Seq<int>)
    requires
        n.kind == SyntaxKind::PropertyDeclaration,
        at.len() == 5,
        0 <= at[0] < at[1] < at[2] < at[3] < at[4] < n.children@.len(),
        n.children@[at[0]].spec_kind() == SyntaxKind::Identifier,
        n.children@[at[1]].spec_kind() == SyntaxKind::LAngle,
        n.children@[at[2]].spec_kind() == SyntaxKind::Type,
        n.children@[at[3]].spec_kind() == SyntaxKind::RAngle,
        n.children@[at[4]].spec_kind() == SyntaxKind::DeclaredIdentifier,
        blank_between(n.children@, 0, at[0]),
        blank_between(n.children@, at[0] + 1, at[1]),
        blank_between(n.children@, at[1] + 1, at[2]),
        blank_between(n.children@, at[2] + 1, at[3]),
        blank_between(n.children@, at[3] + 1, at[4]),
    ensures
        ({
            let ch = n.children@;
            let a = through(Printer { skip: true, ..p }, ch.subrange(0, at[0] + 1));
            let b = through(
                Printer {
                    skip: true,
                    pending: Some(
                        if a.pending is Some {
                            a.pending->0 + seq![' ']
                        } else {
                            seq![' ']
                        },
                    ),
                    ..a
                },
                ch.subrange(at[0] + 1, at[1] + 1),
            );
            let c = through(Printer { skip: true, ..b }, ch.subrange(at[1] + 1, at[2] + 1));
            let d = through(Printer { skip: true, ..c }, ch.subrange(at[2] + 1, at[3] + 1));
            let e = through(
                Printer {
                    skip: true,
                    pending: Some(
                        if d.pending is Some {
                            d.pending->0 + seq![' ']
                        } else {
                            seq![' ']
                        },
                    ),
                    ..d
                },
                ch.subrange(at[3] + 1, at[4] + 1),
            );
            let f = through(Printer { skip: true, ..e }, ch.subrange(at[4] + 1, ch.len() as int));
            p.run(plan::node_layout(n)) == Printer {
                skip: true,
                pending: Some(
                    if f.pending is Some {
                        seq!['\n'] + f.pending->0
                    } else {
                        line(4 * f.level)
                    },
                ),
                ..f
            }
        }),
{
    let ch = n.children@;
    let len = ch.len() as int;
    let parts = plan::layouts(ch, len);
    let kinds = plan::property_head();
    let none = plan::nothing();
    let space = plan::space();
    let a = p.run(plan::to_next(ch, parts, 0, SyntaxKind::Identifier, none));
    lemma_to_next_found(p, ch, 0, at[0], SyntaxKind::Identifier, none);
    let b = a.run(plan::to_next(ch, parts, at[0] + 1, SyntaxKind::LAngle, space));
    lemma_to_next_found(a, ch, at[0] + 1, at[1], SyntaxKind::LAngle, space);
    let c = b.run(plan::to_next(ch, parts, at[1] + 1, SyntaxKind::Type, none));
    lemma_to_next_found(b, ch, at[1] + 1, at[2], SyntaxKind::Type, none);
    let d = c.run(plan::to_next(ch, parts, at[2] + 1, SyntaxKind::RAngle, none));
    lemma_to_next_found(c, ch, at[2] + 1, at[3], SyntaxKind::RAngle, none);
    let e = d.run(plan::to_next(ch, parts, at[3] + 1, SyntaxKind::DeclaredIdentifier, space));
    lemma_to_next_found(d, ch, at[3] + 1, at[4], SyntaxKind::DeclaredIdentifier, space);
    lemma_head_step(p, ch, kinds, 0);
    lemma_head_step(p, ch, kinds, 1);
    lemma_head_step(p, ch, kinds, 2);
    lemma_head_step(p, ch, kinds, 3);
    lemma_head_step(p, ch, kinds, 4);
    assert(kinds.take(5) =~= kinds);
    lemma_tail(p, n, kinds, e, at[4] + 1);
}

/// `Base {`. The whitespace before the name and before the brace is dropped, one space goes before the
/// brace, and what stands behind it begins a line, one level deeper. From there on the children are
/// written as [`law_closing_brace_child`] and [`law_inner_child`] say.
pub proof fn law_element(p: Printer, n: SyntaxNode, name: int, brace: int)
    requires
        n.kind == SyntaxKind::Element,
        0 <= name < brace < n.children@.len(),
        n.children@[name].spec_kind() == SyntaxKind::QualifiedName,
        n.children@[brace].spec_kind() == SyntaxKind::LBrace,
        blank_between(n.children@, 0, name),
        blank_between(n.children@, name + 1, brace),
    ensures
        ({
            let ch = n.children@;
            let a = through(Printer { skip: true, ..p }, ch.subrange(0, name + 1));
            let b = through(
                Printer {
                    skip: true,
                    pending: Some(
                        if a.pending is Some {
                            a.pending->0 + seq![' ']
                        } else {
                            seq![' ']
                        },
                    ),
                    ..a
                },
                ch.subrange(name + 1, brace + 1),
            );
            let c = Printer {
                skip: true,
                pending: Some(
                    if b.pending is Some {
                        seq!['\n'] + b.pending->0
                    } else {
                        line(4 * (b.level + 1))
                    },
                ),
                level: b.level + 1,
                edits: b.edits,
            };
            p.run(plan::node_layout(n)) == inside(c, ch.subrange(brace + 1, ch.len() as int))
        }),
{
    let ch = n.children@;
    let len = ch.len() as int;
    let parts = plan::layouts(ch, len);
    let kinds = plan::element_head();
    let a = p.run(plan::to_next(ch, parts, 0, SyntaxKind::QualifiedName, plan::nothing()));
    lemma_to_next_found(p, ch, 0, name, SyntaxKind::QualifiedName, plan::nothing());
    let b = a.run(plan::to_next(ch, parts, name + 1, SyntaxKind::LBrace, plan::space()));
    lemma_to_next_found(a, ch, name + 1, brace, SyntaxKind::LBrace, plan::space());
    lemma_head_step(p, ch, kinds, 0);
    lemma_head_step(p, ch, kinds, 1);
    assert(kinds.take(2) =~= kinds);
    let h = plan::head(ch, parts, kinds);
    let deeper = seq![Op::Indent, Op::NewLine];
    let body = plan::element_body(ch, parts, h.rest, len);
    plan::lemma_run_append(p, h.ops, deeper);
    plan::lemma_run_two(b, Op::Indent, Op::NewLine);
    plan::lemma_run_append(p, h.ops + deeper, body);
    lemma_line(b.level + 1);
    lemma_body(b.run(deeper), ch, brace + 1, len);
}

/// The printer after the children of an element behind the opening brace.
pub open spec fn inside(p: Printer, children: Seq<NodeOrToken>) -> Printer
    decreases children.len(),
{
    if children.len() == 0 {
        p
    } else {
        let before = inside(p, children.drop_last());
        if children.last().spec_kind() == SyntaxKind::RBrace {
            let closed = Printer {
                skip: true,
                pending: Some(line(4 * (before.level - 1))),
                level: before.level - 1,
                edits: before.edits,
            }.run(plan::layout(children.last()));
            Printer {
                skip: true,
                pending: Some(
                    if closed.pending is Some {
                        seq!['\n'] + closed.pending->0
                    } else {
                        line(4 * closed.level)
                    },
                ),
                ..closed
            }
        } else {
            before.run(plan::layout(children.last()))
        }
    }
}

proof fn lemma_body(p: Printer, children: Seq<NodeOrToken>, from: int, to: int)
    requires
        0 <= from <= to <= children.len(),
    ensures
        p.run(
            plan::element_body(
                children,
                plan::layouts(children, children.len() as int),
                from,
                to,
            ),
        ) == inside(p, children.subrange(from, to)),
    decreases to - from,
{
    let parts = plan::layouts(children, children.len() as int);
    plan::lemma_layouts(children, children.len() as int);
    if from < to {
        lemma_body(p, children, from, to - 1);
        let part = children.subrange(from, to);
        assert(part.drop_last() =~= children.subrange(from, to - 1));
        let body = plan::element_body(children, parts, from, to - 1);
        let before = p.run(body);
        let last = parts[to - 1];
        if children[to - 1].spec_kind() == SyntaxKind::RBrace {
            let open = seq![Op::Dedent, Op::Forget, Op::NewLine];
            plan::lemma_run_append(p, body, open + last + seq![Op::NewLine]);
            plan::lemma_run_append(before, open + last, seq![Op::NewLine]);
            plan::lemma_run_append(before, open, last);
            plan::lemma_run_three(before, Op::Dedent, Op::Forget, Op::NewLine);
            lemma_line(before.level - 1);
            let closed = before.run(open).run(last);
            plan::lemma_run_one(closed, Op::NewLine);
            lemma_line(closed.level);
        } else {
            plan::lemma_run_append(p, body, last);
        }
    }
}

/// A closing brace stands on a line of its own, one level less deep than what stands before it, and
/// whatever was to go before it is forgotten; what stands behind it begins another line, on its level.
pub proof fn law_closing_brace_child(p: Printer, children: Seq<NodeOrToken>, brace: SyntaxToken)
    requires
        brace.kind == SyntaxKind::RBrace,
    ensures
        ({
            let before = inside(p, children);
            inside(p, children.push(NodeOrToken::Token(brace))) == Printer {
                skip: true,
                pending: Some(line(4 * (before.level - 1))),
                level: before.level - 1,
                edits: before.edits.push(
                    EditView::InsertBefore(brace, line(4 * (before.level - 1))),
                ),
            }
        }),
{
    let all = children.push(NodeOrToken::Token(brace));
    assert(all.drop_last() =~= children);
    let before = inside(p, children);
    let closing = Printer {
        skip: true,
        pending: Some(line(4 * (before.level - 1))),
        level: before.level - 1,
        edits: before.edits,
    };
    law_token(closing, brace);
}

/// Everything else inside of an element is written as it comes.
pub proof fn law_inner_child(p: Printer, children: Seq<NodeOrToken>, child: NodeOrToken)
    requires
        child.spec_kind() != SyntaxKind::RBrace,
    ensures
        inside(p, children.push(child)) == inside(p, children).run(plan::layout(child)),
        inside(p, Seq::empty()) == p,
{
    assert(children.push(child).drop_last() =~= children);
}

/// An element that does not begin with a name and a brace is written child by child behind what was
/// found of its head, on the same level and without a new line.
pub proof fn law_element_without_head(p: Printer, n: SyntaxNode, at: int)
    requires
        n.kind == SyntaxKind::Element,
        0 <= at < n.children@.len(),
        blank_between(n.children@, 0, at),
        !is_blank(n.children@[at]),
        n.children@[at].spec_kind() != SyntaxKind::QualifiedName,
    ensures
        ({
            let ch = n.children@;
            let a = through(Printer { skip: true, ..p }, ch.subrange(0, at));
            p.run(plan::node_layout(n)) == through(
                Printer {
                    edits: a.edits.push(
                        EditView::Inconsistency {
                            expected: SyntaxKind::QualifiedName,
                            found: Some(ch[at].spec_id()),
                        },
                    ),
                    ..a
                },
                ch.subrange(at + 1, ch.len() as int),
            )
        }),
{
    let ch = n.children@;
    let len = ch.len() as int;
    let parts = plan::layouts(ch, len);
    let kinds = plan::element_head();
    law_looking_for_a_kind(p, ch, 0, at, SyntaxKind::QualifiedName, plan::nothing());
    lemma_solid_at(ch, 0, at);
    lemma_head_step(p, ch, kinds, 0);
    plan::lemma_head_prefix(ch, parts, kinds, 1);
    let h = plan::head(ch, parts, kinds);
    plan::lemma_run_append(p, h.ops, plan::join(parts, h.rest, len));
    lemma_join_through(p.run(h.ops), ch, at + 1, len);
}

/// The edits stand for what they say: the token, the text and the kind of an edit are those of the
/// value that is made.
pub proof fn law_edits_say_what_they_are(
    t: SyntaxToken,
    text: String,
    expected: SyntaxKind,
    found: Option<usize>,
)
    ensures
        TokenEdit::NoChange(t)@ == EditView::NoChange(t),
        TokenEdit::WithNewContent(t, text)@ == EditView::WithNewContent(t, text@),
        TokenEdit::InsertBefore(t, text)@ == EditView::InsertBefore(t, text@),
        (TokenEdit::Inconsistency { expected, found })@ == (EditView::Inconsistency {
            expected,
            found,
        }),
{
}

/// The edits of a list are seen one by one, in order.
pub proof fn law_edits_one_by_one(edits: Seq<TokenEdit>)
    ensures
        formatter::views(edits).len() == edits.len(),
        forall|i: int| 0 <= i < edits.len() ==> #[trigger] formatter::views(edits)[i] == edits[i]@,
{
}

/// A new line drops the whitespace up to the next token. It goes in front of what is to stand before
/// the token; where nothing is, it is indented by four spaces for each level. The level stays.
pub proof fn law_new_line(before: FormatState, after: FormatState)
    requires
        forall|edits: Seq<EditView>| #[trigger]
            after.printer(edits) == before.printer(edits).new_line(),
    ensures
        after.skip_all_whitespace,
        after.indentation_level == before.indentation_level,
        after.whitespace_to_add matches Some(text) && text@ == match before.whitespace_to_add {
            Some(there) => seq!['\n'] + there@,
            None => line(4 * before.indentation_level),
        },
{
    let p = before.printer(Seq::empty());
    let q = after.printer(Seq::empty());
    assert(q == p.new_line());
    lemma_line(p.level);
}

/// A document is begun with nothing to drop, nothing to put anywhere, on the outermost level; its
/// edits are those of its node from there on.
pub proof fn law_beginning(doc: SyntaxNode)
    ensures
        formatter::formatted(doc) == (Printer {
            skip: false,
            pending: None,
            level: 0,
            edits: Seq::empty(),
        }).run(plan::node_layout(doc)).edits,
{
}

/// Comments and whitespace are passed over on the way to the next element of a node; that element is
/// read, whatever it is, and the way goes on behind it.
pub proof fn law_blanks_are_passed_over(
    children: Seq<NodeOrToken>,
    from: int,
    at: int,
    expected: SyntaxKind,
)
    requires
        0 <= from <= at <= children.len(),
        blank_between(children, from, at),
        at < children.len() ==> !is_blank(children[at]),
    ensures
        plan::is_next(children, from, expected) <==> at < children.len()
            && children[at].spec_kind() == expected,
        plan::after_next(children, from) == if at < children.len() {
            at + 1
        } else {
            at
        },
{
    lemma_solid_at(children, from, at);
}

/// The kinds that make the head of a node, each with what goes before it.
pub proof fn law_heads()
    ensures
        plan::component_head() == seq![
            (SyntaxKind::DeclaredIdentifier, seq![]),
            (SyntaxKind::ColonEqual, seq![' ']),
            (SyntaxKind::Element, seq![' ']),
        ],
        plan::element_head() == seq![
            (SyntaxKind::QualifiedName, seq![]),
            (SyntaxKind::LBrace, seq![' ']),
        ],
        plan::property_head() == seq![
            (SyntaxKind::Identifier, seq![]),
            (SyntaxKind::LAngle, seq![' ']),
            (SyntaxKind::Type, seq![]),
            (SyntaxKind::RAngle, seq![]),
            (SyntaxKind::DeclaredIdentifier, seq![' ']),
        ],
        plan::binding_head() == seq![
            (SyntaxKind::Identifier, seq![]),
            (SyntaxKind::Colon, seq![]),
            (SyntaxKind::BindingExpression, seq![' ']),
        ],
{
    assert(plan::nothing() =~= seq![]);
}

/// A head is read kind by kind. The first kind that is not in its place ends it, and the rest of the
/// kinds is not looked for.
pub proof fn law_head_ends_at_the_first_gap(
    p: Printer,
    children: Seq<NodeOrToken>,
    kinds: Seq<(SyntaxKind, Seq<char>)>,
    more: Seq<(SyntaxKind, Seq<char>)>,
    kind: SyntaxKind,
    gap: Seq<char>,
)
    ensures
        ({
            let parts = plan::layouts(children, children.len() as int);
            let before = plan::head(children, parts, kinds);
            let after = plan::head(children, parts, kinds.push((kind, gap)));
            let none = plan::head(children, parts, Seq::empty());
            &&& none.complete && none.rest == 0 && p.run(none.ops) == p
            &&& before.complete ==> {
                &&& p.run(after.ops) == p.run(before.ops).run(
                    plan::to_next(children, parts, before.rest, kind, gap),
                )
                &&& after.rest == plan::after_next(children, before.rest)
                &&& after.complete <==> plan::is_next(children, before.rest, kind)
            }
            &&& !before.complete ==> plan::head(children, parts, kinds + more) == before
        }),
    decreases more.len(),
{
    let parts = plan::layouts(children, children.len() as int);
    let before = plan::head(children, parts, kinds);
    let longer = kinds.push((kind, gap));
    assert(longer.drop_last() =~= kinds);
    plan::lemma_run_append(
        p,
        before.ops,
        plan::to_next(children, parts, before.rest, kind, gap),
    );
    plan::lemma_head_prefix(children, parts, kinds + more, kinds.len() as int);
    assert((kinds + more).take(kinds.len() as int) =~= kinds);
}

/// Whether or not the head of a component, a property declaration or a binding is complete, the rest
/// of the node is written child by child, and the next token begins a line. Behind the head of a
/// property declaration whitespace is dropped.
pub proof fn law_rest_is_written(p: Printer, n: SyntaxNode)
    requires
        n.kind == SyntaxKind::Component || n.kind == SyntaxKind::PropertyDeclaration || n.kind
            == SyntaxKind::Binding,
    ensures
        ({
            let len = n.children@.len() as int;
            let parts = plan::layouts(n.children@, len);
            let h = plan::head(
                n.children@,
                parts,
                if n.kind == SyntaxKind::Component {
                    plan::component_head()
                } else if n.kind == SyntaxKind::Binding {
                    plan::binding_head()
                } else {
                    plan::property_head()
                },
            );
            let read = p.run(h.ops);
            let rest = through(
                Printer {
                    skip: if n.kind == SyntaxKind::PropertyDeclaration {
                        true
                    } else {
                        read.skip
                    },
                    ..read
                },
                n.children@.subrange(h.rest, len),
            );
            p.run(plan::node_layout(n)) == Printer {
                skip: true,
                pending: Some(
                    if rest.pending is Some {
                        seq!['\n'] + rest.pending->0
                    } else {
                        line(4 * rest.level)
                    },
                ),
                ..rest
            }
        }),
{
    let len = n.children@.len() as int;
    let parts = plan::layouts(n.children@, len);
    let kinds = if n.kind == SyntaxKind::Component {
        plan::component_head()
    } else if n.kind == SyntaxKind::Binding {
        plan::binding_head()
    } else {
        plan::property_head()
    };
    let h = plan::head(n.children@, parts, kinds);
    lemma_head_rest(n.children@, kinds);
    lemma_tail(p, n, kinds, p.run(h.ops), h.rest);
}

/// An element whose head is incomplete is written child by child behind what was read of it.
pub proof fn law_incomplete_element(p: Printer, n: SyntaxNode)
    requires
        n.kind == SyntaxKind::Element,
        !plan::head(
            n.children@,
            plan::layouts(n.children@, n.children@.len() as int),
            plan::element_head(),
        ).complete,
    ensures
        ({
            let len = n.children@.len() as int;
            let h = plan::head(
                n.children@,
                plan::layouts(n.children@, len),
                plan::element_head(),
            );
            p.run(plan::node_layout(n)) == through(
                p.run(h.ops),
                n.children@.subrange(h.rest, len),
            )
        }),
{
    let len = n.children@.len() as int;
    let parts = plan::layouts(n.children@, len);
    let h = plan::head(n.children@, parts, plan::element_head());
    lemma_head_rest(n.children@, plan::element_head());
    plan::lemma_run_append(p, h.ops, plan::join(parts, h.rest, len));
    lemma_join_through(p.run(h.ops), n.children@, h.rest, len);
}

proof fn lemma_head_rest(children: Seq<NodeOrToken>, kinds: Seq<(SyntaxKind, Seq<char>)>)
    ensures
        0 <= plan::head(
            children,
            plan::layouts(children, children.len() as int),
            kinds,
        ).rest <= children.len(),
    decreases kinds.len(),
{
    if kinds.len() > 0 {
        let parts = plan::layouts(children, children.len() as int);
        lemma_head_rest(children, kinds.drop_last());
        plan::lemma_next_solid(children, plan::head(children, parts, kinds.drop_last()).rest);
    }
}

/// A document can be formatted exactly if the level, followed from the outermost one through all that
/// is done, is never negative and never exceeds 32 bits.
pub proof fn law_levels_decide(doc: SyntaxNode)
    ensures
        formatter::indentation_fits(doc) <==> forall|k: int|
            0 <= k <= plan::node_layout(doc).len() ==> 0 <= (#[trigger] Printer::start().run(
                plan::node_layout(doc).take(k),
            )).level <= 0xffff_ffff,
{
    let ops = plan::node_layout(doc);
    assert forall|k: int| 0 <= k <= ops.len() implies (#[trigger] Printer::start().run(
        ops.take(k),
    )).level == plan::steps(ops, k) by {
        plan::lemma_level(Printer::start(), ops.take(k));
        plan::lemma_steps_prefix(ops.take(k), ops.skip(k), k);
        assert(ops.take(k) + ops.skip(k) =~= ops);
    }
    if formatter::indentation_fits(doc) {
        assert forall|k: int| 0 <= k <= ops.len() implies 0 <= (#[trigger] Printer::start().run(
            ops.take(k),
        )).level <= 0xffff_ffff by {
            assert(0 <= 0 + plan::steps(ops, k) <= u32::MAX);
        }
    }
    if forall|k: int|
        0 <= k <= ops.len() ==> 0 <= (#[trigger] Printer::start().run(ops.take(k))).level
            <= 0xffff_ffff {
        assert forall|k: int| 0 <= k <= ops.len() implies 0 <= 0 + #[trigger] plan::steps(ops, k)
            <= u32::MAX by {
            assert(0 <= Printer::start().run(ops.take(k)).level);
        }
    }
}

} // verus!
