//! What the formatter makes of a syntax tree.
//!
//! The layout of a tree is a sequence of operations: write a token, ask for a blank before the
//! next token, begin a line, step the indentation. It depends on the shape of the tree alone.
//! Running the operations from left to right on a [`Printer`] gives the edits of the tokens.

use vstd::prelude::*;

use crate::fmt::syntax::{NodeOrToken, SyntaxKind, SyntaxNode, SyntaxToken};

verus! {

/// One operation of a layout.
pub enum Op {
    /// Write a token.
    Token(SyntaxToken),
    /// Drop the whitespace up to the next token and put this text there as well.
    Gap(Seq<char>),
    /// Begin a new line before the next token.
    NewLine,
    /// One level deeper from here on.
    Indent,
    /// One level less from here on.
    Dedent,
    /// Forget the text that was to go before the next token.
    Forget,
    /// `expected` is not where it should be: `found` is there, and is left out, or nothing is.
    Inconsistency { expected: SyntaxKind, found: Option<NodeOrToken> },
}

/// An edit of one token, as a mathematical value.
pub enum EditView {
    NoChange(SyntaxToken),
    WithNewContent(SyntaxToken, Seq<char>),
    InsertBefore(SyntaxToken, Seq<char>),
    Inconsistency { expected: SyntaxKind, found: Option<usize> },
}

/// The state of the formatter between two operations, with the edits made so far.
pub struct Printer {
    /// Whether whitespace tokens are dropped up to the next token that is none.
    pub skip: bool,
    /// The text to put before the next token that is no whitespace.
    pub pending: Option<Seq<char>>,
    /// The level of indentation.
    pub level: int,
    /// The edits so far.
    pub edits: Seq<EditView>,
}

/// A line break, and four spaces for each level.
pub open spec fn line_start(level: int) -> Seq<char> {
    seq!['\n'] + Seq::new(
        if level > 0 {
            (4 * level) as nat
        } else {
            0
        },
        |i: int| ' ',
    )
}

impl Printer {
    /// The state in which a document is begun.
    pub open spec fn start() -> Printer {
        Printer { skip: false, pending: None, level: 0, edits: Seq::empty() }
    }

    /// The next token goes to a new line. The line break is put before a text that is pending
    /// already; otherwise the line is indented.
    pub open spec fn new_line(self) -> Printer {
        Printer {
            skip: true,
            pending: match self.pending {
                Some(text) => Some(seq!['\n'] + text),
                None => Some(line_start(self.level)),
            },
            ..self
        }
    }

    /// `text` goes before the next token, in place of the whitespace that stands there.
    pub open spec fn gap(self, text: Seq<char>) -> Printer {
        Printer {
            skip: true,
            pending: if text.len() == 0 {
                self.pending
            } else {
                match self.pending {
                    Some(before) => Some(before + text),
                    None => Some(text),
                }
            },
            ..self
        }
    }

    /// Write a token: whitespace is kept or dropped, any other token is kept and takes the pending
    /// text before it.
    pub open spec fn token(self, t: SyntaxToken) -> Printer {
        if t.kind == SyntaxKind::Whitespace {
            Printer {
                edits: self.edits.push(
                    if self.skip {
                        EditView::WithNewContent(t, Seq::empty())
                    } else {
                        EditView::NoChange(t)
                    },
                ),
                ..self
            }
        } else {
            Printer {
                skip: false,
                pending: None,
                edits: self.edits.push(
                    match self.pending {
                        Some(text) => EditView::InsertBefore(t, text),
                        None => EditView::NoChange(t),
                    },
                ),
                ..self
            }
        }
    }

    pub open spec fn apply(self, op: Op) -> Printer {
        match op {
            Op::Token(t) => self.token(t),
            Op::Gap(text) => self.gap(text),
            Op::NewLine => self.new_line(),
            Op::Indent => Printer { level: self.level + 1, ..self },
            Op::Dedent => Printer { level: self.level - 1, ..self },
            Op::Forget => Printer { pending: None, ..self },
            Op::Inconsistency { expected, found } => Printer {
                edits: self.edits.push(
                    EditView::Inconsistency {
                        expected,
                        found: match found {
                            Some(e) => Some(e.spec_id()),
                            None => None,
                        },
                    },
                ),
                ..self
            },
        }
    }

    /// The state after a sequence of operations.
    pub open spec fn run(self, ops: Seq<Op>) -> Printer
        decreases ops.len(),
    {
        if ops.len() == 0 {
            self
        } else {
            self.run(ops.drop_last()).apply(ops.last())
        }
    }
}

/// Whether the level of indentation is a `u32` after each of the operations, starting at `level`.
pub open spec fn fits(ops: Seq<Op>, level: int) -> bool {
    forall|k: int| 0 <= k <= ops.len() ==> 0 <= level + #[trigger] steps(ops, k) <= u32::MAX
}

/// By how much the first `k` operations change the level of indentation.
pub open spec fn steps(ops: Seq<Op>, k: int) -> int
    decreases k,
{
    if 0 < k <= ops.len() {
        steps(ops, k - 1) + (match ops[k - 1] {
            Op::Indent => 1int,
            Op::Dedent => -1int,
            _ => 0int,
        })
    } else {
        0
    }
}

/// The layout of a node or of a token.
pub open spec fn layout(e: NodeOrToken) -> Seq<Op>
    decreases e, 0int,
{
    match e {
        NodeOrToken::Node(n) => node_layout(n),
        NodeOrToken::Token(t) => seq![Op::Token(t)],
    }
}

/// The layout of a node: the layouts of its children, arranged by its kind.
pub open spec fn node_layout(n: SyntaxNode) -> Seq<Op>
    decreases n, 0int,
{
    arrange(n.kind, n.children@, layouts(n.children@, n.children@.len() as int))
}

/// The layouts of the first `k` elements of a list of children.
pub open spec fn layouts(children: Seq<NodeOrToken>, k: int) -> Seq<Seq<Op>>
    decreases children, k,
{
    if 0 < k <= children.len() {
        layouts(children, k - 1).push(layout(children[k - 1]))
    } else {
        Seq::empty()
    }
}

/// The parts from `from` up to `to`, one after the other.
pub open spec fn join(parts: Seq<Seq<Op>>, from: int, to: int) -> Seq<Op>
    decreases to - from,
{
    if from < to {
        join(parts, from, to - 1) + parts[to - 1]
    } else {
        Seq::empty()
    }
}

/// The first child from `from` on that is neither whitespace nor a comment.
pub open spec fn next_solid(children: Seq<NodeOrToken>, from: int) -> int
    decreases children.len() - from,
{
    if from < children.len() && (children[from].spec_kind() == SyntaxKind::Whitespace
        || children[from].spec_kind() == SyntaxKind::Comment) {
        next_solid(children, from + 1)
    } else {
        from
    }
}

/// Whether the next child that is neither whitespace nor a comment is of the kind `expected`.
pub open spec fn is_next(children: Seq<NodeOrToken>, from: int, expected: SyntaxKind) -> bool {
    let at = next_solid(children, from);
    at < children.len() && children[at].spec_kind() == expected
}

/// Where the children that follow begin, once one kind has been looked for.
pub open spec fn after_next(children: Seq<NodeOrToken>, from: int) -> int {
    let at = next_solid(children, from);
    if at < children.len() {
        at + 1
    } else {
        at
    }
}

/// The layout of the children up to the next one of the kind `expected`, with `gap` before the
/// first of them in place of whitespace. A child of another kind in its place is left out.
pub open spec fn to_next(
    children: Seq<NodeOrToken>,
    parts: Seq<Seq<Op>>,
    from: int,
    expected: SyntaxKind,
    gap: Seq<char>,
) -> Seq<Op> {
    let at = next_solid(children, from);
    let before = seq![Op::Gap(gap)] + join(parts, from, at);
    if is_next(children, from, expected) {
        before + parts[at]
    } else {
        before.push(
            Op::Inconsistency {
                expected,
                found: if at < children.len() {
                    Some(children[at])
                } else {
                    None
                },
            },
        )
    }
}

/// The head of a node: kinds that have to follow each other, each with the text before it.
pub struct Head {
    /// The layout of the children that were read.
    pub ops: Seq<Op>,
    /// Where the children that were not read begin.
    pub rest: int,
    /// Whether every kind was in its place.
    pub complete: bool,
}

/// Read the children for the given kinds, up to the first one that is not in its place.
pub open spec fn head(
    children: Seq<NodeOrToken>,
    parts: Seq<Seq<Op>>,
    kinds: Seq<(SyntaxKind, Seq<char>)>,
) -> Head
    decreases kinds.len(),
{
    if kinds.len() == 0 {
        Head { ops: Seq::empty(), rest: 0, complete: true }
    } else {
        let before = head(children, parts, kinds.drop_last());
        let (expected, gap) = kinds.last();
        if before.complete {
            Head {
                ops: before.ops + to_next(children, parts, before.rest, expected, gap),
                rest: after_next(children, before.rest),
                complete: is_next(children, before.rest, expected),
            }
        } else {
            before
        }
    }
}

pub open spec fn nothing() -> Seq<char> {
    Seq::empty()
}

pub open spec fn space() -> Seq<char> {
    seq![' ']
}

/// `Name := Element`
pub open spec fn component_head() -> Seq<(SyntaxKind, Seq<char>)> {
    seq![
        (SyntaxKind::DeclaredIdentifier, nothing()),
        (SyntaxKind::ColonEqual, space()),
        (SyntaxKind::Element, space()),
    ]
}

/// `Base {`
pub open spec fn element_head() -> Seq<(SyntaxKind, Seq<char>)> {
    seq![(SyntaxKind::QualifiedName, nothing()), (SyntaxKind::LBrace, space())]
}

/// `property <type> name`
pub open spec fn property_head() -> Seq<(SyntaxKind, Seq<char>)> {
    seq![
        (SyntaxKind::Identifier, nothing()),
        (SyntaxKind::LAngle, space()),
        (SyntaxKind::Type, nothing()),
        (SyntaxKind::RAngle, nothing()),
        (SyntaxKind::DeclaredIdentifier, space()),
    ]
}

/// `name: expression`
pub open spec fn binding_head() -> Seq<(SyntaxKind, Seq<char>)> {
    seq![
        (SyntaxKind::Identifier, nothing()),
        (SyntaxKind::Colon, nothing()),
        (SyntaxKind::BindingExpression, space()),
    ]
}

/// The children of an element behind the opening brace: a closing brace stands on a line of its
/// own, one level less deep.
pub open spec fn element_body(
    children: Seq<NodeOrToken>,
    parts: Seq<Seq<Op>>,
    from: int,
    to: int,
) -> Seq<Op>
    decreases to - from,
{
    if from < to {
        element_body(children, parts, from, to - 1) + (
        if children[to - 1].spec_kind() == SyntaxKind::RBrace {
            seq![Op::Dedent, Op::Forget, Op::NewLine] + parts[to - 1] + seq![Op::NewLine]
        } else {
            parts[to - 1]
        })
    } else {
        Seq::empty()
    }
}

/// The layout of a node of the given kind, given its children and their layouts.
pub open spec fn arrange(
    kind: SyntaxKind,
    children: Seq<NodeOrToken>,
    parts: Seq<Seq<Op>>,
) -> Seq<Op> {
    let len = children.len() as int;
    match kind {
        SyntaxKind::Component => {
            let h = head(children, parts, component_head());
            h.ops + join(parts, h.rest, len) + seq![Op::NewLine]
        },
        SyntaxKind::Element => {
            let h = head(children, parts, element_head());
            if h.complete {
                h.ops + seq![Op::Indent, Op::NewLine] + element_body(children, parts, h.rest, len)
            } else {
                h.ops + join(parts, h.rest, len)
            }
        },
        SyntaxKind::PropertyDeclaration => {
            let h = head(children, parts, property_head());
            h.ops + seq![Op::Gap(nothing())] + join(parts, h.rest, len) + seq![Op::NewLine]
        },
        SyntaxKind::Binding => {
            let h = head(children, parts, binding_head());
            h.ops + join(parts, h.rest, len) + seq![Op::NewLine]
        },
        _ => join(parts, 0, len),
    }
}

/// Running one sequence of operations after another is running the two as one.
pub proof fn lemma_run_append(p: Printer, a: Seq<Op>, b: Seq<Op>)
    ensures
        p.run(a + b) == p.run(a).run(b),
    decreases b.len(),
{
    if b.len() == 0 {
        assert(a + b =~= a);
    } else {
        lemma_run_append(p, a, b.drop_last());
        assert((a + b).drop_last() =~= a + b.drop_last());
    }
}

pub proof fn lemma_layouts(children: Seq<NodeOrToken>, k: int)
    requires
        0 <= k <= children.len(),
    ensures
        layouts(children, k).len() == k,
        forall|i: int| 0 <= i < k ==> #[trigger] layouts(children, k)[i] == layout(children[i]),
    decreases k,
{
    if k > 0 {
        lemma_layouts(children, k - 1);
    }
}

pub proof fn lemma_run_none(p: Printer)
    requires
        0 <= p.level <= u32::MAX,
    ensures
        p.run(Seq::empty()) == p,
        fits(Seq::empty(), p.level),
{
}

/// Whether the level of indentation is a `u32`.
pub open spec fn in_range(p: Printer) -> bool {
    0 <= p.level <= u32::MAX
}

pub proof fn lemma_run_one(p: Printer, op: Op)
    ensures
        p.run(seq![op]) == p.apply(op),
        fits(seq![op], p.level) <==> in_range(p) && in_range(p.apply(op)),
{
    let ops = seq![op];
    assert(ops.drop_last() =~= Seq::empty());
    assert(p.run(ops.drop_last()) == p);
    assert(steps(ops, 0) == 0);
    assert(p.level + steps(ops, 1) == p.apply(op).level);
}

/// The level after a run.
pub proof fn lemma_level(p: Printer, ops: Seq<Op>)
    ensures
        p.run(ops).level == p.level + steps(ops, ops.len() as int),
    decreases ops.len(),
{
    if ops.len() > 0 {
        lemma_level(p, ops.drop_last());
        lemma_steps_prefix(ops.drop_last(), seq![ops.last()], ops.len() - 1);
        assert(ops.drop_last() + seq![ops.last()] =~= ops);
    }
}

pub proof fn lemma_steps_prefix(a: Seq<Op>, b: Seq<Op>, k: int)
    requires
        0 <= k <= a.len(),
    ensures
        steps(a + b, k) == steps(a, k),
    decreases k,
{
    if k > 0 {
        lemma_steps_prefix(a, b, k - 1);
    }
}

pub proof fn lemma_steps_suffix(a: Seq<Op>, b: Seq<Op>, k: int)
    requires
        0 <= k <= b.len(),
    ensures
        steps(a + b, a.len() + k) == steps(a, a.len() as int) + steps(b, k),
    decreases k,
{
    if k > 0 {
        lemma_steps_suffix(a, b, k - 1);
        assert((a + b)[a.len() + k - 1] == b[k - 1]);
    } else {
        lemma_steps_prefix(a, b, a.len() as int);
    }
}

pub proof fn lemma_fits_append(a: Seq<Op>, b: Seq<Op>, level: int)
    ensures
        fits(a + b, level) <==> fits(a, level) && fits(b, level + steps(a, a.len() as int)),
{
    let inner = level + steps(a, a.len() as int);
    if fits(a + b, level) {
        assert forall|k: int| 0 <= k <= a.len() implies 0 <= level + #[trigger] steps(a, k)
            <= u32::MAX by {
            lemma_steps_prefix(a, b, k);
            assert(0 <= level + steps(a + b, k) <= u32::MAX);
        }
        assert forall|k: int| 0 <= k <= b.len() implies 0 <= inner + #[trigger] steps(b, k)
            <= u32::MAX by {
            lemma_steps_suffix(a, b, k);
            assert(0 <= level + steps(a + b, a.len() + k) <= u32::MAX);
        }
    }
    if fits(a, level) && fits(b, inner) {
        assert forall|k: int| 0 <= k <= (a + b).len() implies 0 <= level + #[trigger] steps(
            a + b,
            k,
        ) <= u32::MAX by {
            if k <= a.len() {
                lemma_steps_prefix(a, b, k);
                assert(0 <= level + steps(a, k) <= u32::MAX);
            } else {
                lemma_steps_suffix(a, b, k - a.len());
                assert(0 <= inner + steps(b, k - a.len()) <= u32::MAX);
            }
        }
    }
}

/// One sequence of operations after another, with the levels.
pub proof fn lemma_then(p: Printer, a: Seq<Op>, b: Seq<Op>)
    ensures
        p.run(a + b) == p.run(a).run(b),
        fits(a + b, p.level) <==> fits(a, p.level) && fits(b, p.run(a).level),
{
    lemma_run_append(p, a, b);
    lemma_fits_append(a, b, p.level);
    lemma_level(p, a);
}

pub proof fn lemma_join_split(parts: Seq<Seq<Op>>, from: int, middle: int, to: int)
    requires
        from <= middle <= to,
    ensures
        join(parts, from, to) == join(parts, from, middle) + join(parts, middle, to),
    decreases to - middle,
{
    if middle < to {
        lemma_join_split(parts, from, middle, to - 1);
        assert(join(parts, from, to) =~= join(parts, from, middle) + join(parts, middle, to));
    } else {
        assert(join(parts, from, to) =~= join(parts, from, middle) + join(parts, middle, to));
    }
}

/// If a sequence of operations keeps the level in range, so does each prefix of it.
pub proof fn lemma_fits_prefix(a: Seq<Op>, all: Seq<Op>, level: int)
    requires
        a.is_prefix_of(all),
    ensures
        fits(all, level) ==> fits(a, level),
{
    let b = all.skip(a.len() as int);
    assert(all =~= a + b);
    lemma_fits_append(a, b, level);
}

pub proof fn lemma_next_solid(children: Seq<NodeOrToken>, from: int)
    requires
        0 <= from <= children.len(),
    ensures
        from <= next_solid(children, from) <= children.len(),
    decreases children.len() - from,
{
    if from < children.len() {
        lemma_next_solid(children, from + 1);
    }
}

pub proof fn lemma_to_next_prefix(
    children: Seq<NodeOrToken>,
    parts: Seq<Seq<Op>>,
    from: int,
    expected: SyntaxKind,
    gap: Seq<char>,
    to: int,
)
    requires
        0 <= from <= to <= next_solid(children, from),
    ensures
        (seq![Op::Gap(gap)] + join(parts, from, to)).is_prefix_of(
            to_next(children, parts, from, expected, gap),
        ),
{
    lemma_join_split(parts, from, to, next_solid(children, from));
}

/// A head that is read further begins as it did.
pub proof fn lemma_head_prefix(
    children: Seq<NodeOrToken>,
    parts: Seq<Seq<Op>>,
    kinds: Seq<(SyntaxKind, Seq<char>)>,
    k: int,
)
    requires
        0 <= k <= kinds.len(),
    ensures
        head(children, parts, kinds.take(k)).ops.is_prefix_of(head(children, parts, kinds).ops),
        !head(children, parts, kinds.take(k)).complete ==> head(children, parts, kinds) == head(
            children,
            parts,
            kinds.take(k),
        ),
    decreases kinds.len(),
{
    if k == kinds.len() {
        assert(kinds.take(k) =~= kinds);
    } else {
        lemma_head_prefix(children, parts, kinds.drop_last(), k);
        assert(kinds.drop_last().take(k) =~= kinds.take(k));
        let a = head(children, parts, kinds.take(k)).ops;
        let b = head(children, parts, kinds.drop_last()).ops;
        let c = head(children, parts, kinds).ops;
        assert(b.is_prefix_of(c));
        assert(a.is_prefix_of(c)) by {
            assert forall|i: int| 0 <= i < a.len() implies a[i] == c[i] by {
                assert(a[i] == b[i]);
                assert(b[i] == c[i]);
            }
            assert(a =~= c.subrange(0, a.len() as int));
        }
    }
}

pub proof fn lemma_body_prefix(
    children: Seq<NodeOrToken>,
    parts: Seq<Seq<Op>>,
    from: int,
    middle: int,
    to: int,
)
    requires
        from <= middle <= to,
    ensures
        element_body(children, parts, from, middle).is_prefix_of(
            element_body(children, parts, from, to),
        ),
    decreases to - middle,
{
    if middle < to {
        lemma_body_prefix(children, parts, from, middle, to - 1);
        let a = element_body(children, parts, from, middle);
        let b = element_body(children, parts, from, to - 1);
        let c = element_body(children, parts, from, to);
        assert forall|i: int| 0 <= i < a.len() implies a[i] == c[i] by {
            assert(a[i] == b[i]);
            assert(b[i] == c[i]);
        }
        assert(a =~= c.subrange(0, a.len() as int));
    }
}

pub proof fn lemma_run_two(p: Printer, a: Op, b: Op)
    ensures
        p.run(seq![a, b]) == p.apply(a).apply(b),
        fits(seq![a, b], p.level) <==> in_range(p) && in_range(p.apply(a)) && in_range(
            p.apply(a).apply(b),
        ),
{
    lemma_then(p, seq![a], seq![b]);
    assert(seq![a] + seq![b] =~= seq![a, b]);
    lemma_run_one(p, a);
    lemma_run_one(p.apply(a), b);
}

pub proof fn lemma_run_three(p: Printer, a: Op, b: Op, c: Op)
    ensures
        p.run(seq![a, b, c]) == p.apply(a).apply(b).apply(c),
        fits(seq![a, b, c], p.level) <==> {
            &&& in_range(p)
            &&& in_range(p.apply(a))
            &&& in_range(p.apply(a).apply(b))
            &&& in_range(p.apply(a).apply(b).apply(c))
        },
{
    lemma_then(p, seq![a, b], seq![c]);
    assert(seq![a, b] + seq![c] =~= seq![a, b, c]);
    lemma_run_two(p, a, b);
    lemma_run_one(p.apply(a).apply(b), c);
}

} // verus!
