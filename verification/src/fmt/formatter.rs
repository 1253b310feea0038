//! The formatter.

use vstd::prelude::*;
use vstd::string::{StrSliceExecFns, StringExecFns};

use crate::fmt::plan;
use crate::fmt::plan::{EditView, Printer};
use crate::fmt::syntax::{NodeOrToken, SyntaxKind, SyntaxNode, SyntaxToken};

verus! {

/// What becomes of a token, in the order in which the tokens are to be written.
#[derive(Debug)]
pub enum TokenEdit {
    /// Write the token as it is.
    NoChange(SyntaxToken),
    /// Write the text in place of the token.
    WithNewContent(SyntaxToken, String),
    /// Write the text, then the token.
    InsertBefore(SyntaxToken, String),
    /// Write nothing: the tree is not as expected here. The element named by `found` stood in the
    /// place of one of the kind `expected` and is left out, or no element was left.
    Inconsistency { expected: SyntaxKind, found: Option<usize> },
}

impl View for TokenEdit {
    type V = EditView;

    open spec fn view(&self) -> EditView {
        match self {
            TokenEdit::NoChange(t) => EditView::NoChange(*t),
            TokenEdit::WithNewContent(t, text) => EditView::WithNewContent(*t, text@),
            TokenEdit::InsertBefore(t, text) => EditView::InsertBefore(*t, text@),
            TokenEdit::Inconsistency { expected, found } => EditView::Inconsistency {
                expected: *expected,
                found: *found,
            },
        }
    }
}

/// The edits of a list, as mathematical values.
pub open spec fn views(edits: Seq<TokenEdit>) -> Seq<EditView> {
    edits.map_values(|e: TokenEdit| e@)
}

/// The state of the formatter between two tokens.
#[derive(Debug)]
pub struct FormatState {
    /// The whitespace has been written, all further whitespace can be skipped.
    pub skip_all_whitespace: bool,
    /// The whitespace to add before the next token.
    pub whitespace_to_add: Option<String>,
    /// The level of indentation.
    pub indentation_level: u32,
}

impl Default for FormatState {
    fn default() -> (state: FormatState)
        ensures
            state.printer(Seq::empty()) == Printer::start(),
    {
        FormatState { skip_all_whitespace: false, whitespace_to_add: None, indentation_level: 0 }
    }
}

impl FormatState {
    /// The state as a printer that has made the given edits.
    pub open spec fn printer(self, edits: Seq<EditView>) -> Printer {
        Printer {
            skip: self.skip_all_whitespace,
            pending: match self.whitespace_to_add {
                Some(text) => Some(text@),
                None => None,
            },
            level: self.indentation_level as int,
            edits,
        }
    }

    /// Put the next token on a new line.
    pub fn new_line(&mut self)
        ensures
            final(self).indentation_level == old(self).indentation_level,
            forall|edits: Seq<EditView>| #[trigger]
                final(self).printer(edits) == old(self).printer(edits).new_line(),
    {
        self.skip_all_whitespace = true;
        let mut new_line: String = String::from_str("\n");
        proof {
            reveal_strlit("\n");
            assert("\n"@ =~= seq!['\n']);
        }
        if let Some(text) = self.whitespace_to_add.take() {
            new_line.append(text.as_str());
            self.whitespace_to_add = Some(new_line);
            return;
        }
        let mut i: u32 = 0;
        assert(new_line@ =~= plan::line_start(0));
        while i < self.indentation_level
            invariant
                i <= self.indentation_level,
                new_line@ == plan::line_start(i as int),
                *self == (FormatState {
                    skip_all_whitespace: true,
                    whitespace_to_add: None,
                    ..*old(self)
                }),
            decreases self.indentation_level - i,
        {
            new_line.append("    ");
            proof {
                reveal_strlit("    ");
                assert(new_line@ =~= plan::line_start(i + 1));
            }
            i = i + 1;
        }
        self.whitespace_to_add = Some(new_line);
    }
}

/// Whether a step from one printer to another followed the operations: it succeeds if and only if
/// the level of indentation stays a `u32`, and then the operations have been run.
pub open spec fn follows(before: Printer, after: Printer, success: bool, ops: Seq<plan::Op>) -> bool {
    &&& success <==> plan::fits(ops, before.level)
    &&& success ==> after == before.run(ops)
}

/// The level of indentation would be no `u32`.
#[derive(Clone, Copy, Debug, PartialEq, Eq, Structural)]
pub struct IndentationRange;

fn write_token(t: SyntaxToken, writer: &mut Vec<TokenEdit>, state: &mut FormatState)
    ensures
        final(state).printer(views(final(writer)@)) == old(state).printer(
            views(old(writer)@),
        ).token(t),
{
    if t.kind == SyntaxKind::Whitespace {
        if state.skip_all_whitespace {
            writer.push(TokenEdit::WithNewContent(t, String::new()));
        } else {
            writer.push(TokenEdit::NoChange(t));
        }
    } else {
        state.skip_all_whitespace = false;
        if let Some(x) = state.whitespace_to_add.take() {
            writer.push(TokenEdit::InsertBefore(t, x));
        } else {
            writer.push(TokenEdit::NoChange(t));
        }
    }
    proof {
        assert(views(writer@) =~= views(old(writer)@).push(writer@.last()@));
    }
}

fn fold(
    n: &NodeOrToken,
    writer: &mut Vec<TokenEdit>,
    state: &mut FormatState,
) -> (r: Result<(), IndentationRange>)
    ensures
        follows(
            old(state).printer(views(old(writer)@)),
            final(state).printer(views(final(writer)@)),
            r is Ok,
            plan::layout(*n),
        ),
    decreases n, 0int,
{
    match n {
        NodeOrToken::Node(n) => format_node(n, writer, state),
        NodeOrToken::Token(t) => {
            write_token(*t, writer, state);
            proof {
                plan::lemma_run_one(
                    old(state).printer(views(old(writer)@)),
                    plan::Op::Token(*t),
                );
            }
            Ok(())
        },
    }
}

/// Put `arg` before the next token, in place of the whitespace that stands there.
fn gap(state: &mut FormatState, arg: &str)
    ensures
        final(state).indentation_level == old(state).indentation_level,
        forall|edits: Seq<EditView>| #[trigger]
            final(state).printer(edits) == old(state).printer(edits).gap(arg@),
{
    state.skip_all_whitespace = true;
    if arg.unicode_len() != 0 {
        let text = match state.whitespace_to_add.take() {
            Some(mut ws) => {
                ws.append(arg);
                ws
            },
            None => String::from_str(arg),
        };
        state.whitespace_to_add = Some(text);
    }
}

/// Write the children up to the next one of the kind `element`, with `arg` before the first of
/// them in place of whitespace. Tells whether that kind came next.
fn whitespace_to(
    children: &Vec<NodeOrToken>,
    sub: &mut usize,
    element: SyntaxKind,
    writer: &mut Vec<TokenEdit>,
    state: &mut FormatState,
    arg: &str,
) -> (r: Result<bool, IndentationRange>)
    requires
        *old(sub) <= children.len(),
    ensures
        follows(
            old(state).printer(views(old(writer)@)),
            final(state).printer(views(final(writer)@)),
            r is Ok,
            plan::to_next(
                children@,
                plan::layouts(children@, children@.len() as int),
                *old(sub) as int,
                element,
                arg@,
            ),
        ),
        r matches Ok(found) ==> {
            &&& *final(sub) == plan::after_next(children@, *old(sub) as int)
            &&& *final(sub) <= children.len()
            &&& found == plan::is_next(children@, *old(sub) as int, element)
        },
    decreases children, 1int,
{
    let from: usize = *sub;
    let ghost before = state.printer(views(writer@));
    let ghost parts = plan::layouts(children@, children@.len() as int);
    let ghost first = seq![plan::Op::Gap(arg@)];
    let ghost all = plan::to_next(children@, parts, from as int, element, arg@);
    gap(state, arg);
    let mut i: usize = from;
    proof {
        plan::lemma_layouts(children@, children@.len() as int);
        plan::lemma_run_one(before, plan::Op::Gap(arg@));
        assert(first + plan::join(parts, from as int, from as int) =~= first);
    }
    while i < children.len()
        invariant
            from <= i <= children.len(),
            before == old(state).printer(views(old(writer)@)),
            first == seq![plan::Op::Gap(arg@)],
            parts == plan::layouts(children@, children@.len() as int),
            parts.len() == children.len(),
            forall|k: int|
                0 <= k < parts.len() ==> #[trigger] parts[k] == plan::layout(children@[k]),
            from == *old(sub),
            all == plan::to_next(children@, parts, from as int, element, arg@),
            plan::next_solid(children@, from as int) == plan::next_solid(children@, i as int),
            follows(
                before,
                state.printer(views(writer@)),
                true,
                first + plan::join(parts, from as int, i as int),
            ),
        decreases children.len() - i,
    {
        let n = &children[i];
        let kind = n.kind();
        let ghost done = first + plan::join(parts, from as int, i as int);
        if kind == SyntaxKind::Whitespace || kind == SyntaxKind::Comment {
            let r = fold(n, writer, state);
            proof {
                let next = first + plan::join(parts, from as int, i + 1);
                assert(next =~= done + parts[i as int]);
                plan::lemma_then(before, done, parts[i as int]);
                if r is Err {
                    plan::lemma_next_solid(children@, i + 1);
                    plan::lemma_to_next_prefix(children@, parts, from as int, element, arg@, i + 1);
                    plan::lemma_fits_prefix(next, all, before.level);
                }
            }
            r?;
            i = i + 1;
        } else if kind == element {
            let r = fold(n, writer, state);
            proof {
                plan::lemma_then(before, done, parts[i as int]);
            }
            r?;
            *sub = i + 1;
            return Ok(true);
        } else {
            let found: usize = n.id();
            let ghost middle = state.printer(views(writer@));
            let ghost was = writer@;
            writer.push(TokenEdit::Inconsistency { expected: element, found: Some(found) });
            proof {
                assert(views(writer@) =~= views(was).push(writer@.last()@));
                let op = plan::Op::Inconsistency { expected: element, found: Some(*n) };
                plan::lemma_run_one(middle, op);
                plan::lemma_then(before, done, seq![op]);
                assert(done + seq![op] =~= done.push(op));
            }
            *sub = i + 1;
            return Ok(false);
        }
    }
    let ghost done = first + plan::join(parts, from as int, i as int);
    let ghost middle = state.printer(views(writer@));
    let ghost was = writer@;
    writer.push(TokenEdit::Inconsistency { expected: element, found: None });
    proof {
        assert(views(writer@) =~= views(was).push(writer@.last()@));
        let op = plan::Op::Inconsistency { expected: element, found: None };
        plan::lemma_run_one(middle, op);
        plan::lemma_then(before, done, seq![op]);
        assert(done + seq![op] =~= done.push(op));
    }
    *sub = i;
    Ok(false)
}

/// The kinds of a head with the texts before them, as mathematical values.
pub open spec fn head_view(kinds: Seq<(SyntaxKind, &'static str)>) -> Seq<(SyntaxKind, Seq<char>)> {
    kinds.map_values(|k: (SyntaxKind, &'static str)| (k.0, k.1@))
}

/// Write the children that make the head of a node: one of each of the given kinds, in that order,
/// up to the first kind that is not in its place. Gives the number of children read, and whether
/// every kind was in its place.
fn format_head(
    children: &Vec<NodeOrToken>,
    kinds: &[(SyntaxKind, &'static str)],
    writer: &mut Vec<TokenEdit>,
    state: &mut FormatState,
) -> (r: Result<(usize, bool), IndentationRange>)
    ensures
        follows(
            old(state).printer(views(old(writer)@)),
            final(state).printer(views(final(writer)@)),
            r is Ok,
            plan::head(
                children@,
                plan::layouts(children@, children@.len() as int),
                head_view(kinds@),
            ).ops,
        ),
        r matches Ok((rest, complete)) ==> ({
            let h = plan::head(
                children@,
                plan::layouts(children@, children@.len() as int),
                head_view(kinds@),
            );
            &&& rest == h.rest
            &&& rest <= children.len()
            &&& complete == h.complete
        }),
    decreases children, 2int,
{
    let ghost before = state.printer(views(writer@));
    let ghost parts = plan::layouts(children@, children@.len() as int);
    let ghost view = head_view(kinds@);
    let ghost all = plan::head(children@, parts, view);
    let mut sub: usize = 0;
    let mut i: usize = 0;
    proof {
        plan::lemma_run_none(before);
        assert(view.take(0) =~= Seq::empty());
    }
    while i < kinds.len()
        invariant
            i <= kinds.len(),
            sub <= children.len(),
            before == old(state).printer(views(old(writer)@)),
            parts == plan::layouts(children@, children@.len() as int),
            view == head_view(kinds@),
            all == plan::head(children@, parts, view),
            sub == plan::head(children@, parts, view.take(i as int)).rest,
            plan::head(children@, parts, view.take(i as int)).complete,
            follows(
                before,
                state.printer(views(writer@)),
                true,
                plan::head(children@, parts, view.take(i as int)).ops,
            ),
        decreases kinds.len() - i,
    {
        let ghost done = plan::head(children@, parts, view.take(i as int));
        let ghost next = plan::head(children@, parts, view.take(i + 1));
        let (element, arg) = kinds[i];
        let ghost added = plan::to_next(children@, parts, sub as int, element, arg@);
        let r = whitespace_to(children, &mut sub, element, writer, state, arg);
        proof {
            assert(view.take(i + 1).drop_last() =~= view.take(i as int));
            assert(view.take(i + 1).last() == (element, arg@));
            plan::lemma_then(before, done.ops, added);
            plan::lemma_head_prefix(children@, parts, view, i + 1);
            plan::lemma_fits_prefix(next.ops, all.ops, before.level);
        }
        let found = r?;
        if !found {
            return Ok((sub, false));
        }
        i = i + 1;
    }
    proof {
        assert(view.take(i as int) =~= view);
    }
    Ok((sub, true))
}

fn format_component(
    node: &SyntaxNode,
    writer: &mut Vec<TokenEdit>,
    state: &mut FormatState,
) -> (r: Result<(), IndentationRange>)
    requires
        node.kind == SyntaxKind::Component,
    ensures
        follows(
            old(state).printer(views(old(writer)@)),
            final(state).printer(views(final(writer)@)),
            r is Ok,
            plan::node_layout(*node),
        ),
    decreases node, 1int,
{
    let kinds = [
        (SyntaxKind::DeclaredIdentifier, ""),
        (SyntaxKind::ColonEqual, " "),
        (SyntaxKind::Element, " "),
    ];
    proof {
        reveal_strlit("");
        reveal_strlit(" ");
        assert(""@ =~= plan::nothing());
        assert(" "@ =~= plan::space());
        assert(head_view(kinds@) =~= plan::component_head());
    }
    let ghost before = state.printer(views(writer@));
    let ghost parts = plan::layouts(node.children@, node.children@.len() as int);
    let ghost h = plan::head(node.children@, parts, plan::component_head());
    let ghost rest = plan::join(parts, h.rest, node.children@.len() as int);
    proof {
        plan::lemma_then(before, h.ops, rest);
        plan::lemma_then(before, h.ops + rest, seq![plan::Op::NewLine]);
    }
    let (sub, _ok) = format_head(&node.children, &kinds, writer, state)?;
    finish_node(&node.children, sub, writer, state)?;
    proof {
        plan::lemma_run_one(state.printer(views(writer@)), plan::Op::NewLine);
    }
    state.new_line();
    Ok(())
}

/// Write the children of an element behind its opening brace.
fn format_element_body(
    children: &Vec<NodeOrToken>,
    from: usize,
    writer: &mut Vec<TokenEdit>,
    state: &mut FormatState,
) -> (r: Result<(), IndentationRange>)
    requires
        from <= children.len(),
    ensures
        follows(
            old(state).printer(views(old(writer)@)),
            final(state).printer(views(final(writer)@)),
            r is Ok,
            plan::element_body(
                children@,
                plan::layouts(children@, children@.len() as int),
                from as int,
                children@.len() as int,
            ),
        ),
    decreases children, 1int,
{
    let ghost before = state.printer(views(writer@));
    let ghost len = children@.len() as int;
    let ghost parts = plan::layouts(children@, len);
    let ghost all = plan::element_body(children@, parts, from as int, len);
    let mut i: usize = from;
    proof {
        plan::lemma_layouts(children@, len);
        plan::lemma_run_none(before);
    }
    while i < children.len()
        invariant
            from <= i <= children.len(),
            len == children@.len(),
            before == old(state).printer(views(old(writer)@)),
            parts == plan::layouts(children@, len),
            parts.len() == len,
            forall|k: int|
                0 <= k < parts.len() ==> #[trigger] parts[k] == plan::layout(children@[k]),
            all == plan::element_body(children@, parts, from as int, len),
            follows(
                before,
                state.printer(views(writer@)),
                true,
                plan::element_body(children@, parts, from as int, i as int),
            ),
        decreases children.len() - i,
    {
        let n = &children[i];
        let ghost done = plan::element_body(children@, parts, from as int, i as int);
        let ghost next = plan::element_body(children@, parts, from as int, i + 1);
        let ghost p0 = state.printer(views(writer@));
        let ghost part = parts[i as int];
        proof {
            plan::lemma_body_prefix(children@, parts, from as int, i + 1, len);
            plan::lemma_fits_prefix(next, all, before.level);
        }
        if n.kind() == SyntaxKind::RBrace {
            let ghost open = seq![plan::Op::Dedent, plan::Op::Forget, plan::Op::NewLine];
            let ghost close = seq![plan::Op::NewLine];
            proof {
                plan::lemma_then(before, done, open + part + close);
                plan::lemma_then(p0, open + part, close);
                plan::lemma_then(p0, open, part);
                plan::lemma_run_three(p0, plan::Op::Dedent, plan::Op::Forget, plan::Op::NewLine);
            }
            if state.indentation_level == 0 {
                return Err(IndentationRange);
            }
            state.indentation_level = state.indentation_level - 1;
            state.whitespace_to_add = None;
            state.new_line();
            fold(n, writer, state)?;
            proof {
                plan::lemma_run_one(state.printer(views(writer@)), plan::Op::NewLine);
            }
            state.new_line();
        } else {
            proof {
                plan::lemma_then(before, done, part);
            }
            fold(n, writer, state)?;
        }
        i = i + 1;
    }
    Ok(())
}

fn format_element(
    node: &SyntaxNode,
    writer: &mut Vec<TokenEdit>,
    state: &mut FormatState,
) -> (r: Result<(), IndentationRange>)
    requires
        node.kind == SyntaxKind::Element,
    ensures
        follows(
            old(state).printer(views(old(writer)@)),
            final(state).printer(views(final(writer)@)),
            r is Ok,
            plan::node_layout(*node),
        ),
    decreases node, 1int,
{
    let kinds = [(SyntaxKind::QualifiedName, ""), (SyntaxKind::LBrace, " ")];
    proof {
        reveal_strlit("");
        reveal_strlit(" ");
        assert(""@ =~= plan::nothing());
        assert(" "@ =~= plan::space());
        assert(head_view(kinds@) =~= plan::element_head());
    }
    let ghost before = state.printer(views(writer@));
    let ghost len = node.children@.len() as int;
    let ghost parts = plan::layouts(node.children@, len);
    let ghost h = plan::head(node.children@, parts, plan::element_head());
    let ghost indent = seq![plan::Op::Indent, plan::Op::NewLine];
    proof {
        plan::lemma_then(before, h.ops, plan::join(parts, h.rest, len));
        plan::lemma_then(before, h.ops, indent);
        plan::lemma_then(
            before,
            h.ops + indent,
            plan::element_body(node.children@, parts, h.rest, len),
        );
    }
    let (sub, complete) = format_head(&node.children, &kinds, writer, state)?;
    if !complete {
        return finish_node(&node.children, sub, writer, state);
    }
    proof {
        plan::lemma_run_two(
            state.printer(views(writer@)),
            plan::Op::Indent,
            plan::Op::NewLine,
        );
    }
    if state.indentation_level == u32::MAX {
        return Err(IndentationRange);
    }
    state.indentation_level = state.indentation_level + 1;
    state.new_line();
    format_element_body(&node.children, sub, writer, state)
}

fn format_property_declaration(
    node: &SyntaxNode,
    writer: &mut Vec<TokenEdit>,
    state: &mut FormatState,
) -> (r: Result<(), IndentationRange>)
    requires
        node.kind == SyntaxKind::PropertyDeclaration,
    ensures
        follows(
            old(state).printer(views(old(writer)@)),
            final(state).printer(views(final(writer)@)),
            r is Ok,
            plan::node_layout(*node),
        ),
    decreases node, 1int,
{
    let kinds = [
        (SyntaxKind::Identifier, ""),
        (SyntaxKind::LAngle, " "),
        (SyntaxKind::Type, ""),
        (SyntaxKind::RAngle, ""),
        (SyntaxKind::DeclaredIdentifier, " "),
    ];
    proof {
        reveal_strlit("");
        reveal_strlit(" ");
        assert(""@ =~= plan::nothing());
        assert(" "@ =~= plan::space());
        assert(head_view(kinds@) =~= plan::property_head());
    }
    let ghost before = state.printer(views(writer@));
    let ghost len = node.children@.len() as int;
    let ghost parts = plan::layouts(node.children@, len);
    let ghost h = plan::head(node.children@, parts, plan::property_head());
    let ghost tight = seq![plan::Op::Gap(plan::nothing())];
    let ghost rest = plan::join(parts, h.rest, len);
    proof {
        plan::lemma_then(before, h.ops, tight);
        plan::lemma_then(before, h.ops + tight, rest);
        plan::lemma_then(before, h.ops + tight + rest, seq![plan::Op::NewLine]);
    }
    let (sub, _ok) = format_head(&node.children, &kinds, writer, state)?;
    proof {
        plan::lemma_run_one(state.printer(views(writer@)), plan::Op::Gap(plan::nothing()));
    }
    state.skip_all_whitespace = true;
    finish_node(&node.children, sub, writer, state)?;
    proof {
        plan::lemma_run_one(state.printer(views(writer@)), plan::Op::NewLine);
    }
    state.new_line();
    Ok(())
}

fn format_binding(
    node: &SyntaxNode,
    writer: &mut Vec<TokenEdit>,
    state: &mut FormatState,
) -> (r: Result<(), IndentationRange>)
    requires
        node.kind == SyntaxKind::Binding,
    ensures
        follows(
            old(state).printer(views(old(writer)@)),
            final(state).printer(views(final(writer)@)),
            r is Ok,
            plan::node_layout(*node),
        ),
    decreases node, 1int,
{
    let kinds = [
        (SyntaxKind::Identifier, ""),
        (SyntaxKind::Colon, ""),
        (SyntaxKind::BindingExpression, " "),
    ];
    proof {
        reveal_strlit("");
        reveal_strlit(" ");
        assert(""@ =~= plan::nothing());
        assert(" "@ =~= plan::space());
        assert(head_view(kinds@) =~= plan::binding_head());
    }
    let ghost before = state.printer(views(writer@));
    let ghost len = node.children@.len() as int;
    let ghost parts = plan::layouts(node.children@, len);
    let ghost h = plan::head(node.children@, parts, plan::binding_head());
    let ghost rest = plan::join(parts, h.rest, len);
    proof {
        plan::lemma_then(before, h.ops, rest);
        plan::lemma_then(before, h.ops + rest, seq![plan::Op::NewLine]);
    }
    let (sub, _ok) = format_head(&node.children, &kinds, writer, state)?;
    finish_node(&node.children, sub, writer, state)?;
    proof {
        plan::lemma_run_one(state.printer(views(writer@)), plan::Op::NewLine);
    }
    state.new_line();
    Ok(())
}

fn format_node(
    node: &SyntaxNode,
    writer: &mut Vec<TokenEdit>,
    state: &mut FormatState,
) -> (r: Result<(), IndentationRange>)
    ensures
        follows(
            old(state).printer(views(old(writer)@)),
            final(state).printer(views(final(writer)@)),
            r is Ok,
            plan::node_layout(*node),
        ),
    decreases node, 2int,
{
    match node.kind {
        SyntaxKind::Component => format_component(node, writer, state),
        SyntaxKind::Element => format_element(node, writer, state),
        SyntaxKind::PropertyDeclaration => format_property_declaration(node, writer, state),
        SyntaxKind::Binding => format_binding(node, writer, state),
        _ => finish_node(&node.children, 0, writer, state),
    }
}

/// The edits that format a document.
pub open spec fn formatted(doc: SyntaxNode) -> Seq<EditView> {
    Printer::start().run(plan::node_layout(doc)).edits
}

/// Whether the level of indentation is a `u32` all through the document.
pub open spec fn indentation_fits(doc: SyntaxNode) -> bool {
    plan::fits(plan::node_layout(doc), 0)
}

/// Format a document: gives what is to be written, token by token, or nothing where the level of
/// indentation would be no `u32`.
pub fn try_format_document(doc: &SyntaxNode) -> (edits: Option<Vec<TokenEdit>>)
    ensures
        edits is Some <==> indentation_fits(*doc),
        edits matches Some(edits) ==> views(edits@) == formatted(*doc),
{
    let mut writer: Vec<TokenEdit> = Vec::new();
    let mut state = FormatState::default();
    proof {
        assert(views(writer@) =~= Seq::empty());
    }
    match format_node(doc, &mut writer, &mut state) {
        Ok(()) => Some(writer),
        Err(_) => None,
    }
}

/// Format a document: gives what is to be written, token by token.
pub fn format_document(doc: &SyntaxNode) -> (edits: Vec<TokenEdit>)
    requires
        indentation_fits(*doc),
    ensures
        views(edits@) == formatted(*doc),
{
    match try_format_document(doc) {
        Some(edits) => edits,
        None => Vec::new(),
    }
}

fn finish_node(
    children: &Vec<NodeOrToken>,
    from: usize,
    writer: &mut Vec<TokenEdit>,
    state: &mut FormatState,
) -> (r: Result<(), IndentationRange>)
    requires
        from <= children.len(),
    ensures
        follows(
            old(state).printer(views(old(writer)@)),
            final(state).printer(views(final(writer)@)),
            r is Ok,
            plan::join(plan::layouts(children@, children@.len() as int), from as int, children@.len() as int),
        ),
    decreases children, 1int,
{
    let mut i: usize = from;
    let ghost before = state.printer(views(writer@));
    let ghost parts = plan::layouts(children@, children@.len() as int);
    proof {
        plan::lemma_layouts(children@, children@.len() as int);
        plan::lemma_run_none(before);
    }
    while i < children.len()
        invariant
            from <= i <= children.len(),
            before == old(state).printer(views(old(writer)@)),
            parts == plan::layouts(children@, children@.len() as int),
            parts.len() == children.len(),
            forall|k: int| 0 <= k < parts.len() ==> #[trigger] parts[k] == plan::layout(children@[k]),
            follows(before, state.printer(views(writer@)), true, plan::join(parts, from as int, i as int)),
        decreases children.len() - i,
    {
        let ghost middle = state.printer(views(writer@));
        let r = fold(&children[i], writer, state);
        proof {
            plan::lemma_then(before, plan::join(parts, from as int, i as int), parts[i as int]);
            if r is Err {
                plan::lemma_join_split(parts, from as int, i + 1, children.len() as int);
                plan::lemma_fits_append(plan::join(parts, from as int, i + 1), plan::join(parts, i + 1, children.len() as int), before.level);
            }
        }
        r?;
        i = i + 1;
    }
    Ok(())
}

} // verus!
