use slint_logic::fmt::formatter::{format_document, try_format_document, FormatState, TokenEdit};
use slint_logic::fmt::syntax::{NodeOrToken, SyntaxKind, SyntaxNode, SyntaxToken};

/// Builds a tree, and keeps the texts of its tokens by their ids.
struct Doc {
    texts: Vec<String>,
}

impl Doc {
    fn new() -> Doc {
        Doc { texts: Vec::new() }
    }

    fn id(&mut self, text: &str) -> usize {
        self.texts.push(text.to_string());
        self.texts.len() - 1
    }

    fn tok(&mut self, kind: SyntaxKind, text: &str) -> NodeOrToken {
        let id = self.id(text);
        NodeOrToken::Token(SyntaxToken { kind, id })
    }

    fn ws(&mut self, text: &str) -> NodeOrToken {
        self.tok(SyntaxKind::Whitespace, text)
    }

    fn root(&mut self, kind: SyntaxKind, children: Vec<NodeOrToken>) -> SyntaxNode {
        let id = self.id("");
        SyntaxNode { kind, id, children }
    }

    fn node(&mut self, kind: SyntaxKind, children: Vec<NodeOrToken>) -> NodeOrToken {
        NodeOrToken::Node(self.root(kind, children))
    }

    fn text(&self, edits: &[TokenEdit]) -> String {
        let mut out = String::new();
        for edit in edits {
            match edit {
                TokenEdit::NoChange(t) => out.push_str(&self.texts[t.id]),
                TokenEdit::WithNewContent(_, text) => out.push_str(text),
                TokenEdit::InsertBefore(t, text) => {
                    out.push_str(text);
                    out.push_str(&self.texts[t.id]);
                }
                TokenEdit::Inconsistency { .. } => {}
            }
        }
        out
    }
}

const DOCUMENT: SyntaxKind = SyntaxKind::Other(1);
const SEMICOLON: SyntaxKind = SyntaxKind::Other(2);
const EXPRESSION: SyntaxKind = SyntaxKind::Other(3);
const EOF: SyntaxKind = SyntaxKind::Other(4);

fn binding(d: &mut Doc, name: &str, value: &str) -> NodeOrToken {
    let name = d.tok(SyntaxKind::Identifier, name);
    let a = d.ws("   ");
    let colon = d.tok(SyntaxKind::Colon, ":");
    let value = d.tok(EXPRESSION, value);
    let semi = d.tok(SEMICOLON, ";");
    let expression = d.node(SyntaxKind::BindingExpression, vec![value, semi]);
    d.node(SyntaxKind::Binding, vec![name, a, colon, expression])
}

fn element(d: &mut Doc, base: &str, body: Vec<NodeOrToken>) -> NodeOrToken {
    let base = d.tok(SyntaxKind::Identifier, base);
    let base = d.node(SyntaxKind::QualifiedName, vec![base]);
    let open = d.tok(SyntaxKind::LBrace, "{");
    let mut children = vec![base, open];
    children.extend(body);
    let blank = d.ws(" ");
    children.push(blank);
    let close = d.tok(SyntaxKind::RBrace, "}");
    children.push(close);
    d.node(SyntaxKind::Element, children)
}

fn component(d: &mut Doc, name: &str, element: NodeOrToken) -> NodeOrToken {
    let name = d.tok(SyntaxKind::Identifier, name);
    let name = d.node(SyntaxKind::DeclaredIdentifier, vec![name]);
    let a = d.ws("  ");
    let becomes = d.tok(SyntaxKind::ColonEqual, ":=");
    let b = d.ws("\n\n");
    d.node(SyntaxKind::Component, vec![name, a, becomes, b, element])
}

#[test]
fn formats_a_component() {
    let mut d = Doc::new();
    let x = binding(&mut d, "x", "10");
    let blank = d.ws("\n  ");
    let y = binding(&mut d, "y", "20");
    let e = element(&mut d, "Rectangle", vec![x, blank, y]);
    let c = component(&mut d, "Foo", e);
    let eof = d.tok(EOF, "");
    let doc = d.root(DOCUMENT, vec![c, eof]);
    let edits = format_document(&doc);
    assert_eq!(d.text(&edits), "Foo := Rectangle {\n    x: 10;\n    y: 20;\n}\n\n");
}

#[test]
fn indents_nested_elements() {
    let mut d = Doc::new();
    let x = binding(&mut d, "x", "1");
    let inner = element(&mut d, "Inner", vec![x]);
    let outer = element(&mut d, "Outer", vec![inner]);
    let c = component(&mut d, "A", outer);
    let doc = d.root(DOCUMENT, vec![c]);
    let edits = format_document(&doc);
    assert_eq!(d.text(&edits), "A := Outer {\n    Inner {\n        x: 1;\n    }\n}");
}

#[test]
fn formats_a_property_declaration() {
    let mut d = Doc::new();
    let property = d.tok(SyntaxKind::Identifier, "property");
    let open = d.tok(SyntaxKind::LAngle, "<");
    let a = d.ws(" ");
    let ty = d.tok(SyntaxKind::Identifier, "int");
    let ty = d.node(SyntaxKind::Type, vec![ty]);
    let b = d.ws(" ");
    let close = d.tok(SyntaxKind::RAngle, ">");
    let name = d.tok(SyntaxKind::Identifier, "foo");
    let name = d.node(SyntaxKind::DeclaredIdentifier, vec![name]);
    let c = d.ws("  ");
    let semi = d.tok(SEMICOLON, ";");
    let p = d.node(
        SyntaxKind::PropertyDeclaration,
        vec![property, open, a, ty, b, close, name, c, semi],
    );
    let next = d.tok(EXPRESSION, "next");
    let doc = d.root(DOCUMENT, vec![p, next]);
    let edits = format_document(&doc);
    assert_eq!(d.text(&edits), "property <int> foo;\nnext");
}

#[test]
fn keeps_other_nodes_as_they_are() {
    let mut d = Doc::new();
    let a = d.tok(EXPRESSION, "a");
    let blank = d.ws("  \n ");
    let b = d.tok(EXPRESSION, "b");
    let inner = d.node(EXPRESSION, vec![a, blank]);
    let doc = d.root(DOCUMENT, vec![inner, b]);
    let edits = format_document(&doc);
    assert_eq!(d.text(&edits), "a  \n b");
    assert!(edits.iter().all(|e| matches!(e, TokenEdit::NoChange(_))));
}

#[test]
fn comments_take_the_whitespace() {
    let mut d = Doc::new();
    let name = d.tok(SyntaxKind::Identifier, "x");
    let blank = d.ws(" ");
    let comment = d.tok(SyntaxKind::Comment, "/*c*/");
    let colon = d.tok(SyntaxKind::Colon, ":");
    let one = d.tok(SyntaxKind::Comment, "/*d*/");
    let other = d.ws("   ");
    let value = d.tok(EXPRESSION, "1");
    let expression = d.node(SyntaxKind::BindingExpression, vec![value]);
    let doc = d.root(
        SyntaxKind::Binding,
        vec![name, blank, comment, colon, one, other, expression],
    );
    let edits = format_document(&doc);
    assert_eq!(d.text(&edits), "x/*c*/: /*d*/   1");
}

#[test]
fn leaves_out_what_is_in_the_wrong_place() {
    let mut d = Doc::new();
    let name = d.tok(SyntaxKind::Identifier, "x");
    let wrong = d.tok(SEMICOLON, ";");
    let value = d.tok(EXPRESSION, "1");
    let doc = d.root(SyntaxKind::Binding, vec![name, wrong, value]);
    let edits = format_document(&doc);
    assert_eq!(d.text(&edits), "x1");
    assert!(matches!(
        edits[1],
        TokenEdit::Inconsistency { expected: SyntaxKind::Colon, found: Some(1) }
    ));
    assert_eq!(edits.len(), 3);
}

#[test]
fn tells_what_is_missing() {
    let mut d = Doc::new();
    let name = d.tok(SyntaxKind::Identifier, "x");
    let blank = d.ws(" ");
    let doc = d.root(SyntaxKind::Binding, vec![name, blank]);
    let edits = format_document(&doc);
    assert_eq!(d.text(&edits), "x");
    assert!(matches!(
        edits[2],
        TokenEdit::Inconsistency { expected: SyntaxKind::Colon, found: None }
    ));
}

#[test]
fn an_element_without_a_brace_is_not_indented() {
    let mut d = Doc::new();
    let base = d.tok(SyntaxKind::Identifier, "Rectangle");
    let base = d.node(SyntaxKind::QualifiedName, vec![base]);
    let e = d.node(SyntaxKind::Element, vec![base]);
    let next = d.tok(EXPRESSION, "next");
    let doc = d.root(DOCUMENT, vec![e, next]);
    let edits = format_document(&doc);
    assert_eq!(d.text(&edits), "Rectangle next");
    assert!(matches!(
        edits[1],
        TokenEdit::Inconsistency { expected: SyntaxKind::LBrace, found: None }
    ));
}

#[test]
fn a_second_closing_brace_is_refused_at_the_outermost_level() {
    let mut d = Doc::new();
    let extra = d.tok(SyntaxKind::RBrace, "}");
    let e = element(&mut d, "Rectangle", vec![extra]);
    let doc = d.root(DOCUMENT, vec![e]);
    assert!(try_format_document(&doc).is_none());
}

#[test]
fn a_second_closing_brace_passes_inside_an_open_element() {
    let mut d = Doc::new();
    let extra = d.tok(SyntaxKind::RBrace, "}");
    let inner = element(&mut d, "Inner", vec![extra]);
    let base = d.tok(SyntaxKind::Identifier, "Outer");
    let base = d.node(SyntaxKind::QualifiedName, vec![base]);
    let open = d.tok(SyntaxKind::LBrace, "{");
    let outer = d.node(SyntaxKind::Element, vec![base, open, inner]);
    let doc = d.root(DOCUMENT, vec![outer]);
    let edits = try_format_document(&doc).unwrap();
    assert_eq!(d.text(&edits), "Outer {\n    Inner {\n    }\n}");
}

#[test]
fn every_token_is_written_once_and_in_order() {
    let mut d = Doc::new();
    let x = binding(&mut d, "x", "10");
    let e = element(&mut d, "Rectangle", vec![x]);
    let c = component(&mut d, "Foo", e);
    let doc = d.root(DOCUMENT, vec![c]);
    let mut tokens = Vec::new();
    fn collect(n: &SyntaxNode, tokens: &mut Vec<SyntaxToken>) {
        for c in &n.children {
            match c {
                NodeOrToken::Node(n) => collect(n, tokens),
                NodeOrToken::Token(t) => tokens.push(*t),
            }
        }
    }
    collect(&doc, &mut tokens);
    let written: Vec<SyntaxToken> = format_document(&doc)
        .iter()
        .map(|e| match e {
            TokenEdit::NoChange(t) => *t,
            TokenEdit::WithNewContent(t, text) => {
                assert_eq!(t.kind, SyntaxKind::Whitespace);
                assert_eq!(text, "");
                *t
            }
            TokenEdit::InsertBefore(t, text) => {
                assert!(t.kind != SyntaxKind::Whitespace);
                assert!(!text.is_empty() && text.chars().all(|c| c == ' ' || c == '\n'));
                *t
            }
            TokenEdit::Inconsistency { .. } => panic!("the document is consistent"),
        })
        .collect();
    assert_eq!(written, tokens);
}

#[test]
fn a_new_line_is_indented() {
    let mut state =
        FormatState { skip_all_whitespace: false, whitespace_to_add: None, indentation_level: 2 };
    state.new_line();
    assert!(state.skip_all_whitespace);
    assert_eq!(state.whitespace_to_add.as_deref(), Some("\n        "));
    assert_eq!(state.indentation_level, 2);
}

#[test]
fn a_second_new_line_leaves_an_empty_line() {
    let mut state = FormatState::default();
    state.new_line();
    assert_eq!(state.whitespace_to_add.as_deref(), Some("\n"));
    state.whitespace_to_add = Some("\n    ".to_string());
    state.new_line();
    assert_eq!(state.whitespace_to_add.as_deref(), Some("\n\n    "));
}

#[test]
fn kinds_and_ids_of_children() {
    let mut d = Doc::new();
    let token = d.tok(SyntaxKind::Colon, ":");
    assert_eq!((token.kind(), token.id()), (SyntaxKind::Colon, 0));
    let node = d.node(SyntaxKind::Type, vec![token]);
    assert_eq!((node.kind(), node.id()), (SyntaxKind::Type, 1));
}
