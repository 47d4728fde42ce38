//! Python syntax trees: the `tree-sitter` parser, and the library's own copy
//! of the parts of a tree that the checks read.

use vstd::prelude::*;

use crate::text::{byte_slice, is_boundary, str_byte_slice, valid_byte_range};

verus! {

#[verifier::external_type_specification]
#[verifier::external_body]
pub struct ExParser(tree_sitter::Parser);

#[verifier::external_type_specification]
#[verifier::external_body]
pub struct ExLanguageError(tree_sitter::LanguageError);

/// A node of a syntax tree: its kind, its byte range in the source, the row
/// and column where it starts, and its children in order.
pub struct SyntaxNode {
    pub kind: String,
    pub start_byte: usize,
    pub end_byte: usize,
    pub start_row: usize,
    pub start_column: usize,
    pub children: Vec<SyntaxNode>,
}

/// Every node of the tree covers whole characters of `source`, and its row
/// can be numbered from one.
pub open spec fn spans_valid(n: SyntaxNode, source: Seq<char>) -> bool
    decreases n, 0int,
{
    &&& valid_byte_range(source, n.start_byte as int, n.end_byte as int)
    &&& n.start_row < usize::MAX
    &&& children_spans_valid(n.children@, n.children@.len() as int, source)
}

/// The first `k` children pass `spans_valid`.
pub open spec fn children_spans_valid(cs: Seq<SyntaxNode>, k: int, source: Seq<char>) -> bool
    decreases cs, k,
{
    if k <= 0 || k > cs.len() {
        true
    } else {
        children_spans_valid(cs, k - 1, source) && spans_valid(cs[k - 1], source)
    }
}

/// The source text that a node covers.
pub open spec fn node_text(n: SyntaxNode, source: Seq<char>) -> Seq<char> {
    byte_slice(source, n.start_byte as int, n.end_byte as int)
}

/// The first `k` children pass `spans_valid` exactly when each of them does.
pub proof fn lemma_children_spans_valid(cs: Seq<SyntaxNode>, k: int, source: Seq<char>)
    requires
        0 <= k <= cs.len(),
    ensures
        children_spans_valid(cs, k, source) <==> forall|i: int| 0 <= i < k ==> spans_valid(#[trigger] cs[i], source),
    decreases k,
{
    if k > 0 {
        lemma_children_spans_valid(cs, k - 1, source);
    }
}

/// Whether `spans_valid` holds of `node` and `source`.
pub fn check_spans(node: &SyntaxNode, source: &str) -> (b: bool)
    ensures
        b == spans_valid(*node, source@),
    decreases node,
{
    let ok_range = node.start_byte <= node.end_byte && is_boundary(source, node.start_byte)
        && is_boundary(source, node.end_byte);
    if !ok_range {
        assert(!valid_byte_range(source@, node.start_byte as int, node.end_byte as int));
        return false;
    }
    if node.start_row == usize::MAX {
        assert(!(node.start_row < usize::MAX));
        assert(!spans_valid(*node, source@));
        return false;
    }
    let n = node.children.len();
    for i in 0..n
        invariant
            n == node.children@.len(),
            children_spans_valid(node.children@, i as int, source@),
    {
        assert(decreases_to!(node => node.children@[i as int]));
        if !check_spans(&node.children[i], source) {
            proof {
                lemma_children_spans_valid(node.children@, n as int, source@);
            }
            return false;
        }
    }
    true
}

/// The source text that `node` covers.
pub fn get_node_text<'a>(node: &SyntaxNode, source: &'a str) -> (r: &'a str)
    requires
        valid_byte_range(source@, node.start_byte as int, node.end_byte as int),
    ensures
        r@ == node_text(*node, source@),
{
    str_byte_slice(source, node.start_byte, node.end_byte)
}

/// A new `tree_sitter::Parser`, with no language set (`Parser::new`).
/// Nothing is claimed: a parser is opaque to this library.
#[verifier::external_body]
fn new_parser() -> tree_sitter::Parser {
    tree_sitter::Parser::new()
}

/// Sets the Python grammar of `tree_sitter_python::LANGUAGE` on the parser
/// with `Parser::set_language`. Claims success: the grammar's ABI version
/// (15, in tree-sitter-python's `parser.c`) lies in the range that
/// `set_language` accepts (13 to 15), and a generated grammar has a lexer, so
/// it is parseable.
#[verifier::external_body]
fn set_python_language(parser: &mut tree_sitter::Parser) -> (r: Result<(), tree_sitter::LanguageError>)
    ensures
        r is Ok,
{
    parser.set_language(&tree_sitter_python::LANGUAGE.into())
}

/// The text of a `tree_sitter::LanguageError`, as its `Display` prints it.
/// Nothing is claimed of the text.
#[verifier::external_body]
fn language_error_text(e: &tree_sitter::LanguageError) -> String {
    format!("{}", e)
}

/// The syntax tree that tree-sitter's Python grammar gives for `code`, copied
/// into `SyntaxNode`s: every node with its kind, byte range, start row and
/// column, and all its children in order (`None` when the parse fails). The
/// parse depends on the code alone: no timeout, cancellation or old tree is used.
pub uninterp spec fn python_syntax(code: Seq<char>) -> Option<SyntaxNode>;

/// Parses `code` with `Parser::parse` (no old tree) and copies the tree from
/// `Tree::root_node` down, with `Node::child`, `kind`, `start_byte`,
/// `end_byte` and `start_position`. Claims that the copy is the named parse of
/// `code`: a `PythonParser` is only built by `PythonParser::new`, which sets
/// the Python grammar.
#[verifier::external_body]
fn parse_python(parser: &mut PythonParser, code: &str) -> (r: Option<SyntaxNode>)
    ensures
        r == python_syntax(code@),
{
    let tree = parser.parser.parse(code, None)?;
    let mut stack = vec![(tree.root_node(), Vec::new())];
    loop {
        let (node, kids) = stack.last_mut()?;
        if let Some(child) = node.child(kids.len() as u32) {
            stack.push((child, Vec::new()));
            continue;
        }
        let (node, children) = stack.pop()?;
        let (p, kind) = (node.start_position(), node.kind().to_string());
        let copy = SyntaxNode { kind, start_byte: node.start_byte(), end_byte: node.end_byte(), start_row: p.row, start_column: p.column, children };
        let Some((_, kids)) = stack.last_mut() else { return Some(copy) };
        kids.push(copy);
    }
}

/// A parser for Python source.
pub struct PythonParser {
    parser: tree_sitter::Parser,
}

impl PythonParser {
    /// A parser set up with the Python grammar; setting it up always succeeds.
    pub fn new() -> (r: Result<Self, String>)
        ensures
            r is Ok,
    {
        let mut parser = new_parser();
        match set_python_language(&mut parser) {
            Ok(()) => Ok(PythonParser { parser }),
            Err(e) => {
                let mut msg = "Failed to set language: ".to_string();
                let text = language_error_text(&e);
                msg.append(text.as_str());
                Err(msg)
            },
        }
    }

    /// The syntax tree of `code`, as its root node; `None` when parsing fails.
    pub fn parse(&mut self, code: &str) -> (r: Option<SyntaxNode>)
        ensures
            r == python_syntax(code@),
    {
        parse_python(self, code)
    }
}

} // verus!
