//! Concrete syntax trees, as the parsers read them.
//!
//! A `SyntaxNode` holds, as plain values, what the language adapters read of
//! a tree-sitter node: its kind, whether it is named, the field it fills in
//! its parent, its source text and line, whether it contains a syntax error,
//! and its children. The grammars themselves run in tree-sitter; the
//! functions at the end of this file hand its trees over in this form.
use crate::text::str_eq;
use vstd::prelude::*;

verus! {

/// One node of a concrete syntax tree.
#[derive(Debug)]
pub struct SyntaxNode {
    /// The grammar's name for the node (`"identifier"`, `"if_statement"`, ...).
    pub kind: String,
    /// Named nodes stand for grammar rules; anonymous ones for literal tokens.
    pub named: bool,
    /// The field name this node fills in its parent, if any.
    pub field: Option<String>,
    /// The source text the node spans.
    pub text: String,
    /// The 0-based row where the node starts.
    pub row: usize,
    /// The byte offsets in the source where the node starts and ends.
    pub start_byte: usize,
    pub end_byte: usize,
    /// Whether the node is, or contains, a syntax error.
    pub has_error: bool,
    /// All children (named and anonymous), in source order.
    pub children: Vec<SyntaxNode>,
}

/// What running a grammar on some source gives.
#[derive(Debug)]
pub enum TreeOutcome {
    /// The grammar could not be loaded into the parser; the message says why.
    GrammarRejected(String),
    /// The parser produced no tree.
    NoTree,
    /// The root of the syntax tree.
    Parsed(SyntaxNode),
}

/// Position in `c` of the first named node at or after `k` that has `count`
/// named nodes before it counting from `k` with `seen` already counted, or -1.
pub open spec fn named_index_from(c: Seq<SyntaxNode>, i: int, k: int, seen: int) -> int
    decreases c.len() - k,
{
    if k < 0 || k >= c.len() {
        -1
    } else if c[k].named {
        if seen == i {
            k
        } else {
            named_index_from(c, i, k + 1, seen + 1)
        }
    } else {
        named_index_from(c, i, k + 1, seen)
    }
}

/// The `i`-th named child of `n` (0-based), if it has that many.
pub open spec fn named_child(n: SyntaxNode, i: int) -> Option<SyntaxNode> {
    let j = named_index_from(n.children@, i, 0, 0);
    if 0 <= j < n.children.len() {
        Some(n.children@[j])
    } else {
        None
    }
}

pub open spec fn named_count_from(c: Seq<SyntaxNode>, k: int) -> nat
    decreases c.len() - k,
{
    if k < 0 || k >= c.len() {
        0
    } else {
        named_count_from(c, k + 1) + if c[k].named {
            1nat
        } else {
            0nat
        }
    }
}

/// How many named children `n` has.
pub open spec fn named_child_count(n: SyntaxNode) -> nat {
    named_count_from(n.children@, 0)
}

/// Position in `c` of the first node at or after `k` that fills field `f`,
/// or -1.
pub open spec fn field_index_from(c: Seq<SyntaxNode>, f: Seq<char>, k: int) -> int
    decreases c.len() - k,
{
    if k < 0 || k >= c.len() {
        -1
    } else if c[k].field matches Some(name) && name@ == f {
        k
    } else {
        field_index_from(c, f, k + 1)
    }
}

/// The first child of `n` that fills field `f`.
pub open spec fn field_child(n: SyntaxNode, f: Seq<char>) -> Option<SyntaxNode> {
    let j = field_index_from(n.children@, f, 0);
    if 0 <= j < n.children.len() {
        Some(n.children@[j])
    } else {
        None
    }
}

/// Position in `c` of the first named node at or after `k` of kind `kind`,
/// or -1.
pub open spec fn kind_index_from(c: Seq<SyntaxNode>, kind: Seq<char>, k: int) -> int
    decreases c.len() - k,
{
    if k < 0 || k >= c.len() {
        -1
    } else if c[k].named && c[k].kind@ == kind {
        k
    } else {
        kind_index_from(c, kind, k + 1)
    }
}

/// The first named child of `n` of the given kind.
pub open spec fn child_of_kind(n: SyntaxNode, kind: Seq<char>) -> Option<SyntaxNode> {
    let j = kind_index_from(n.children@, kind, 0);
    if 0 <= j < n.children.len() {
        Some(n.children@[j])
    } else {
        None
    }
}

/// How many named nodes of kind `kind` there are in `c` from position `k` on.
pub open spec fn kind_count_from(c: Seq<SyntaxNode>, kind: Seq<char>, k: int) -> nat
    decreases c.len() - k,
{
    if k < 0 || k >= c.len() {
        0
    } else {
        kind_count_from(c, kind, k + 1) + if c[k].named && c[k].kind@ == kind {
            1nat
        } else {
            0nat
        }
    }
}

/// How many named children of kind `kind` the node has.
pub open spec fn count_of_kind(n: SyntaxNode, kind: Seq<char>) -> nat {
    kind_count_from(n.children@, kind, 0)
}

/// The 1-based line where the node starts.
pub open spec fn line_of(n: SyntaxNode) -> usize {
    if n.row < usize::MAX {
        (n.row + 1) as usize
    } else {
        n.row
    }
}

proof fn lemma_named_count_step(c: Seq<SyntaxNode>, k: int)
    requires
        0 <= k < c.len(),
    ensures
        named_count_from(c, k) == named_count_from(c, k + 1) + if c[k].named {
            1nat
        } else {
            0nat
        },
{
}

impl SyntaxNode {
    /// The `i`-th named child.
    pub fn named_child(&self, i: usize) -> (r: Option<&SyntaxNode>)
        ensures
            r matches Some(c) ==> named_child(*self, i as int) == Some(*c),
            r is None ==> named_child(*self, i as int) is None,
    {
        let ghost c = self.children@;
        let mut k: usize = 0;
        let mut seen: usize = 0;
        while k < self.children.len()
            invariant
                c == self.children@,
                0 <= k <= c.len(),
                seen <= k,
                named_index_from(c, i as int, 0, 0) == named_index_from(c, i as int, k as int, seen as int),
            decreases c.len() - k,
        {
            if self.children[k].named {
                if seen == i {
                    return Some(&self.children[k]);
                }
                seen = seen + 1;
            }
            k = k + 1;
        }
        None
    }

    /// The number of named children.
    pub fn named_child_count(&self) -> (n: usize)
        ensures
            n == named_child_count(*self),
    {
        let ghost c = self.children@;
        let mut k: usize = self.children.len();
        let mut count: usize = 0;
        while k > 0
            invariant
                c == self.children@,
                0 <= k <= c.len(),
                count == named_count_from(c, k as int),
                count <= c.len() - k,
                c.len() == self.children.len(),
            decreases k,
        {
            proof {
                lemma_named_count_step(c, k - 1);
            }
            if self.children[k - 1].named {
                count = count + 1;
            }
            k = k - 1;
        }
        count
    }

    /// The number of named children of the given kind.
    pub fn count_of_kind(&self, kind: &str) -> (n: usize)
        ensures
            n == count_of_kind(*self, kind@),
    {
        let ghost c = self.children@;
        let mut k: usize = self.children.len();
        let mut count: usize = 0;
        while k > 0
            invariant
                c == self.children@,
                0 <= k <= c.len(),
                count == kind_count_from(c, kind@, k as int),
                count <= c.len() - k,
                c.len() == self.children.len(),
            decreases k,
        {
            let ghost j = k - 1;
            assert(kind_count_from(c, kind@, j) == kind_count_from(c, kind@, j + 1) + if c[j].named
                && c[j].kind@ == kind@ {
                1nat
            } else {
                0nat
            });
            if self.children[k - 1].named && str_eq(self.children[k - 1].kind.as_str(), kind) {
                count = count + 1;
            }
            k = k - 1;
        }
        count
    }

    /// The first child that fills the field `name`.
    pub fn child_by_field_name(&self, name: &str) -> (r: Option<&SyntaxNode>)
        ensures
            r matches Some(c) ==> field_child(*self, name@) == Some(*c),
            r is None ==> field_child(*self, name@) is None,
    {
        let ghost c = self.children@;
        let mut k: usize = 0;
        while k < self.children.len()
            invariant
                c == self.children@,
                0 <= k <= c.len(),
                field_index_from(c, name@, 0) == field_index_from(c, name@, k as int),
            decreases c.len() - k,
        {
            match &self.children[k].field {
                Some(f) => {
                    if str_eq(f.as_str(), name) {
                        return Some(&self.children[k]);
                    }
                },
                None => {},
            }
            k = k + 1;
        }
        None
    }

    /// The first named child of the given kind.
    pub fn named_child_by_kind(&self, kind: &str) -> (r: Option<&SyntaxNode>)
        ensures
            r matches Some(c) ==> child_of_kind(*self, kind@) == Some(*c),
            r is None ==> child_of_kind(*self, kind@) is None,
    {
        let ghost c = self.children@;
        let mut k: usize = 0;
        while k < self.children.len()
            invariant
                c == self.children@,
                0 <= k <= c.len(),
                kind_index_from(c, kind@, 0) == kind_index_from(c, kind@, k as int),
            decreases c.len() - k,
        {
            if self.children[k].named && str_eq(self.children[k].kind.as_str(), kind) {
                return Some(&self.children[k]);
            }
            k = k + 1;
        }
        None
    }

    /// Whether the node is of the given kind.
    pub fn is_kind(&self, kind: &str) -> (r: bool)
        ensures
            r == (self.kind@ == kind@),
    {
        str_eq(self.kind.as_str(), kind)
    }

    /// The 1-based line where the node starts.
    pub fn line(&self) -> (l: usize)
        ensures
            l == line_of(*self),
    {
        if self.row < usize::MAX {
            self.row + 1
        } else {
            self.row
        }
    }
}

// ---------------------------------------------------------------------------
// The tree-sitter boundary
// ---------------------------------------------------------------------------

#[verifier::external_type_specification]
#[verifier::external_body]
pub struct ExTsNode<'tree>(tree_sitter::Node<'tree>);

/// Copies a tree-sitter node, and everything below it, into a `SyntaxNode`:
/// kind (`Node::kind`), named-ness (`Node::is_named`), the field name the
/// parent gives it (`Node::field_name_for_child`), its text
/// (`Node::utf8_text`), its start row (`Node::start_position`), its byte
/// range (`Node::start_byte`, `Node::end_byte`), its error
/// flag (`Node::has_error`) and its children (`Node::child`, in order).
/// Nothing is claimed of the result: the grammars' outcomes are named below.
#[verifier::external_body]
fn syntax_from_tree_sitter(node: tree_sitter::Node<'_>, field: Option<&str>, source: &str) -> SyntaxNode {
    let mut children = Vec::new();
    for i in 0..node.child_count() {
        children.push(syntax_from_tree_sitter(node.child(i).unwrap(), node.field_name_for_child(i as u32), source));
    }
    SyntaxNode {
        kind: node.kind().to_string(),
        named: node.is_named(),
        field: field.map(|f| f.to_string()),
        text: node.utf8_text(source.as_bytes()).unwrap_or_default().to_string(),
        row: node.start_position().row,
        start_byte: node.start_byte(), end_byte: node.end_byte(),
        has_error: node.has_error(),
        children,
    }
}

/// What tree-sitter's Python grammar (`tree_sitter_python::LANGUAGE`) makes of
/// a source text.
pub uninterp spec fn python_tree(source: Seq<char>) -> TreeOutcome;

/// What tree-sitter's Java grammar (`tree_sitter_java::LANGUAGE`) makes of a
/// source text.
pub uninterp spec fn java_tree(source: Seq<char>) -> TreeOutcome;

/// What tree-sitter's C++ grammar (`tree_sitter_cpp::LANGUAGE`) makes of a
/// source text.
pub uninterp spec fn cpp_tree(source: Seq<char>) -> TreeOutcome;

/// What tree-sitter's Go grammar (`tree_sitter_go::LANGUAGE`) makes of a
/// source text.
pub uninterp spec fn go_tree(source: Seq<char>) -> TreeOutcome;

/// Runs tree-sitter (`Parser::set_language`, then `Parser::parse`) with the
/// Python grammar. Claimed: the outcome depends on the source text alone
/// (it is `python_tree` of it). A rejected grammar carries the
/// `LanguageError`'s message.
#[verifier::external_body]
pub(crate) fn parse_python_tree(source: &str) -> (r: TreeOutcome)
    ensures
        r == python_tree(source@),
{
    let mut parser = tree_sitter::Parser::new();
    if let Err(e) = parser.set_language(&tree_sitter_python::LANGUAGE.into()) {
        return TreeOutcome::GrammarRejected(e.to_string());
    }
    match parser.parse(source, None) {
        Some(tree) => TreeOutcome::Parsed(syntax_from_tree_sitter(tree.root_node(), None, source)),
        None => TreeOutcome::NoTree,
    }
}

/// Runs tree-sitter with the Java grammar. Claimed: the outcome depends on
/// the source text alone (it is `java_tree` of it).
#[verifier::external_body]
pub(crate) fn parse_java_tree(source: &str) -> (r: TreeOutcome)
    ensures
        r == java_tree(source@),
{
    let mut parser = tree_sitter::Parser::new();
    if let Err(e) = parser.set_language(&tree_sitter_java::LANGUAGE.into()) {
        return TreeOutcome::GrammarRejected(e.to_string());
    }
    match parser.parse(source, None) {
        Some(tree) => TreeOutcome::Parsed(syntax_from_tree_sitter(tree.root_node(), None, source)),
        None => TreeOutcome::NoTree,
    }
}

/// Runs tree-sitter with the C++ grammar. Claimed: the outcome depends on
/// the source text alone (it is `cpp_tree` of it).
#[verifier::external_body]
pub(crate) fn parse_cpp_tree(source: &str) -> (r: TreeOutcome)
    ensures
        r == cpp_tree(source@),
{
    let mut parser = tree_sitter::Parser::new();
    if let Err(e) = parser.set_language(&tree_sitter_cpp::LANGUAGE.into()) {
        return TreeOutcome::GrammarRejected(e.to_string());
    }
    match parser.parse(source, None) {
        Some(tree) => TreeOutcome::Parsed(syntax_from_tree_sitter(tree.root_node(), None, source)),
        None => TreeOutcome::NoTree,
    }
}

/// Runs tree-sitter with the Go grammar. Claimed: the outcome depends on the
/// source text alone (it is `go_tree` of it).
#[verifier::external_body]
pub(crate) fn parse_go_tree(source: &str) -> (r: TreeOutcome)
    ensures
        r == go_tree(source@),
{
    let mut parser = tree_sitter::Parser::new();
    if let Err(e) = parser.set_language(&tree_sitter_go::LANGUAGE.into()) {
        return TreeOutcome::GrammarRejected(e.to_string());
    }
    match parser.parse(source, None) {
        Some(tree) => TreeOutcome::Parsed(syntax_from_tree_sitter(tree.root_node(), None, source)),
        None => TreeOutcome::NoTree,
    }
}

} // verus!
