//! A syntax tree held as plain values: the kinds, rows, texts and child
//! links of a parsed tree's nodes.

use vstd::prelude::*;

use crate::grammar::{
    ParsedSource, child_count_at, end_row_at, field_at, kind_at, size_at, start_row_at, syntax_child_count,
    syntax_end_row, syntax_field, syntax_kind, syntax_size, syntax_start_row, syntax_text, text_at,
};
use crate::semantic::SupportedLanguage;

verus! {

/// One node of a syntax tree.
#[derive(Debug, Clone)]
pub struct SyntaxNode {
    /// The node's grammar symbol.
    pub kind: String,
    /// The first row of the node (0-indexed).
    pub start_row: usize,
    /// The row on which the node ends.
    pub end_row: usize,
    /// The node's text, where it is valid UTF-8.
    pub text: Option<String>,
    /// The indices of the node's children, in order.
    pub children: Vec<usize>,
    /// For each child, the field it stands under; empty where none.
    pub fields: Vec<String>,
}

/// A syntax tree whose nodes refer to each other by index; the root is
/// node 0.
#[derive(Debug, Clone)]
pub struct SyntaxTree {
    /// The nodes; every child comes after its parent.
    pub nodes: Vec<SyntaxNode>,
}

/// Node `k` of a tree of `len` nodes: one field per child, each child after
/// `k` and inside the tree.
pub open spec fn node_wf(n: SyntaxNode, k: int, len: int) -> bool {
    &&& n.children@.len() == n.fields@.len()
    &&& forall|j: int| 0 <= j < n.children@.len() ==> k < #[trigger] n.children@[j] < len
}

impl SyntaxTree {
    /// The tree has a root and every node is well formed.
    pub open spec fn wf(&self) -> bool {
        &&& self.nodes@.len() > 0
        &&& forall|k: int| 0 <= k < self.nodes@.len() ==> node_wf(#[trigger] self.nodes@[k], k, self.nodes@.len() as int)
    }

    /// Node `n`.
    pub open spec fn node(&self, n: int) -> SyntaxNode {
        self.nodes@[n]
    }

    /// The children of node `n`.
    pub open spec fn kids(&self, n: int) -> Seq<usize> {
        self.nodes@[n].children@
    }

    /// The kind of node `n`.
    pub open spec fn kind_of(&self, n: int) -> Seq<char> {
        self.nodes@[n].kind@
    }
}

/// The first index at or after `j` where `fields` holds `f`, or -1.
pub open spec fn first_field_from(fields: Seq<String>, f: Seq<char>, j: int) -> int
    decreases fields.len() - j,
{
    if j < 0 || j >= fields.len() {
        -1
    } else if fields[j]@ == f {
        j
    } else {
        first_field_from(fields, f, j + 1)
    }
}

/// The child of node `n` under field `f`: the first such child.
pub open spec fn field_child(t: SyntaxTree, n: int, f: Seq<char>) -> Option<usize> {
    let j = first_field_from(t.nodes@[n].fields@, f, 0);
    if j < 0 {
        None
    } else {
        Some(t.nodes@[n].children@[j])
    }
}

/// The first index at or after `j` where `kids` holds a node of kind `k`, or
/// -1.
pub open spec fn first_kind_from(t: SyntaxTree, kids: Seq<usize>, k: Seq<char>, j: int) -> int
    decreases kids.len() - j,
{
    if j < 0 || j >= kids.len() {
        -1
    } else if kids[j] < t.nodes@.len() && t.nodes@[kids[j] as int].kind@ == k {
        j
    } else {
        first_kind_from(t, kids, k, j + 1)
    }
}

/// The first child of node `n` of kind `k`.
pub open spec fn kind_child(t: SyntaxTree, n: int, k: Seq<char>) -> Option<usize> {
    let j = first_kind_from(t, t.nodes@[n].children@, k, 0);
    if j < 0 {
        None
    } else {
        Some(t.nodes@[n].children@[j])
    }
}

/// The text of node `n`, or `default` where it has none.
pub open spec fn text_or(t: SyntaxTree, n: int, default: Seq<char>) -> Seq<char> {
    match t.nodes@[n].text {
        Some(s) => s@,
        None => default,
    }
}

/// The name of node `k`: the text of its `name` child, if it has one.
pub open spec fn name_of(t: SyntaxTree, k: int) -> Option<Seq<char>> {
    match field_child(t, k, "name"@) {
        Some(c) => Some(text_or(t, c as int, "<unknown>"@)),
        None => None,
    }
}

/// Whether two strings hold the same characters.
pub fn str_eq(a: &str, b: &str) -> (r: bool)
    ensures
        r == (a@ == b@),
{
    let n = a.unicode_len();
    if n != b.unicode_len() {
        return false;
    }
    let mut i: usize = 0;
    while i < n
        invariant
            n == a@.len(),
            n == b@.len(),
            i <= n,
            forall|j: int| 0 <= j < i ==> a@[j] == b@[j],
        decreases n - i,
    {
        if a.get_char(i) != b.get_char(i) {
            return false;
        }
        i = i + 1;
    }
    assert(a@ =~= b@);
    true
}

impl SyntaxTree {
    /// Whether node `n` is of kind `k`.
    pub fn kind_is(&self, n: usize, k: &str) -> (r: bool)
        requires
            n < self.nodes@.len(),
        ensures
            r == (self.kind_of(n as int) == k@),
    {
        str_eq(self.nodes[n].kind.as_str(), k)
    }

    /// The first child of node `n` under field `f`.
    pub fn child_by_field_name(&self, n: usize, f: &str) -> (r: Option<usize>)
        requires
            self.wf(),
            n < self.nodes@.len(),
        ensures
            r == field_child(*self, n as int, f@),
            r matches Some(c) ==> n < c < self.nodes@.len(),
    {
        let node = &self.nodes[n];
        let mut j: usize = 0;
        while j < node.fields.len()
            invariant
                self.wf(),
                n < self.nodes@.len(),
                *node == self.nodes@[n as int],
                j <= node.fields@.len(),
                first_field_from(node.fields@, f@, 0) == first_field_from(node.fields@, f@, j as int),
            decreases node.fields.len() - j,
        {
            if str_eq(node.fields[j].as_str(), f) {
                proof {
                    assert(node_wf(self.nodes@[n as int], n as int, self.nodes@.len() as int));
                    assert(node.children@[j as int] > n);
                }
                return Some(node.children[j]);
            }
            j = j + 1;
        }
        None
    }

    /// The first child of node `n` of kind `k`.
    pub fn child_of_kind(&self, n: usize, k: &str) -> (r: Option<usize>)
        requires
            self.wf(),
            n < self.nodes@.len(),
        ensures
            r == kind_child(*self, n as int, k@),
            r matches Some(c) ==> n < c < self.nodes@.len(),
    {
        let node = &self.nodes[n];
        let mut j: usize = 0;
        while j < node.children.len()
            invariant
                self.wf(),
                n < self.nodes@.len(),
                *node == self.nodes@[n as int],
                j <= node.children@.len(),
                first_kind_from(*self, node.children@, k@, 0) == first_kind_from(*self, node.children@, k@, j as int),
            decreases node.children.len() - j,
        {
            let c = node.children[j];
            proof {
                assert(node_wf(self.nodes@[n as int], n as int, self.nodes@.len() as int));
                assert(n < c < self.nodes@.len());
            }
            if self.kind_is(c, k) {
                return Some(c);
            }
            j = j + 1;
        }
        None
    }

    /// The child of node `n` at position `j`.
    pub fn child_at(&self, n: usize, j: usize) -> (c: usize)
        requires
            self.wf(),
            n < self.nodes@.len(),
            j < self.kids(n as int).len(),
        ensures
            c == self.kids(n as int)[j as int],
            n < c < self.nodes@.len(),
    {
        proof {
            assert(node_wf(self.nodes@[n as int], n as int, self.nodes@.len() as int));
        }
        self.nodes[n].children[j]
    }

    /// The number of children of node `n`.
    pub fn child_count(&self, n: usize) -> (r: usize)
        requires
            n < self.nodes@.len(),
        ensures
            r == self.kids(n as int).len(),
    {
        self.nodes[n].children.len()
    }

    /// The text of node `n`, or `default` where it has none.
    pub fn text_or(&self, n: usize, default: &str) -> (r: String)
        requires
            n < self.nodes@.len(),
        ensures
            r@ == text_or(*self, n as int, default@),
    {
        match &self.nodes[n].text {
            Some(s) => s.clone(),
            None => default.to_string(),
        }
    }
}

/// The children of a node whose first child is node `c` and which has `k`
/// children, each child's subtree following the previous one in pre-order;
/// nothing where these indices leave the `total` nodes.
pub open spec fn kids_from(l: SupportedLanguage, s: Seq<char>, total: int, c: int, k: int) -> Option<Seq<usize>>
    decreases k,
{
    if k <= 0 {
        Some(seq![])
    } else if c < 0 || c >= total {
        None
    } else {
        let size = syntax_size(l, s, c as usize) as int;
        if size <= 0 || size > total - c {
            None
        } else {
            match kids_from(l, s, total, c + size, k - 1) {
                Some(rest) => Some(seq![c as usize] + rest),
                None => None,
            }
        }
    }
}

/// The number of nodes of the tree of `s`.
pub open spec fn node_total(l: SupportedLanguage, s: Seq<char>) -> int {
    syntax_size(l, s, 0) as int
}

/// The children of node `d` of the tree of `s`.
pub open spec fn node_kids(l: SupportedLanguage, s: Seq<char>, d: int) -> Option<Seq<usize>> {
    kids_from(l, s, node_total(l, s), d + 1, syntax_child_count(l, s, d as usize) as int)
}

/// The tree of `s` has a root and its child links stay inside it.
pub open spec fn syntax_ok(l: SupportedLanguage, s: Seq<char>) -> bool {
    &&& node_total(l, s) > 0
    &&& forall|d: int| 0 <= d < node_total(l, s) ==> (#[trigger] node_kids(l, s, d)) is Some
}

/// The field name a child stands under, empty where none.
pub open spec fn field_text(f: Option<Seq<char>>) -> Seq<char> {
    match f {
        Some(x) => x,
        None => seq![],
    }
}

/// Node `n` holds what the tree of `s` says of node `d`.
pub open spec fn node_matches(n: SyntaxNode, l: SupportedLanguage, s: Seq<char>, d: int) -> bool {
    &&& n.kind@ == syntax_kind(l, s, d as usize)
    &&& n.start_row == syntax_start_row(l, s, d as usize)
    &&& n.end_row == syntax_end_row(l, s, d as usize)
    &&& match n.text {
        Some(t) => syntax_text(l, s, d as usize) == Some(t@),
        None => syntax_text(l, s, d as usize) is None,
    }
    &&& node_kids(l, s, d) == Some(n.children@)
    &&& n.fields@.len() == n.children@.len()
    &&& forall|j: int|
        0 <= j < n.fields@.len() ==> (#[trigger] n.fields@[j])@ == field_text(
            syntax_field(l, s, n.children@[j]),
        )
}

/// `t` is the tree that tree-sitter builds for `s` in language `l`, node
/// for node in pre-order.
pub open spec fn tree_of_source(t: SyntaxTree, l: SupportedLanguage, s: Seq<char>) -> bool {
    &&& t.nodes@.len() == node_total(l, s)
    &&& forall|d: int| 0 <= d < t.nodes@.len() ==> node_matches(#[trigger] t.nodes@[d], l, s, d)
}

/// Converts a parsed source into plain nodes, in pre-order; nothing where
/// the tree's child links do not stay inside it.
pub(crate) fn convert_parsed(p: &ParsedSource) -> (r: Option<SyntaxTree>)
    ensures
        r is Some <==> syntax_ok(p.language(), p.source()),
        r matches Some(t) ==> t.wf() && tree_of_source(t, p.language(), p.source()),
{
    let ghost l = p.language();
    let ghost src = p.source();
    let total = size_at(p, 0);
    if total == 0 {
        return None;
    }
    let mut nodes: Vec<SyntaxNode> = Vec::new();
    let mut d: usize = 0;
    while d < total
        invariant
            l == p.language(),
            src == p.source(),
            total == node_total(l, src),
            d == nodes@.len(),
            d <= total,
            forall|k: int| 0 <= k < d ==> node_wf(#[trigger] nodes@[k], k, total as int),
            forall|k: int| 0 <= k < d ==> node_matches(#[trigger] nodes@[k], l, src, k),
        decreases total - d,
    {
        let count = child_count_at(p, d);
        let mut children: Vec<usize> = Vec::new();
        let mut fields: Vec<String> = Vec::new();
        let mut c: usize = d + 1;
        let mut j: usize = 0;
        while j < count
            invariant
                l == p.language(),
                src == p.source(),
                total == node_total(l, src),
                d < total,
                j <= count,
                count == syntax_child_count(l, src, d),
                d < c,
                children@.len() == j,
                fields@.len() == j,
                forall|m: int| 0 <= m < j ==> d < #[trigger] children@[m] < total,
                forall|m: int|
                    0 <= m < j ==> (#[trigger] fields@[m])@ == field_text(
                        syntax_field(l, src, children@[m]),
                    ),
                node_kids(l, src, d as int) == match kids_from(
                    l,
                    src,
                    total as int,
                    c as int,
                    count - j,
                ) {
                    Some(rest) => Some(children@ + rest),
                    None => None::<Seq<usize>>,
                },
            decreases count - j,
        {
            if c >= total {
                assert(node_kids(l, src, d as int) is None);
                return None;
            }
            let size = size_at(p, c);
            if size == 0 || size > total - c {
                assert(node_kids(l, src, d as int) is None);
                return None;
            }
            let ghost before = children@;
            children.push(c);
            fields.push(
                match field_at(p, c) {
                    Some(f) => f,
                    None => String::new(),
                },
            );
            proof {
                let rest = kids_from(l, src, total as int, c + size, count - j - 1);
                if rest is Some {
                    assert(children@ + rest.unwrap() =~= before + (seq![c] + rest.unwrap()));
                }
            }
            c = c + size;
            j = j + 1;
        }
        assert(children@ + Seq::<usize>::empty() =~= children@);
        let node = SyntaxNode {
            kind: kind_at(p, d),
            start_row: start_row_at(p, d),
            end_row: end_row_at(p, d),
            text: text_at(p, d),
            children,
            fields,
        };
        nodes.push(node);
        d = d + 1;
    }
    let t = SyntaxTree { nodes };
    assert(t.wf());
    assert(syntax_ok(l, src)) by {
        assert forall|k: int| 0 <= k < node_total(l, src) implies (#[trigger] node_kids(l, src, k)) is Some by {
            assert(node_matches(t.nodes@[k], l, src, k));
        }
    }
    Some(t)
}

} // verus!
