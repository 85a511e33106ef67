//! Containers of Python source: classes with their methods, and top-level
//! functions, decorated or not.

use vstd::prelude::*;

use crate::semantic::{
    Container, ContainerKind, ContainerView, ContainerWithMembers, Member, MemberKind, MemberView,
    ParsedFile, TriviaConfig, containers_view, expand_range_for_trivia, expanded_range,
    members_view,
};
use crate::syntax::{SyntaxTree, field_child, name_of};

verus! {

/// The rows of node `k` under `parent`, decorators and adjacent comments
/// taken in.
pub open spec fn python_rows(t: SyntaxTree, k: int, parent: int) -> (usize, usize) {
    expanded_range(t, k, parent, seq!["decorator"], seq!["comment"])
}

/// The definition of kind `kind` that node `k` stands for: the node itself,
/// or the definition that a decorated definition wraps.
pub open spec fn definition_of(t: SyntaxTree, k: int, kind: Seq<char>) -> Option<int> {
    if t.kind_of(k) == kind {
        Some(k)
    } else if t.kind_of(k) == "decorated_definition"@ {
        match field_child(t, k, "definition"@) {
            Some(d) => if t.kind_of(d as int) == kind {
                Some(d as int)
            } else {
                None
            },
            None => None,
        }
    } else {
        None
    }
}

/// The method that node `k` of a class body stands for.
pub open spec fn python_method(t: SyntaxTree, body: int, k: int) -> Seq<MemberView> {
    match definition_of(t, k, "function_definition"@) {
        Some(f) => match name_of(t, f) {
            Some(name) => seq![
                (MemberKind::Method, name, python_rows(t, k, body).0, python_rows(t, k, body).1),
            ],
            None => seq![],
        },
        None => seq![],
    }
}

/// The methods that the nodes `kids` of a class body stand for.
pub open spec fn python_methods(t: SyntaxTree, body: int, kids: Seq<usize>) -> Seq<MemberView>
    decreases kids.len(),
{
    if kids.len() == 0 {
        seq![]
    } else {
        python_methods(t, body, kids.drop_last()) + python_method(t, body, kids.last() as int)
    }
}

/// The methods of class node `c`.
pub open spec fn class_methods(t: SyntaxTree, c: int) -> Seq<MemberView> {
    match field_child(t, c, "body"@) {
        Some(b) => python_methods(t, b as int, t.kids(b as int)),
        None => seq![],
    }
}

/// The container that top-level node `k` stands for: a class with its
/// methods or a function, decorated or not.
pub open spec fn python_item(t: SyntaxTree, k: int) -> Seq<ContainerView> {
    let rows = python_rows(t, k, 0);
    match definition_of(t, k, "class_definition"@) {
        Some(c) => match name_of(t, c) {
            Some(name) => seq![(ContainerKind::Class, name, rows.0, rows.1, class_methods(t, c))],
            None => seq![],
        },
        None => match definition_of(t, k, "function_definition"@) {
            Some(f) => match name_of(t, f) {
                Some(name) => seq![
                    (ContainerKind::Function, name, rows.0, rows.1, Seq::<MemberView>::empty()),
                ],
                None => seq![],
            },
            None => seq![],
        },
    }
}

/// The containers that the top-level nodes `kids` stand for, in order.
pub open spec fn python_items(t: SyntaxTree, kids: Seq<usize>) -> Seq<ContainerView>
    decreases kids.len(),
{
    if kids.len() == 0 {
        seq![]
    } else {
        python_items(t, kids.drop_last()) + python_item(t, kids.last() as int)
    }
}

/// The definition that a node stands for: the node itself, or the definition
/// a decorated definition wraps, where it is of kind `kind`.
fn definition_of_kind(tree: &SyntaxTree, node: usize, kind: &str) -> (r: Option<usize>)
    requires
        tree.wf(),
        node < tree.nodes@.len(),
    ensures
        r matches Some(d) ==> d < tree.nodes@.len(),
        r == (match definition_of(*tree, node as int, kind@) {
            Some(d) => Some(d as usize),
            None => None::<usize>,
        }),
{
    if tree.kind_is(node, kind) {
        Some(node)
    } else if tree.kind_is(node, "decorated_definition") {
        match tree.child_by_field_name(node, "definition") {
            Some(d) => if tree.kind_is(d, kind) {
                Some(d)
            } else {
                None
            },
            None => None,
        }
    } else {
        None
    }
}

/// The methods of a class node, decorators and adjacent comments included.
pub fn extract_methods(tree: &SyntaxTree, class_node: usize) -> (r: Vec<Member>)
    requires
        tree.wf(),
        class_node < tree.nodes@.len(),
    ensures
        members_view(r@) == class_methods(*tree, class_node as int),
{
    let mut methods: Vec<Member> = Vec::new();
    let config = TriviaConfig::python();
    if let Some(body) = tree.child_by_field_name(class_node, "body") {
        let n = tree.child_count(body);
        let mut j: usize = 0;
        while j < n
            invariant
                tree.wf(),
                body < tree.nodes@.len(),
                n == tree.kids(body as int).len(),
                j <= n,
                config.always_include@ == seq!["decorator"],
                config.adjacent_only@ == seq!["comment"],
                members_view(methods@) == python_methods(
                    *tree,
                    body as int,
                    tree.kids(body as int).subrange(0, j as int),
                ),
            decreases n - j,
        {
            let ghost before = methods@;
            assert(tree.kids(body as int).subrange(0, j + 1).drop_last() =~= tree.kids(
                body as int,
            ).subrange(0, j as int));
            let item = tree.child_at(body, j);
            assert(tree.kids(body as int).subrange(0, j + 1).last() == item);
            if let Some(func) = definition_of_kind(tree, item, "function_definition") {
                if let Some(name_node) = tree.child_by_field_name(func, "name") {
                    let (start_line, end_line) = expand_range_for_trivia(tree, item, body, &config);
                    methods.push(
                        Member {
                            kind: MemberKind::Method,
                            name: tree.text_or(name_node, "<unknown>"),
                            start_line,
                            end_line,
                        },
                    );
                }
            }
            assert(members_view(methods@) =~= members_view(before) + python_method(
                *tree,
                body as int,
                item as int,
            ));
            j = j + 1;
        }
        assert(tree.kids(body as int).subrange(0, n as int) =~= tree.kids(body as int));
    }
    methods
}

/// The containers of a Python file in source order: classes with their
/// methods, and functions. A decorated definition's rows take in its
/// decorators; adjacent comments are taken in too.
pub fn extract_containers_with_members(parsed: &ParsedFile) -> (r: Vec<ContainerWithMembers>)
    requires
        parsed.tree.wf(),
    ensures
        containers_view(r@) == python_items(parsed.tree, parsed.tree.kids(0)),
{
    let tree = &parsed.tree;
    let config = TriviaConfig::python();
    let mut containers: Vec<ContainerWithMembers> = Vec::new();
    let n = tree.child_count(0);
    let mut i: usize = 0;
    while i < n
        invariant
            tree.wf(),
            *tree == parsed.tree,
            n == tree.kids(0).len(),
            i <= n,
            config.always_include@ == seq!["decorator"],
            config.adjacent_only@ == seq!["comment"],
            containers_view(containers@) == python_items(*tree, tree.kids(0).subrange(0, i as int)),
        decreases n - i,
    {
        let ghost before = containers@;
        assert(tree.kids(0).subrange(0, i + 1).drop_last() =~= tree.kids(0).subrange(0, i as int));
        let child = tree.child_at(0, i);
        assert(tree.kids(0).subrange(0, i + 1).last() == child);
        if let Some(class_def) = definition_of_kind(tree, child, "class_definition") {
            if let Some(name_node) = tree.child_by_field_name(class_def, "name") {
                let (start_line, end_line) = expand_range_for_trivia(tree, child, 0, &config);
                containers.push(
                    ContainerWithMembers {
                        container: Container {
                            kind: ContainerKind::Class,
                            name: tree.text_or(name_node, "<unknown>"),
                            start_line,
                            end_line,
                        },
                        members: extract_methods(tree, class_def),
                    },
                );
            }
        } else if let Some(func) = definition_of_kind(tree, child, "function_definition") {
            if let Some(name_node) = tree.child_by_field_name(func, "name") {
                let (start_line, end_line) = expand_range_for_trivia(tree, child, 0, &config);
                let c = ContainerWithMembers {
                    container: Container {
                        kind: ContainerKind::Function,
                        name: tree.text_or(name_node, "<unknown>"),
                        start_line,
                        end_line,
                    },
                    members: Vec::new(),
                };
                assert(members_view(c.members@) =~= Seq::<MemberView>::empty());
                containers.push(c);
            }
        }
        assert(containers_view(containers@) =~= containers_view(before) + python_item(
            *tree,
            child as int,
        ));
        i = i + 1;
    }
    assert(tree.kids(0).subrange(0, n as int) =~= tree.kids(0));
    containers
}

} // verus!
