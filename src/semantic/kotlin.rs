//! Containers of Kotlin source: classes, interfaces and objects with their
//! properties and methods, and top-level functions.

use vstd::prelude::*;

use crate::semantic::{
    Container, ContainerKind, ContainerView, ContainerWithMembers, Member, MemberKind, MemberView,
    ParsedFile, TriviaConfig, containers_view, expand_range_for_trivia, expanded_range,
    members_view,
};
use crate::syntax::{SyntaxTree, kind_child, name_of, text_or};

verus! {

/// The rows of node `k` under `parent`, annotations and adjacent comments
/// taken in.
pub open spec fn kotlin_rows(t: SyntaxTree, k: int, parent: int) -> (usize, usize) {
    expanded_range(t, k, parent, seq!["annotation"], seq!["line_comment", "block_comment"])
}

/// The name node of property declaration `k`: the identifier of its
/// variable declaration.
pub open spec fn property_name_of(t: SyntaxTree, k: int) -> Option<usize> {
    match kind_child(t, k, "variable_declaration"@) {
        Some(v) => kind_child(t, v as int, "identifier"@),
        None => None,
    }
}

/// The member that node `k` of a class body stands for: a property or a
/// method, where it has a name.
pub open spec fn kotlin_member(t: SyntaxTree, body: int, k: int) -> Seq<MemberView> {
    let rows = kotlin_rows(t, k, body);
    if t.kind_of(k) == "property_declaration"@ {
        match property_name_of(t, k) {
            Some(n) => seq![(MemberKind::Property, text_or(t, n as int, "<unknown>"@), rows.0, rows.1)],
            None => seq![],
        }
    } else if t.kind_of(k) == "function_declaration"@ {
        match name_of(t, k) {
            Some(name) => seq![(MemberKind::Method, name, rows.0, rows.1)],
            None => seq![],
        }
    } else {
        seq![]
    }
}

/// The members that the nodes `kids` of a class body stand for.
pub open spec fn kotlin_members(t: SyntaxTree, body: int, kids: Seq<usize>) -> Seq<MemberView>
    decreases kids.len(),
{
    if kids.len() == 0 {
        seq![]
    } else {
        kotlin_members(t, body, kids.drop_last()) + kotlin_member(t, body, kids.last() as int)
    }
}

/// The members of the class body of declaration `k`, if it has one.
pub open spec fn declaration_members(t: SyntaxTree, k: int) -> Seq<MemberView> {
    match kind_child(t, k, "class_body"@) {
        Some(b) => kotlin_members(t, b as int, t.kids(b as int)),
        None => seq![],
    }
}

/// The container that top-level node `k` stands for: a class (an interface
/// where it says `interface`) or an object with its members, or a function.
pub open spec fn kotlin_item(t: SyntaxTree, k: int) -> Seq<ContainerView> {
    let is_class = t.kind_of(k) == "class_declaration"@;
    let is_object = t.kind_of(k) == "object_declaration"@;
    let is_function = t.kind_of(k) == "function_declaration"@;
    let rows = kotlin_rows(t, k, 0);
    if is_class || is_object || is_function {
        match name_of(t, k) {
            Some(name) => seq![
                (
                    if is_class {
                        if kind_child(t, k, "interface"@) is Some {
                            ContainerKind::Interface
                        } else {
                            ContainerKind::Class
                        }
                    } else if is_object {
                        ContainerKind::Object
                    } else {
                        ContainerKind::Function
                    },
                    name,
                    rows.0,
                    rows.1,
                    if is_function {
                        Seq::<MemberView>::empty()
                    } else {
                        declaration_members(t, k)
                    },
                ),
            ],
            None => seq![],
        }
    } else {
        seq![]
    }
}

/// The containers that the top-level nodes `kids` stand for, in order.
pub open spec fn kotlin_items(t: SyntaxTree, kids: Seq<usize>) -> Seq<ContainerView>
    decreases kids.len(),
{
    if kids.len() == 0 {
        seq![]
    } else {
        kotlin_items(t, kids.drop_last()) + kotlin_item(t, kids.last() as int)
    }
}

/// The name node of a property declaration: the identifier of its variable
/// declaration.
fn property_name(tree: &SyntaxTree, item: usize) -> (r: Option<usize>)
    requires
        tree.wf(),
        item < tree.nodes@.len(),
    ensures
        r matches Some(d) ==> d < tree.nodes@.len(),
        r == property_name_of(*tree, item as int),
{
    match tree.child_of_kind(item, "variable_declaration") {
        Some(var) => tree.child_of_kind(var, "identifier"),
        None => None,
    }
}

/// The properties and methods of a class body, annotations and adjacent
/// comments included.
pub fn extract_members(tree: &SyntaxTree, body_node: usize) -> (r: Vec<Member>)
    requires
        tree.wf(),
        body_node < tree.nodes@.len(),
    ensures
        members_view(r@) == kotlin_members(*tree, body_node as int, tree.kids(body_node as int)),
{
    let mut members: Vec<Member> = Vec::new();
    let config = TriviaConfig::kotlin();
    let n = tree.child_count(body_node);
    let mut j: usize = 0;
    while j < n
        invariant
            tree.wf(),
            body_node < tree.nodes@.len(),
            n == tree.kids(body_node as int).len(),
            j <= n,
            config.always_include@ == seq!["annotation"],
            config.adjacent_only@ == seq!["line_comment", "block_comment"],
            members_view(members@) == kotlin_members(
                *tree,
                body_node as int,
                tree.kids(body_node as int).subrange(0, j as int),
            ),
        decreases n - j,
    {
        let ghost before = members@;
        assert(tree.kids(body_node as int).subrange(0, j + 1).drop_last() =~= tree.kids(
            body_node as int,
        ).subrange(0, j as int));
        let item = tree.child_at(body_node, j);
        assert(tree.kids(body_node as int).subrange(0, j + 1).last() == item);
        if tree.kind_is(item, "property_declaration") {
            if let Some(name_node) = property_name(tree, item) {
                let (start_line, end_line) = expand_range_for_trivia(tree, item, body_node, &config);
                members.push(
                    Member {
                        kind: MemberKind::Property,
                        name: tree.text_or(name_node, "<unknown>"),
                        start_line,
                        end_line,
                    },
                );
            }
        } else if tree.kind_is(item, "function_declaration") {
            if let Some(name_node) = tree.child_by_field_name(item, "name") {
                let (start_line, end_line) = expand_range_for_trivia(tree, item, body_node, &config);
                members.push(
                    Member {
                        kind: MemberKind::Method,
                        name: tree.text_or(name_node, "<unknown>"),
                        start_line,
                        end_line,
                    },
                );
            }
        }
        assert(members_view(members@) =~= members_view(before) + kotlin_member(
            *tree,
            body_node as int,
            item as int,
        ));
        j = j + 1;
    }
    assert(tree.kids(body_node as int).subrange(0, n as int) =~= tree.kids(body_node as int));
    members
}

/// The members of a declaration's class body, if it has one.
fn body_members(tree: &SyntaxTree, decl: usize) -> (r: Vec<Member>)
    requires
        tree.wf(),
        decl < tree.nodes@.len(),
    ensures
        members_view(r@) == declaration_members(*tree, decl as int),
{
    match tree.child_of_kind(decl, "class_body") {
        Some(body) => extract_members(tree, body),
        None => {
            let v: Vec<Member> = Vec::new();
            assert(members_view(v@) =~= Seq::<MemberView>::empty());
            v
        },
    }
}

/// The containers of a Kotlin file in source order: classes (interfaces
/// where the declaration says `interface`) and objects with their members,
/// and functions. Rows take in annotations and adjacent comments.
pub fn extract_containers_with_members(parsed: &ParsedFile) -> (r: Vec<ContainerWithMembers>)
    requires
        parsed.tree.wf(),
    ensures
        containers_view(r@) == kotlin_items(parsed.tree, parsed.tree.kids(0)),
{
    let tree = &parsed.tree;
    let config = TriviaConfig::kotlin();
    let mut containers: Vec<ContainerWithMembers> = Vec::new();
    let n = tree.child_count(0);
    let mut i: usize = 0;
    while i < n
        invariant
            tree.wf(),
            *tree == parsed.tree,
            n == tree.kids(0).len(),
            i <= n,
            config.always_include@ == seq!["annotation"],
            config.adjacent_only@ == seq!["line_comment", "block_comment"],
            containers_view(containers@) == kotlin_items(*tree, tree.kids(0).subrange(0, i as int)),
        decreases n - i,
    {
        let ghost before = containers@;
        assert(tree.kids(0).subrange(0, i + 1).drop_last() =~= tree.kids(0).subrange(0, i as int));
        let child = tree.child_at(0, i);
        assert(tree.kids(0).subrange(0, i + 1).last() == child);
        let is_class = tree.kind_is(child, "class_declaration");
        let is_object = tree.kind_is(child, "object_declaration");
        let is_function = tree.kind_is(child, "function_declaration");
        if is_class || is_object || is_function {
            if let Some(name_node) = tree.child_by_field_name(child, "name") {
                let kind = if is_class {
                    if tree.child_of_kind(child, "interface").is_some() {
                        ContainerKind::Interface
                    } else {
                        ContainerKind::Class
                    }
                } else if is_object {
                    ContainerKind::Object
                } else {
                    ContainerKind::Function
                };
                let members = if is_function {
                    let v: Vec<Member> = Vec::new();
                    assert(members_view(v@) =~= Seq::<MemberView>::empty());
                    v
                } else {
                    body_members(tree, child)
                };
                let (start_line, end_line) = expand_range_for_trivia(tree, child, 0, &config);
                containers.push(
                    ContainerWithMembers {
                        container: Container {
                            kind,
                            name: tree.text_or(name_node, "<unknown>"),
                            start_line,
                            end_line,
                        },
                        members,
                    },
                );
            }
        }
        assert(containers_view(containers@) =~= containers_view(before) + kotlin_item(
            *tree,
            child as int,
        ));
        i = i + 1;
    }
    assert(tree.kids(0).subrange(0, n as int) =~= tree.kids(0));
    containers
}

} // verus!
