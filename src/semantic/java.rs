//! Containers of Java source: classes, interfaces and enums with their
//! fields, methods and constructors.

use vstd::prelude::*;

use crate::semantic::{
    Container, ContainerKind, ContainerView, ContainerWithMembers, Member, MemberKind, MemberView,
    ParsedFile, TriviaConfig, containers_view, expand_range_for_trivia, expanded_range,
    members_view,
};
use crate::syntax::{SyntaxTree, field_child, name_of, text_or};

verus! {

/// The rows of node `k` under `parent`, annotations and adjacent comments
/// taken in.
pub open spec fn java_rows(t: SyntaxTree, k: int, parent: int) -> (usize, usize) {
    expanded_range(
        t,
        k,
        parent,
        seq!["marker_annotation", "annotation"],
        seq!["line_comment", "block_comment", "javadoc_comment"],
    )
}

/// The name node of the first variable declarator among `kids` that has
/// one.
pub open spec fn first_declarator_name(t: SyntaxTree, kids: Seq<usize>) -> Option<usize>
    decreases kids.len(),
{
    if kids.len() == 0 {
        None
    } else if t.kind_of(kids[0] as int) == "variable_declarator"@ && field_child(
        t,
        kids[0] as int,
        "name"@,
    ) is Some {
        field_child(t, kids[0] as int, "name"@)
    } else {
        first_declarator_name(t, kids.drop_first())
    }
}

/// The member that node `k` of a class body stands for: a field named after
/// its first declarator, or a method or constructor, where it has a name.
pub open spec fn java_member(t: SyntaxTree, body: int, k: int) -> Seq<MemberView> {
    let rows = java_rows(t, k, body);
    if t.kind_of(k) == "field_declaration"@ {
        match first_declarator_name(t, t.kids(k)) {
            Some(n) => seq![(MemberKind::Field, text_or(t, n as int, "<unknown>"@), rows.0, rows.1)],
            None => seq![],
        }
    } else if t.kind_of(k) == "method_declaration"@ || t.kind_of(k) == "constructor_declaration"@ {
        match name_of(t, k) {
            Some(name) => seq![(MemberKind::Method, name, rows.0, rows.1)],
            None => seq![],
        }
    } else {
        seq![]
    }
}

/// The members that the nodes `kids` of a class body stand for.
pub open spec fn java_members(t: SyntaxTree, body: int, kids: Seq<usize>) -> Seq<MemberView>
    decreases kids.len(),
{
    if kids.len() == 0 {
        seq![]
    } else {
        java_members(t, body, kids.drop_last()) + java_member(t, body, kids.last() as int)
    }
}

/// The container that top-level node `k` stands for: a class, interface or
/// enum with the members of its body, where it has a name.
pub open spec fn java_item(t: SyntaxTree, k: int) -> Seq<ContainerView> {
    let is_class = t.kind_of(k) == "class_declaration"@;
    let is_interface = t.kind_of(k) == "interface_declaration"@;
    let is_enum = t.kind_of(k) == "enum_declaration"@;
    let rows = java_rows(t, k, 0);
    if is_class || is_interface || is_enum {
        match name_of(t, k) {
            Some(name) => seq![
                (
                    if is_class {
                        ContainerKind::Class
                    } else if is_interface {
                        ContainerKind::Interface
                    } else {
                        ContainerKind::Enum
                    },
                    name,
                    rows.0,
                    rows.1,
                    match field_child(t, k, "body"@) {
                        Some(b) => java_members(t, b as int, t.kids(b as int)),
                        None => Seq::<MemberView>::empty(),
                    },
                ),
            ],
            None => seq![],
        }
    } else {
        seq![]
    }
}

/// The containers that the top-level nodes `kids` stand for, in order.
pub open spec fn java_items(t: SyntaxTree, kids: Seq<usize>) -> Seq<ContainerView>
    decreases kids.len(),
{
    if kids.len() == 0 {
        seq![]
    } else {
        java_items(t, kids.drop_last()) + java_item(t, kids.last() as int)
    }
}

/// The name node of a field declaration: the name of its first variable
/// declarator that has one.
fn field_name(tree: &SyntaxTree, item: usize) -> (r: Option<usize>)
    requires
        tree.wf(),
        item < tree.nodes@.len(),
    ensures
        r matches Some(d) ==> d < tree.nodes@.len(),
        r == first_declarator_name(*tree, tree.kids(item as int)),
{
    let n = tree.child_count(item);
    let mut j: usize = 0;
    assert(tree.kids(item as int).subrange(0, n as int) =~= tree.kids(item as int));
    while j < n
        invariant
            tree.wf(),
            item < tree.nodes@.len(),
            n == tree.kids(item as int).len(),
            j <= n,
            first_declarator_name(*tree, tree.kids(item as int)) == first_declarator_name(
                *tree,
                tree.kids(item as int).subrange(j as int, n as int),
            ),
        decreases n - j,
    {
        let ghost rest = tree.kids(item as int).subrange(j as int, n as int);
        assert(rest.drop_first() =~= tree.kids(item as int).subrange(j + 1, n as int));
        let c = tree.child_at(item, j);
        assert(rest[0] == c);
        if tree.kind_is(c, "variable_declarator") {
            if let Some(name_node) = tree.child_by_field_name(c, "name") {
                return Some(name_node);
            }
        }
        j = j + 1;
    }
    assert(tree.kids(item as int).subrange(n as int, n as int) =~= Seq::<usize>::empty());
    None
}

/// The fields, methods and constructors of a class body, annotations and
/// adjacent comments included. A field declaration that declares several
/// variables is one member, named after the first.
pub fn extract_members(tree: &SyntaxTree, body_node: usize) -> (r: Vec<Member>)
    requires
        tree.wf(),
        body_node < tree.nodes@.len(),
    ensures
        members_view(r@) == java_members(*tree, body_node as int, tree.kids(body_node as int)),
{
    let mut members: Vec<Member> = Vec::new();
    let config = TriviaConfig::java();
    let n = tree.child_count(body_node);
    let mut j: usize = 0;
    while j < n
        invariant
            tree.wf(),
            body_node < tree.nodes@.len(),
            n == tree.kids(body_node as int).len(),
            j <= n,
            config.always_include@ == seq!["marker_annotation", "annotation"],
            config.adjacent_only@ == seq!["line_comment", "block_comment", "javadoc_comment"],
            members_view(members@) == java_members(
                *tree,
                body_node as int,
                tree.kids(body_node as int).subrange(0, j as int),
            ),
        decreases n - j,
    {
        let ghost before = members@;
        assert(tree.kids(body_node as int).subrange(0, j + 1).drop_last() =~= tree.kids(
            body_node as int,
        ).subrange(0, j as int));
        let item = tree.child_at(body_node, j);
        assert(tree.kids(body_node as int).subrange(0, j + 1).last() == item);
        if tree.kind_is(item, "field_declaration") {
            if let Some(name_node) = field_name(tree, item) {
                let (start_line, end_line) = expand_range_for_trivia(tree, item, body_node, &config);
                members.push(
                    Member {
                        kind: MemberKind::Field,
                        name: tree.text_or(name_node, "<unknown>"),
                        start_line,
                        end_line,
                    },
                );
            }
        } else if tree.kind_is(item, "method_declaration") || tree.kind_is(
            item,
            "constructor_declaration",
        ) {
            if let Some(name_node) = tree.child_by_field_name(item, "name") {
                let (start_line, end_line) = expand_range_for_trivia(tree, item, body_node, &config);
                members.push(
                    Member {
                        kind: MemberKind::Method,
                        name: tree.text_or(name_node, "<unknown>"),
                        start_line,
                        end_line,
                    },
                );
            }
        }
        assert(members_view(members@) =~= members_view(before) + java_member(
            *tree,
            body_node as int,
            item as int,
        ));
        j = j + 1;
    }
    assert(tree.kids(body_node as int).subrange(0, n as int) =~= tree.kids(body_node as int));
    members
}

/// The containers of a Java file in source order: classes, interfaces and
/// enums, each with the members of its body. Rows take in annotations and
/// adjacent comments.
pub fn extract_containers_with_members(parsed: &ParsedFile) -> (r: Vec<ContainerWithMembers>)
    requires
        parsed.tree.wf(),
    ensures
        containers_view(r@) == java_items(parsed.tree, parsed.tree.kids(0)),
{
    let tree = &parsed.tree;
    let config = TriviaConfig::java();
    let mut containers: Vec<ContainerWithMembers> = Vec::new();
    let n = tree.child_count(0);
    let mut i: usize = 0;
    while i < n
        invariant
            tree.wf(),
            *tree == parsed.tree,
            n == tree.kids(0).len(),
            i <= n,
            config.always_include@ == seq!["marker_annotation", "annotation"],
            config.adjacent_only@ == seq!["line_comment", "block_comment", "javadoc_comment"],
            containers_view(containers@) == java_items(*tree, tree.kids(0).subrange(0, i as int)),
        decreases n - i,
    {
        let ghost before = containers@;
        assert(tree.kids(0).subrange(0, i + 1).drop_last() =~= tree.kids(0).subrange(0, i as int));
        let child = tree.child_at(0, i);
        assert(tree.kids(0).subrange(0, i + 1).last() == child);
        let is_class = tree.kind_is(child, "class_declaration");
        let is_interface = tree.kind_is(child, "interface_declaration");
        let is_enum = tree.kind_is(child, "enum_declaration");
        if is_class || is_interface || is_enum {
            if let Some(name_node) = tree.child_by_field_name(child, "name") {
                let kind = if is_class {
                    ContainerKind::Class
                } else if is_interface {
                    ContainerKind::Interface
                } else {
                    ContainerKind::Enum
                };
                let members = match tree.child_by_field_name(child, "body") {
                    Some(body) => extract_members(tree, body),
                    None => {
                        let v: Vec<Member> = Vec::new();
                        assert(members_view(v@) =~= Seq::<MemberView>::empty());
                        v
                    },
                };
                let (start_line, end_line) = expand_range_for_trivia(tree, child, 0, &config);
                containers.push(
                    ContainerWithMembers {
                        container: Container {
                            kind,
                            name: tree.text_or(name_node, "<unknown>"),
                            start_line,
                            end_line,
                        },
                        members,
                    },
                );
            }
        }
        assert(containers_view(containers@) =~= containers_view(before) + java_item(
            *tree,
            child as int,
        ));
        i = i + 1;
    }
    assert(tree.kids(0).subrange(0, n as int) =~= tree.kids(0));
    containers
}

} // verus!
