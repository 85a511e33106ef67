//! Containers of Rust source: structs with their fields, impl blocks with
//! their methods, functions, and modules with the functions inside them.

use vstd::prelude::*;

use crate::semantic::{
    Container, ContainerKind, ContainerView, ContainerWithMembers, Member, MemberKind, MemberView,
    ParsedFile, TriviaConfig, containers_view, expand_range_for_trivia,
    expanded_range, members_view,
};
use crate::syntax::{SyntaxTree, field_child, name_of, text_or};

verus! {

/// Rust's trivia taken in wherever it stands: attributes.
pub open spec fn rust_always() -> Seq<&'static str> {
    seq!["attribute_item"]
}

/// Rust's trivia taken in while adjacent: comments.
pub open spec fn rust_adjacent() -> Seq<&'static str> {
    seq!["line_comment", "block_comment"]
}

/// The rows of node `k` under `parent`, Rust trivia taken in.
pub open spec fn rust_rows(t: SyntaxTree, k: int, parent: int) -> (usize, usize) {
    expanded_range(t, k, parent, rust_always(), rust_adjacent())
}

/// The member that node `k`, a child of `list`, stands for: one of kind
/// `mk` where the node is of kind `item` and has a name.
pub open spec fn item_member(t: SyntaxTree, list: int, k: int, item: Seq<char>, mk: MemberKind) -> Seq<MemberView> {
    match name_of(t, k) {
        Some(name) => if t.kind_of(k) == item {
            seq![(mk, name, rust_rows(t, k, list).0, rust_rows(t, k, list).1)]
        } else {
            seq![]
        },
        None => seq![],
    }
}

/// The members that the nodes `kids` of `list` stand for, in order.
pub open spec fn items_members(
    t: SyntaxTree,
    list: int,
    kids: Seq<usize>,
    item: Seq<char>,
    mk: MemberKind,
) -> Seq<MemberView>
    decreases kids.len(),
{
    if kids.len() == 0 {
        seq![]
    } else {
        items_members(t, list, kids.drop_last(), item, mk) + item_member(
            t,
            list,
            kids.last() as int,
            item,
            mk,
        )
    }
}

/// The members in the `body` of node `n`: one per child of kind `item` with
/// a name.
pub open spec fn body_members(t: SyntaxTree, n: int, item: Seq<char>, mk: MemberKind) -> Seq<MemberView> {
    match field_child(t, n, "body"@) {
        Some(list) => items_members(t, list as int, t.kids(list as int), item, mk),
        None => seq![],
    }
}

/// The trait that impl node `k` implements: the text of its `trait` child.
pub open spec fn trait_of(t: SyntaxTree, k: int) -> Option<String> {
    match field_child(t, k, "trait"@) {
        Some(c) => t.nodes@[c as int].text,
        None => None,
    }
}

/// The function container that node `k` of a module body stands for, if it
/// is a named function.
pub open spec fn module_function(t: SyntaxTree, body: int, k: int) -> Seq<ContainerView> {
    match name_of(t, k) {
        Some(name) => if t.kind_of(k) == "function_item"@ {
            seq![
                (
                    ContainerKind::Function,
                    name,
                    rust_rows(t, k, body).0,
                    rust_rows(t, k, body).1,
                    Seq::<MemberView>::empty(),
                ),
            ]
        } else {
            seq![]
        },
        None => seq![],
    }
}

/// The function containers that the nodes `kids` of a module body stand
/// for.
pub open spec fn module_functions(t: SyntaxTree, body: int, kids: Seq<usize>) -> Seq<ContainerView>
    decreases kids.len(),
{
    if kids.len() == 0 {
        seq![]
    } else {
        module_functions(t, body, kids.drop_last()) + module_function(t, body, kids.last() as int)
    }
}

/// The containers that top-level node `k` stands for: a struct with its
/// fields, an impl (named after its type) with its methods, a function, or a
/// module followed by the functions directly in its body.
pub open spec fn rust_item(t: SyntaxTree, k: int) -> Seq<ContainerView> {
    let rows = rust_rows(t, k, 0);
    if t.kind_of(k) == "struct_item"@ {
        match name_of(t, k) {
            Some(name) => seq![
                (
                    ContainerKind::Struct,
                    name,
                    rows.0,
                    rows.1,
                    body_members(t, k, "field_declaration"@, MemberKind::Field),
                ),
            ],
            None => seq![],
        }
    } else if t.kind_of(k) == "impl_item"@ {
        match field_child(t, k, "type"@) {
            Some(ty) => seq![
                (
                    ContainerKind::Impl { trait_name: trait_of(t, k) },
                    text_or(t, ty as int, "<unknown>"@),
                    rows.0,
                    rows.1,
                    body_members(t, k, "function_item"@, MemberKind::Method),
                ),
            ],
            None => seq![],
        }
    } else if t.kind_of(k) == "function_item"@ {
        match name_of(t, k) {
            Some(name) => seq![
                (ContainerKind::Function, name, rows.0, rows.1, Seq::<MemberView>::empty()),
            ],
            None => seq![],
        }
    } else if t.kind_of(k) == "mod_item"@ {
        (match name_of(t, k) {
            Some(name) => seq![
                (ContainerKind::Module, name, rows.0, rows.1, Seq::<MemberView>::empty()),
            ],
            None => seq![],
        }) + match field_child(t, k, "body"@) {
            Some(body) => module_functions(t, body as int, t.kids(body as int)),
            None => seq![],
        }
    } else {
        seq![]
    }
}

/// The container that top-level node `k` stands for with the node's own
/// rows: a struct, an impl (named after its type) or a function.
pub open spec fn rust_plain_item(t: SyntaxTree, k: int) -> Seq<(ContainerKind, Seq<char>, usize, usize)> {
    let n = t.nodes@[k];
    if t.kind_of(k) == "struct_item"@ {
        match name_of(t, k) {
            Some(name) => seq![(ContainerKind::Struct, name, n.start_row, n.end_row)],
            None => seq![],
        }
    } else if t.kind_of(k) == "impl_item"@ {
        match field_child(t, k, "type"@) {
            Some(ty) => seq![
                (
                    ContainerKind::Impl { trait_name: trait_of(t, k) },
                    text_or(t, ty as int, "<unknown>"@),
                    n.start_row,
                    n.end_row,
                ),
            ],
            None => seq![],
        }
    } else if t.kind_of(k) == "function_item"@ {
        match name_of(t, k) {
            Some(name) => seq![(ContainerKind::Function, name, n.start_row, n.end_row)],
            None => seq![],
        }
    } else {
        seq![]
    }
}

/// The containers that the top-level nodes `kids` stand for with their own
/// rows, in order.
pub open spec fn rust_plain_items(t: SyntaxTree, kids: Seq<usize>) -> Seq<
    (ContainerKind, Seq<char>, usize, usize),
>
    decreases kids.len(),
{
    if kids.len() == 0 {
        seq![]
    } else {
        rust_plain_items(t, kids.drop_last()) + rust_plain_item(t, kids.last() as int)
    }
}

/// The plain values of a container without members.
pub open spec fn plain_view(c: Container) -> (ContainerKind, Seq<char>, usize, usize) {
    (c.kind, c.name@, c.start_line, c.end_line)
}

/// The containers that the top-level nodes `kids` stand for, in order.
pub open spec fn rust_items(t: SyntaxTree, kids: Seq<usize>) -> Seq<ContainerView>
    decreases kids.len(),
{
    if kids.len() == 0 {
        seq![]
    } else {
        rust_items(t, kids.drop_last()) + rust_item(t, kids.last() as int)
    }
}

/// The members in the `body` of node `n` of kind `item`, Rust trivia taken
/// in.
fn extract_body_items(tree: &SyntaxTree, n: usize, item: &str, mk: MemberKind) -> (r: Vec<Member>)
    requires
        tree.wf(),
        n < tree.nodes@.len(),
    ensures
        members_view(r@) == body_members(*tree, n as int, item@, mk),
{
    let mut members: Vec<Member> = Vec::new();
    let config = TriviaConfig::rust();
    if let Some(list) = tree.child_by_field_name(n, "body") {
        let kids = tree.child_count(list);
        let mut j: usize = 0;
        while j < kids
            invariant
                tree.wf(),
                list < tree.nodes@.len(),
                kids == tree.kids(list as int).len(),
                j <= kids,
                config.always_include@ == rust_always(),
                config.adjacent_only@ == rust_adjacent(),
                members_view(members@) == items_members(
                    *tree,
                    list as int,
                    tree.kids(list as int).subrange(0, j as int),
                    item@,
                    mk,
                ),
            decreases kids - j,
        {
            let ghost before = members@;
            assert(tree.kids(list as int).subrange(0, j + 1).drop_last() =~= tree.kids(
                list as int,
            ).subrange(0, j as int));
            let c = tree.child_at(list, j);
            assert(tree.kids(list as int).subrange(0, j + 1).last() == c);
            if let Some(name_node) = tree.child_by_field_name(c, "name") {
                if tree.kind_is(c, item) {
                    let (start_line, end_line) = expand_range_for_trivia(tree, c, list, &config);
                    members.push(
                        Member {
                            kind: mk,
                            name: tree.text_or(name_node, "<unknown>"),
                            start_line,
                            end_line,
                        },
                    );
                }
            }
            assert(members_view(members@) =~= members_view(before) + item_member(
                *tree,
                list as int,
                c as int,
                item@,
                mk,
            ));
            j = j + 1;
        }
        assert(tree.kids(list as int).subrange(0, kids as int) =~= tree.kids(list as int));
    }
    members
}

/// The fields of a struct node, each with its attributes and comments.
pub fn extract_struct_fields(tree: &SyntaxTree, struct_node: usize) -> (r: Vec<Member>)
    requires
        tree.wf(),
        struct_node < tree.nodes@.len(),
    ensures
        members_view(r@) == body_members(*tree, struct_node as int, "field_declaration"@, MemberKind::Field),
{
    extract_body_items(tree, struct_node, "field_declaration", MemberKind::Field)
}

/// The methods of an impl node, each with its attributes and comments.
pub fn extract_impl_methods(tree: &SyntaxTree, impl_node: usize) -> (r: Vec<Member>)
    requires
        tree.wf(),
        impl_node < tree.nodes@.len(),
    ensures
        members_view(r@) == body_members(*tree, impl_node as int, "function_item"@, MemberKind::Method),
{
    extract_body_items(tree, impl_node, "function_item", MemberKind::Method)
}

/// The top-level structs, impl blocks and functions, with their exact rows
/// (no trivia).
pub fn extract_containers(parsed: &ParsedFile) -> (r: Vec<Container>)
    requires
        parsed.tree.wf(),
    ensures
        r@.map_values(|c: Container| plain_view(c)) == rust_plain_items(
            parsed.tree,
            parsed.tree.kids(0),
        ),
{
    let tree = &parsed.tree;
    let mut containers: Vec<Container> = Vec::new();
    let n = tree.child_count(0);
    let mut i: usize = 0;
    while i < n
        invariant
            tree.wf(),
            *tree == parsed.tree,
            n == tree.kids(0).len(),
            i <= n,
            containers@.map_values(|c: Container| plain_view(c)) == rust_plain_items(
                *tree,
                tree.kids(0).subrange(0, i as int),
            ),
        decreases n - i,
    {
        let ghost before = containers@;
        assert(tree.kids(0).subrange(0, i + 1).drop_last() =~= tree.kids(0).subrange(0, i as int));
        let child = tree.child_at(0, i);
        assert(tree.kids(0).subrange(0, i + 1).last() == child);
        let start_line = tree.nodes[child].start_row;
        let end_line = tree.nodes[child].end_row;
        if tree.kind_is(child, "struct_item") {
            if let Some(name_node) = tree.child_by_field_name(child, "name") {
                containers.push(
                    Container {
                        kind: ContainerKind::Struct,
                        name: tree.text_or(name_node, "<unknown>"),
                        start_line,
                        end_line,
                    },
                );
            }
        } else if tree.kind_is(child, "impl_item") {
            if let Some(type_node) = tree.child_by_field_name(child, "type") {
                containers.push(
                    Container {
                        kind: ContainerKind::Impl { trait_name: trait_name_of(tree, child) },
                        name: tree.text_or(type_node, "<unknown>"),
                        start_line,
                        end_line,
                    },
                );
            }
        } else if tree.kind_is(child, "function_item") {
            if let Some(name_node) = tree.child_by_field_name(child, "name") {
                containers.push(
                    Container {
                        kind: ContainerKind::Function,
                        name: tree.text_or(name_node, "<unknown>"),
                        start_line,
                        end_line,
                    },
                );
            }
        }
        assert(containers@.map_values(|c: Container| plain_view(c)) =~= before.map_values(
            |c: Container| plain_view(c),
        ) + rust_plain_item(*tree, child as int));
        i = i + 1;
    }
    assert(tree.kids(0).subrange(0, n as int) =~= tree.kids(0));
    containers
}

/// The text of the trait that an impl node implements, if any.
fn trait_name_of(tree: &SyntaxTree, impl_node: usize) -> (r: Option<String>)
    requires
        tree.wf(),
        impl_node < tree.nodes@.len(),
    ensures
        r == trait_of(*tree, impl_node as int),
{
    match tree.child_by_field_name(impl_node, "trait") {
        Some(t) => match &tree.nodes[t].text {
            Some(s) => Some(s.clone()),
            None => None,
        },
        None => None,
    }
}

/// The functions directly inside a module body, as containers of their own.
fn push_module_functions(
    tree: &SyntaxTree,
    body: usize,
    config: &TriviaConfig,
    containers: &mut Vec<ContainerWithMembers>,
)
    requires
        tree.wf(),
        body < tree.nodes@.len(),
        config.always_include@ == rust_always(),
        config.adjacent_only@ == rust_adjacent(),
    ensures
        containers_view(final(containers)@) == containers_view(old(containers)@) + module_functions(
            *tree,
            body as int,
            tree.kids(body as int),
        ),
{
    let n = tree.child_count(body);
    let mut j: usize = 0;
    while j < n
        invariant
            tree.wf(),
            body < tree.nodes@.len(),
            n == tree.kids(body as int).len(),
            j <= n,
            config.always_include@ == rust_always(),
            config.adjacent_only@ == rust_adjacent(),
            containers_view(containers@) == containers_view(old(containers)@) + module_functions(
                *tree,
                body as int,
                tree.kids(body as int).subrange(0, j as int),
            ),
        decreases n - j,
    {
        let ghost before = containers@;
        assert(tree.kids(body as int).subrange(0, j + 1).drop_last() =~= tree.kids(
            body as int,
        ).subrange(0, j as int));
        let item = tree.child_at(body, j);
        assert(tree.kids(body as int).subrange(0, j + 1).last() == item);
        if let Some(name_node) = tree.child_by_field_name(item, "name") {
            if tree.kind_is(item, "function_item") {
                let (start_line, end_line) = expand_range_for_trivia(tree, item, body, config);
                let c = ContainerWithMembers {
                    container: Container {
                        kind: ContainerKind::Function,
                        name: tree.text_or(name_node, "<unknown>"),
                        start_line,
                        end_line,
                    },
                    members: Vec::new(),
                };
                assert(members_view(c.members@) =~= Seq::<MemberView>::empty());
                containers.push(c);
            }
        }
        assert(containers_view(containers@) =~= containers_view(before) + module_function(
            *tree,
            body as int,
            item as int,
        ));
        j = j + 1;
    }
    assert(tree.kids(body as int).subrange(0, n as int) =~= tree.kids(body as int));
}

/// The containers of a Rust file in source order: structs with their
/// fields, impl blocks with their methods, functions, and modules followed by
/// the functions directly inside them. Rows take in attributes and adjacent
/// comments; declarations without a name are skipped.
pub fn extract_containers_with_members(parsed: &ParsedFile) -> (r: Vec<ContainerWithMembers>)
    requires
        parsed.tree.wf(),
    ensures
        containers_view(r@) == rust_items(parsed.tree, parsed.tree.kids(0)),
{
    let tree = &parsed.tree;
    let config = TriviaConfig::rust();
    let mut containers: Vec<ContainerWithMembers> = Vec::new();
    let n = tree.child_count(0);
    let mut i: usize = 0;
    while i < n
        invariant
            tree.wf(),
            *tree == parsed.tree,
            n == tree.kids(0).len(),
            i <= n,
            config.always_include@ == rust_always(),
            config.adjacent_only@ == rust_adjacent(),
            containers_view(containers@) == rust_items(*tree, tree.kids(0).subrange(0, i as int)),
        decreases n - i,
    {
        let ghost before = containers@;
        assert(tree.kids(0).subrange(0, i + 1).drop_last() =~= tree.kids(0).subrange(0, i as int));
        let child = tree.child_at(0, i);
        assert(tree.kids(0).subrange(0, i + 1).last() == child);
        if tree.kind_is(child, "struct_item") {
            if let Some(name_node) = tree.child_by_field_name(child, "name") {
                let (start_line, end_line) = expand_range_for_trivia(tree, child, 0, &config);
                containers.push(
                    ContainerWithMembers {
                        container: Container {
                            kind: ContainerKind::Struct,
                            name: tree.text_or(name_node, "<unknown>"),
                            start_line,
                            end_line,
                        },
                        members: extract_struct_fields(tree, child),
                    },
                );
            }
        } else if tree.kind_is(child, "impl_item") {
            if let Some(type_node) = tree.child_by_field_name(child, "type") {
                let (start_line, end_line) = expand_range_for_trivia(tree, child, 0, &config);
                containers.push(
                    ContainerWithMembers {
                        container: Container {
                            kind: ContainerKind::Impl { trait_name: trait_name_of(tree, child) },
                            name: tree.text_or(type_node, "<unknown>"),
                            start_line,
                            end_line,
                        },
                        members: extract_impl_methods(tree, child),
                    },
                );
            }
        } else if tree.kind_is(child, "function_item") {
            if let Some(name_node) = tree.child_by_field_name(child, "name") {
                let (start_line, end_line) = expand_range_for_trivia(tree, child, 0, &config);
                let c = ContainerWithMembers {
                    container: Container {
                        kind: ContainerKind::Function,
                        name: tree.text_or(name_node, "<unknown>"),
                        start_line,
                        end_line,
                    },
                    members: Vec::new(),
                };
                assert(members_view(c.members@) =~= Seq::<MemberView>::empty());
                containers.push(c);
            }
        } else if tree.kind_is(child, "mod_item") {
            if let Some(name_node) = tree.child_by_field_name(child, "name") {
                let (start_line, end_line) = expand_range_for_trivia(tree, child, 0, &config);
                let c = ContainerWithMembers {
                    container: Container {
                        kind: ContainerKind::Module,
                        name: tree.text_or(name_node, "<unknown>"),
                        start_line,
                        end_line,
                    },
                    members: Vec::new(),
                };
                assert(members_view(c.members@) =~= Seq::<MemberView>::empty());
                containers.push(c);
            }
            let ghost mid = containers@;
            if let Some(body) = tree.child_by_field_name(child, "body") {
                push_module_functions(tree, body, &config, &mut containers);
            }
            assert(containers_view(containers@) =~= containers_view(before) + rust_item(
                *tree,
                child as int,
            ));
        }
        assert(containers_view(containers@) =~= containers_view(before) + rust_item(
            *tree,
            child as int,
        ));
        i = i + 1;
    }
    assert(tree.kids(0).subrange(0, n as int) =~= tree.kids(0));
    containers
}

} // verus!
