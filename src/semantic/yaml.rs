//! Containers of YAML documents: one per key of the block mappings at the
//! top of each document.

use vstd::prelude::*;

use crate::semantic::{
    Container, ContainerKind, ContainerView, ContainerWithMembers, MemberView, ParsedFile,
    TriviaConfig, containers_view, expand_range_for_trivia, expanded_range,
    members_view,
};
use crate::syntax::{SyntaxTree, field_child, text_or};
use crate::text::{trim_whitespace, trimmed};

verus! {

/// The container that node `k`, a child of mapping `m`, stands for: a
/// top-level key, where `k` is a pair with a key.
pub open spec fn yaml_pair(t: SyntaxTree, m: int, k: int) -> Seq<ContainerView> {
    if t.kind_of(k) == "block_mapping_pair"@ {
        match field_child(t, k, "key"@) {
            Some(key) => {
                let rows = expanded_range(t, k, m, Seq::<&str>::empty(), seq!["comment"]);
                seq![
                    (
                        ContainerKind::Section { level: 1 },
                        trimmed(text_or(t, key as int, "<unknown>"@)),
                        rows.0,
                        rows.1,
                        Seq::<MemberView>::empty(),
                    ),
                ]
            },
            None => seq![],
        }
    } else {
        seq![]
    }
}

/// The containers of the pairs `kids` of mapping `m`.
pub open spec fn yaml_pairs(t: SyntaxTree, m: int, kids: Seq<usize>) -> Seq<ContainerView>
    decreases kids.len(),
{
    if kids.len() == 0 {
        seq![]
    } else {
        yaml_pairs(t, m, kids.drop_last()) + yaml_pair(t, m, kids.last() as int)
    }
}

/// The containers that node `n` leads to: the keys of a block mapping, or
/// those that the children of a block node or document lead to.
pub open spec fn yaml_node(t: SyntaxTree, n: int) -> Seq<ContainerView>
    decreases t.nodes@.len() - n, t.kids(n).len() + 1,
{
    if n < 0 || n >= t.nodes@.len() {
        seq![]
    } else if t.kind_of(n) == "block_mapping"@ {
        yaml_pairs(t, n, t.kids(n))
    } else if t.kind_of(n) == "block_node"@ || t.kind_of(n) == "document"@ {
        yaml_nodes(t, n, t.kids(n))
    } else {
        seq![]
    }
}

/// The containers that the children `kids` of node `n` lead to.
pub open spec fn yaml_nodes(t: SyntaxTree, n: int, kids: Seq<usize>) -> Seq<ContainerView>
    decreases t.nodes@.len() - n, kids.len(),
{
    if n < 0 || n >= t.nodes@.len() || kids.len() == 0 {
        seq![]
    } else {
        yaml_nodes(t, n, kids.drop_last()) + if n < kids.last() < t.nodes@.len() {
            yaml_node(t, kids.last() as int)
        } else {
            seq![]
        }
    }
}

/// The containers that top-level node `k` leads to: through each child of a
/// stream or document, or through a block mapping or sequence itself.
pub open spec fn yaml_top(t: SyntaxTree, k: int) -> Seq<ContainerView> {
    if t.kind_of(k) == "stream"@ || t.kind_of(k) == "document"@ {
        yaml_nodes(t, k, t.kids(k))
    } else if t.kind_of(k) == "block_mapping"@ || t.kind_of(k) == "block_sequence"@ {
        yaml_node(t, k)
    } else {
        seq![]
    }
}

/// The containers that the top-level nodes `kids` lead to, in order.
pub open spec fn yaml_tops(t: SyntaxTree, kids: Seq<usize>) -> Seq<ContainerView>
    decreases kids.len(),
{
    if kids.len() == 0 {
        seq![]
    } else {
        yaml_tops(t, kids.drop_last()) + yaml_top(t, kids.last() as int)
    }
}

/// The keys that the children of `node` lead to, child after child.
fn extract_yaml_children(tree: &SyntaxTree, node: usize, containers: &mut Vec<ContainerWithMembers>)
    requires
        tree.wf(),
        node < tree.nodes@.len(),
    ensures
        containers_view(final(containers)@) == containers_view(old(containers)@) + yaml_nodes(
            *tree,
            node as int,
            tree.kids(node as int),
        ),
    decreases tree.nodes@.len() - node, 0nat,
{
    let n = tree.child_count(node);
    let mut j: usize = 0;
    while j < n
        invariant
            tree.wf(),
            node < tree.nodes@.len(),
            n == tree.kids(node as int).len(),
            j <= n,
            containers_view(containers@) == containers_view(old(containers)@) + yaml_nodes(
                *tree,
                node as int,
                tree.kids(node as int).subrange(0, j as int),
            ),
        decreases n - j,
    {
        let ghost before = containers@;
        assert(tree.kids(node as int).subrange(0, j + 1).drop_last() =~= tree.kids(
            node as int,
        ).subrange(0, j as int));
        let c = tree.child_at(node, j);
        assert(tree.kids(node as int).subrange(0, j + 1).last() == c);
        extract_yaml_mappings(tree, c, containers);
        assert(containers_view(containers@) =~= containers_view(before) + yaml_node(*tree, c as int));
        j = j + 1;
    }
    assert(tree.kids(node as int).subrange(0, n as int) =~= tree.kids(node as int));
}

/// The keys of the block mappings that `node` leads to, through block
/// nodes and documents.
fn extract_yaml_mappings(tree: &SyntaxTree, node: usize, containers: &mut Vec<ContainerWithMembers>)
    requires
        tree.wf(),
        node < tree.nodes@.len(),
    ensures
        containers_view(final(containers)@) == containers_view(old(containers)@) + yaml_node(
            *tree,
            node as int,
        ),
    decreases tree.nodes@.len() - node, 1nat,
{
    let n = tree.child_count(node);
    if tree.kind_is(node, "block_mapping") {
        let config = TriviaConfig::generic();
        let mut j: usize = 0;
        while j < n
            invariant
                tree.wf(),
                node < tree.nodes@.len(),
                n == tree.kids(node as int).len(),
                j <= n,
                config.always_include@ == Seq::<&str>::empty(),
                config.adjacent_only@ == seq!["comment"],
                containers_view(containers@) == containers_view(old(containers)@) + yaml_pairs(
                    *tree,
                    node as int,
                    tree.kids(node as int).subrange(0, j as int),
                ),
            decreases n - j,
        {
            let ghost before = containers@;
            assert(tree.kids(node as int).subrange(0, j + 1).drop_last() =~= tree.kids(
                node as int,
            ).subrange(0, j as int));
            let pair = tree.child_at(node, j);
            assert(tree.kids(node as int).subrange(0, j + 1).last() == pair);
            if tree.kind_is(pair, "block_mapping_pair") {
                if let Some(key) = tree.child_by_field_name(pair, "key") {
                    let text = tree.text_or(key, "<unknown>");
                    let (start_line, end_line) = expand_range_for_trivia(tree, pair, node, &config);
                    let c = ContainerWithMembers {
                        container: Container {
                            kind: ContainerKind::Section { level: 1 },
                            name: trim_whitespace(text.as_str()),
                            start_line,
                            end_line,
                        },
                        members: Vec::new(),
                    };
                    assert(members_view(c.members@) =~= Seq::<MemberView>::empty());
                    containers.push(c);
                }
            }
            assert(containers_view(containers@) =~= containers_view(before) + yaml_pair(
                *tree,
                node as int,
                pair as int,
            ));
            j = j + 1;
        }
        assert(tree.kids(node as int).subrange(0, n as int) =~= tree.kids(node as int));
    } else if tree.kind_is(node, "block_node") || tree.kind_is(node, "document") {
        extract_yaml_children(tree, node, containers);
    } else {
        assert(containers_view(containers@) =~= containers_view(old(containers)@) + yaml_node(
            *tree,
            node as int,
        ));
    }
}

/// The containers of a YAML file: one per key of the top-level block
/// mappings, in document order, each of kind `Section` at level 1.
pub fn extract_containers_with_members(parsed: &ParsedFile) -> (r: Vec<ContainerWithMembers>)
    requires
        parsed.tree.wf(),
    ensures
        containers_view(r@) == yaml_tops(parsed.tree, parsed.tree.kids(0)),
{
    let tree = &parsed.tree;
    let mut containers: Vec<ContainerWithMembers> = Vec::new();
    let n = tree.child_count(0);
    let mut i: usize = 0;
    while i < n
        invariant
            tree.wf(),
            *tree == parsed.tree,
            n == tree.kids(0).len(),
            i <= n,
            containers_view(containers@) == yaml_tops(*tree, tree.kids(0).subrange(0, i as int)),
        decreases n - i,
    {
        let ghost before = containers@;
        assert(tree.kids(0).subrange(0, i + 1).drop_last() =~= tree.kids(0).subrange(0, i as int));
        let child = tree.child_at(0, i);
        assert(tree.kids(0).subrange(0, i + 1).last() == child);
        if tree.kind_is(child, "stream") || tree.kind_is(child, "document") {
            extract_yaml_children(tree, child, &mut containers);
        } else if tree.kind_is(child, "block_mapping") || tree.kind_is(child, "block_sequence") {
            extract_yaml_mappings(tree, child, &mut containers);
        }
        assert(containers_view(containers@) =~= containers_view(before) + yaml_top(*tree, child as int));
        i = i + 1;
    }
    assert(tree.kids(0).subrange(0, n as int) =~= tree.kids(0));
    containers
}

} // verus!
