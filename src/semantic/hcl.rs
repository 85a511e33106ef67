//! Containers of HCL configuration: resource, data, variable, output and
//! module blocks.

use vstd::prelude::*;

use crate::semantic::{
    Container, ContainerKind, ContainerWithMembers, ParsedFile, TriviaConfig,
    expand_range_for_trivia,
};
use crate::semantic::{expanded_range, extend_start_over_trivia, extended_start};
use crate::syntax::{SyntaxTree, text_or};
use crate::text::{strip_quotes, unquoted};

verus! {

/// A block container's kind as plain values: a tag for the kind and the
/// resource or data type, where it has one.
pub open spec fn kind_tag(k: ContainerKind) -> (nat, Seq<char>) {
    match k {
        ContainerKind::Resource { resource_type } => (0, resource_type@),
        ContainerKind::DataSource { data_type } => (1, data_type@),
        ContainerKind::Variable => (2, seq![]),
        ContainerKind::Output => (3, seq![]),
        ContainerKind::Module => (4, seq![]),
        _ => (5, seq![]),
    }
}

/// A block container as plain values: kind tag, name, first and last row.
pub open spec fn block_view(c: ContainerWithMembers) -> ((nat, Seq<char>), Seq<char>, usize, usize) {
    (kind_tag(c.container.kind), c.container.name@, c.container.start_line, c.container.end_line)
}

/// The labels among `kids`: the texts of the string literals, unquoted.
pub open spec fn label_texts(t: SyntaxTree, kids: Seq<usize>) -> Seq<Seq<char>>
    decreases kids.len(),
{
    if kids.len() == 0 {
        seq![]
    } else {
        let k = kids.last() as int;
        label_texts(t, kids.drop_last()) + if t.kind_of(k) == "string_lit"@ && t.nodes@[k].text is Some {
            seq![unquoted(t.nodes@[k].text.unwrap()@)]
        } else {
            seq![]
        }
    }
}

/// `block_meaning` over plain values: the kind tag and name that a block
/// type and its labels stand for.
pub open spec fn block_meaning_view(block_type: Seq<char>, labels: Seq<Seq<char>>) -> Option<
    ((nat, Seq<char>), Seq<char>),
> {
    if block_type == "resource"@ {
        if labels.len() >= 2 {
            Some(((0, labels[0]), labels[1]))
        } else {
            None
        }
    } else if block_type == "data"@ {
        if labels.len() >= 2 {
            Some(((1, labels[0]), labels[1]))
        } else {
            None
        }
    } else if block_type == "variable"@ {
        if labels.len() >= 1 {
            Some(((2, seq![]), labels[0]))
        } else {
            None
        }
    } else if block_type == "output"@ {
        if labels.len() >= 1 {
            Some(((3, seq![]), labels[0]))
        } else {
            None
        }
    } else if block_type == "module"@ {
        if labels.len() >= 1 {
            Some(((4, seq![]), labels[0]))
        } else {
            None
        }
    } else {
        None
    }
}

/// The rows of block `k` of body `body`, the comments directly above it
/// taken in; for the body's first block, also those above the body among
/// the root's children.
pub open spec fn block_rows(t: SyntaxTree, body: int, k: int, first: bool) -> (usize, usize) {
    let rows = expanded_range(t, k, body, Seq::<&str>::empty(), seq!["comment"]);
    if first {
        (
            extended_start(t, body, 0, rows.0 as int, Seq::<&str>::empty(), seq!["comment"]) as usize,
            rows.1,
        )
    } else {
        rows
    }
}

/// The container that node `k` of body `body` stands for: a block whose
/// first child is its type and whose string literals are its labels.
pub open spec fn hcl_block(t: SyntaxTree, body: int, k: int, first: bool) -> Seq<((nat, Seq<char>), Seq<char>, usize, usize)> {
    if t.kind_of(k) == "block"@ && t.kids(k).len() > 0 && t.kind_of(t.kids(k)[0] as int)
        == "identifier"@ {
        match block_meaning_view(
            text_or(t, t.kids(k)[0] as int, "<unknown>"@),
            label_texts(t, t.kids(k)),
        ) {
            Some((tag, name)) => {
                let rows = block_rows(t, body, k, first);
                seq![(tag, name, rows.0, rows.1)]
            },
            None => seq![],
        }
    } else {
        seq![]
    }
}

/// The containers that the nodes `kids` of body `body` stand for.
pub open spec fn hcl_blocks(t: SyntaxTree, body: int, kids: Seq<usize>) -> Seq<((nat, Seq<char>), Seq<char>, usize, usize)>
    decreases kids.len(),
{
    if kids.len() == 0 {
        seq![]
    } else {
        hcl_blocks(t, body, kids.drop_last()) + hcl_block(
            t,
            body,
            kids.last() as int,
            kids.len() == 1,
        )
    }
}

/// The containers of the bodies among the top-level nodes `kids`.
pub open spec fn hcl_bodies(t: SyntaxTree, kids: Seq<usize>) -> Seq<((nat, Seq<char>), Seq<char>, usize, usize)>
    decreases kids.len(),
{
    if kids.len() == 0 {
        seq![]
    } else {
        let k = kids.last() as int;
        hcl_bodies(t, kids.drop_last()) + if t.kind_of(k) == "body"@ {
            hcl_blocks(t, k, t.kids(k))
        } else {
            seq![]
        }
    }
}

/// The labels of a block: the texts of its string literal children, without
/// their quotes.
fn block_labels(tree: &SyntaxTree, block: usize) -> (r: Vec<String>)
    requires
        tree.wf(),
        block < tree.nodes@.len(),
    ensures
        r@.map_values(|l: String| l@) == label_texts(*tree, tree.kids(block as int)),
{
    let mut labels: Vec<String> = Vec::new();
    let n = tree.child_count(block);
    let mut j: usize = 0;
    while j < n
        invariant
            tree.wf(),
            block < tree.nodes@.len(),
            n == tree.kids(block as int).len(),
            j <= n,
            labels@.map_values(|l: String| l@) == label_texts(
                *tree,
                tree.kids(block as int).subrange(0, j as int),
            ),
        decreases n - j,
    {
        let ghost before = labels@;
        assert(tree.kids(block as int).subrange(0, j + 1).drop_last() =~= tree.kids(
            block as int,
        ).subrange(0, j as int));
        let c = tree.child_at(block, j);
        assert(tree.kids(block as int).subrange(0, j + 1).last() == c);
        if tree.kind_is(c, "string_lit") {
            if let Some(text) = &tree.nodes[c].text {
                labels.push(strip_quotes(text.as_str()));
            }
        }
        assert(labels@.map_values(|l: String| l@) =~= label_texts(
            *tree,
            tree.kids(block as int).subrange(0, j + 1),
        ));
        j = j + 1;
    }
    assert(tree.kids(block as int).subrange(0, n as int) =~= tree.kids(block as int));
    labels
}

/// The kind and name that a block type and its labels stand for: a resource
/// or data source takes its type from the first label and its name from the
/// second; a variable, output or module its name from the first. Other block
/// types, and blocks short of labels, stand for nothing.
pub open spec fn block_meaning(block_type: Seq<char>, labels: Seq<String>) -> Option<(ContainerKind, String)> {
    if block_type == "resource"@ {
        if labels.len() >= 2 {
            Some((ContainerKind::Resource { resource_type: labels[0] }, labels[1]))
        } else {
            None
        }
    } else if block_type == "data"@ {
        if labels.len() >= 2 {
            Some((ContainerKind::DataSource { data_type: labels[0] }, labels[1]))
        } else {
            None
        }
    } else if block_type == "variable"@ {
        if labels.len() >= 1 {
            Some((ContainerKind::Variable, labels[0]))
        } else {
            None
        }
    } else if block_type == "output"@ {
        if labels.len() >= 1 {
            Some((ContainerKind::Output, labels[0]))
        } else {
            None
        }
    } else if block_type == "module"@ {
        if labels.len() >= 1 {
            Some((ContainerKind::Module, labels[0]))
        } else {
            None
        }
    } else {
        None
    }
}

/// The kind and name that a block type and its labels stand for.
pub fn block_kind_and_name(block_type: &str, labels: &Vec<String>) -> (r: Option<(ContainerKind, String)>)
    ensures
        r == block_meaning(block_type@, labels@),
        block_meaning_view(block_type@, labels@.map_values(|l: String| l@)) == match r {
            Some((kind, name)) => Some((kind_tag(kind), name@)),
            None => None,
        },
{
    if crate::syntax::str_eq(block_type, "resource") {
        if labels.len() >= 2 {
            return Some(
                (ContainerKind::Resource { resource_type: labels[0].clone() }, labels[1].clone()),
            );
        }
    } else if crate::syntax::str_eq(block_type, "data") {
        if labels.len() >= 2 {
            return Some(
                (ContainerKind::DataSource { data_type: labels[0].clone() }, labels[1].clone()),
            );
        }
    } else if crate::syntax::str_eq(block_type, "variable") {
        if labels.len() >= 1 {
            return Some((ContainerKind::Variable, labels[0].clone()));
        }
    } else if crate::syntax::str_eq(block_type, "output") {
        if labels.len() >= 1 {
            return Some((ContainerKind::Output, labels[0].clone()));
        }
    } else if crate::syntax::str_eq(block_type, "module") {
        if labels.len() >= 1 {
            return Some((ContainerKind::Module, labels[0].clone()));
        }
    }
    None
}

/// A container that a configuration block stands for: one of the five
/// block kinds, without members.
pub open spec fn is_block_container(c: ContainerWithMembers) -> bool {
    &&& c.members@.len() == 0
    &&& match c.container.kind {
        ContainerKind::Resource { .. } | ContainerKind::DataSource { .. } | ContainerKind::Variable
        | ContainerKind::Output | ContainerKind::Module => true,
        _ => false,
    }
}

/// The blocks of a body node that stand for a container.
fn extract_hcl_blocks(tree: &SyntaxTree, body: usize, containers: &mut Vec<ContainerWithMembers>)
    requires
        tree.wf(),
        body < tree.nodes@.len(),
    ensures
        final(containers)@.len() >= old(containers)@.len(),
        forall|i: int|
            0 <= i < old(containers)@.len() ==> #[trigger] final(containers)@[i] == old(
                containers,
            )@[i],
        forall|i: int|
            old(containers)@.len() <= i < final(containers)@.len() ==> is_block_container(
                #[trigger] final(containers)@[i],
            ),
        final(containers)@.map_values(|c: ContainerWithMembers| block_view(c)) == old(
            containers,
        )@.map_values(|c: ContainerWithMembers| block_view(c)) + hcl_blocks(
            *tree,
            body as int,
            tree.kids(body as int),
        ),
{
    let config = TriviaConfig::hcl();
    let n = tree.child_count(body);
    let mut j: usize = 0;
    while j < n
        invariant
            tree.wf(),
            body < tree.nodes@.len(),
            n == tree.kids(body as int).len(),
            containers@.len() >= old(containers)@.len(),
            forall|i: int|
                0 <= i < old(containers)@.len() ==> #[trigger] containers@[i] == old(
                    containers,
                )@[i],
            forall|i: int|
                old(containers)@.len() <= i < containers@.len() ==> is_block_container(
                    #[trigger] containers@[i],
                ),
            j <= n,
            config.always_include@ == Seq::<&str>::empty(),
            config.adjacent_only@ == seq!["comment"],
            containers@.map_values(|c: ContainerWithMembers| block_view(c)) == old(
                containers,
            )@.map_values(|c: ContainerWithMembers| block_view(c)) + hcl_blocks(
                *tree,
                body as int,
                tree.kids(body as int).subrange(0, j as int),
            ),
        decreases n - j,
    {
        let ghost before = containers@;
        assert(tree.kids(body as int).subrange(0, j + 1).drop_last() =~= tree.kids(
            body as int,
        ).subrange(0, j as int));
        let block = tree.child_at(body, j);
        assert(tree.kids(body as int).subrange(0, j + 1).last() == block);
        if tree.kind_is(block, "block") && tree.child_count(block) > 0 {
            let first = tree.child_at(block, 0);
            if tree.kind_is(first, "identifier") {
                let block_type = tree.text_or(first, "<unknown>");
                let labels = block_labels(tree, block);
                if let Some((kind, name)) = block_kind_and_name(block_type.as_str(), &labels) {
                    let (own_start, end_line) = expand_range_for_trivia(tree, block, body, &config);
                    let start_line = if j == 0 {
                        extend_start_over_trivia(tree, body, 0, own_start, &config)
                    } else {
                        own_start
                    };
                    containers.push(
                        ContainerWithMembers {
                            container: Container { kind, name, start_line, end_line },
                            members: Vec::new(),
                        },
                    );
                }
            }
        }
        assert(containers@.map_values(|c: ContainerWithMembers| block_view(c)) =~= before.map_values(
            |c: ContainerWithMembers| block_view(c),
        ) + hcl_block(*tree, body as int, block as int, j == 0));
        j = j + 1;
    }
    assert(tree.kids(body as int).subrange(0, n as int) =~= tree.kids(body as int));
}

/// The containers of an HCL file in source order, one per recognised block
/// of the top-level bodies.
pub fn extract_containers_with_members(parsed: &ParsedFile) -> (r: Vec<ContainerWithMembers>)
    requires
        parsed.tree.wf(),
    ensures
        forall|i: int| 0 <= i < r@.len() ==> is_block_container(#[trigger] r@[i]),
        r@.map_values(|c: ContainerWithMembers| block_view(c)) == hcl_bodies(
            parsed.tree,
            parsed.tree.kids(0),
        ),
{
    let tree = &parsed.tree;
    let mut containers: Vec<ContainerWithMembers> = Vec::new();
    let n = tree.child_count(0);
    let mut i: usize = 0;
    while i < n
        invariant
            tree.wf(),
            n == tree.kids(0).len(),
            forall|k: int| 0 <= k < containers@.len() ==> is_block_container(#[trigger] containers@[k]),
            *tree == parsed.tree,
            i <= n,
            containers@.map_values(|c: ContainerWithMembers| block_view(c)) == hcl_bodies(
                *tree,
                tree.kids(0).subrange(0, i as int),
            ),
        decreases n - i,
    {
        let ghost before = containers@;
        assert(tree.kids(0).subrange(0, i + 1).drop_last() =~= tree.kids(0).subrange(0, i as int));
        let child = tree.child_at(0, i);
        assert(tree.kids(0).subrange(0, i + 1).last() == child);
        if tree.kind_is(child, "body") {
            extract_hcl_blocks(tree, child, &mut containers);
        }
        assert(containers@.map_values(|c: ContainerWithMembers| block_view(c)) =~= before.map_values(
            |c: ContainerWithMembers| block_view(c),
        ) + if tree.kind_of(child as int) == "body"@ {
            hcl_blocks(*tree, child as int, tree.kids(child as int))
        } else {
            Seq::empty()
        });
        i = i + 1;
    }
    assert(tree.kids(0).subrange(0, n as int) =~= tree.kids(0));
    containers
}

} // verus!
