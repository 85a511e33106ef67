//! Containers of Markdown documents: one section per heading, nested
//! sections included.

use vstd::prelude::*;

use crate::semantic::{
    Container, ContainerKind, ContainerView, ContainerWithMembers, MemberView, ParsedFile,
    TriviaConfig, container_view, containers_view, expand_range_for_trivia, expanded_range,
    members_view,
};
use crate::syntax::{SyntaxTree, text_or};
use crate::text::{contains_text, holds_at, trim_whitespace, trimmed};

verus! {

/// The level that a heading marker kind gives, or 0 for another kind.
pub open spec fn marker_level(kind: Seq<char>) -> usize {
    if kind == "atx_h1_marker"@ {
        1
    } else if kind == "atx_h2_marker"@ {
        2
    } else if kind == "atx_h3_marker"@ {
        3
    } else if kind == "atx_h4_marker"@ {
        4
    } else if kind == "atx_h5_marker"@ {
        5
    } else if kind == "atx_h6_marker"@ {
        6
    } else {
        0
    }
}

/// The level of the first marker among `kids`, or 1 where there is none.
pub open spec fn first_marker_level(t: SyntaxTree, kids: Seq<usize>) -> usize
    decreases kids.len(),
{
    if kids.len() == 0 {
        1
    } else if marker_level(t.kind_of(kids[0] as int)) > 0 {
        marker_level(t.kind_of(kids[0] as int))
    } else {
        first_marker_level(t, kids.drop_first())
    }
}

/// The level of heading `h`: from its marker for an ATX heading; for a
/// setext heading 1 where its text holds `===`, else 2.
pub open spec fn heading_level_of(t: SyntaxTree, h: int) -> usize {
    if t.kind_of(h) == "atx_heading"@ {
        first_marker_level(t, t.kids(h))
    } else if exists|i: int| holds_at(text_or(t, h, ""@), "==="@, i) {
        1
    } else {
        2
    }
}

/// The first inline or paragraph node among `kids`.
pub open spec fn first_text_child(t: SyntaxTree, kids: Seq<usize>) -> Option<usize>
    decreases kids.len(),
{
    if kids.len() == 0 {
        None
    } else if t.kind_of(kids[0] as int) == "inline"@ || t.kind_of(kids[0] as int) == "paragraph"@ {
        Some(kids[0])
    } else {
        first_text_child(t, kids.drop_first())
    }
}

/// The text of heading `h`: that of its first inline or paragraph child,
/// trimmed.
pub open spec fn heading_name(t: SyntaxTree, h: int) -> Seq<char> {
    match first_text_child(t, t.kids(h)) {
        Some(c) => trimmed(text_or(t, c as int, "<unknown>"@)),
        None => trimmed("<unknown>"@),
    }
}

/// The container of heading `h`.
pub open spec fn heading_container(t: SyntaxTree, h: int) -> ContainerView {
    let rows = expanded_range(t, h, 0, Seq::<&str>::empty(), seq!["comment"]);
    (
        ContainerKind::Section { level: heading_level_of(t, h) },
        heading_name(t, h),
        rows.0,
        rows.1,
        Seq::<MemberView>::empty(),
    )
}

/// The headings that node `k`, a child of section `s`, holds: its own
/// container for a heading, those of a nested section.
pub open spec fn section_child(t: SyntaxTree, s: int, k: int) -> Seq<ContainerView>
    decreases t.nodes@.len() - s, 0nat,
{
    if s < 0 || s >= t.nodes@.len() {
        seq![]
    } else if t.kind_of(k) == "section"@ {
        if s < k < t.nodes@.len() {
            section_headings(t, k, t.kids(k))
        } else {
            seq![]
        }
    } else if t.kind_of(k) == "atx_heading"@ || t.kind_of(k) == "setext_heading"@ {
        seq![heading_container(t, k)]
    } else {
        seq![]
    }
}

/// The headings that the nodes `kids` of section `s` hold, nested sections
/// included, in document order.
pub open spec fn section_headings(t: SyntaxTree, s: int, kids: Seq<usize>) -> Seq<ContainerView>
    decreases t.nodes@.len() - s, kids.len(),
{
    if s < 0 || s >= t.nodes@.len() || kids.len() == 0 {
        seq![]
    } else {
        section_headings(t, s, kids.drop_last()) + section_child(t, s, kids.last() as int)
    }
}

/// The headings of the top-level sections among `kids`, in document order.
pub open spec fn document_headings(t: SyntaxTree, kids: Seq<usize>) -> Seq<ContainerView>
    decreases kids.len(),
{
    if kids.len() == 0 {
        seq![]
    } else {
        let k = kids.last() as int;
        document_headings(t, kids.drop_last()) + if t.kind_of(k) == "section"@ {
            section_headings(t, k, t.kids(k))
        } else {
            seq![]
        }
    }
}

/// The level of an ATX heading: that of its first level marker, 1 where it
/// has none.
fn atx_level(tree: &SyntaxTree, heading: usize) -> (r: usize)
    requires
        tree.wf(),
        heading < tree.nodes@.len(),
    ensures
        1 <= r <= 6,
        r == first_marker_level(*tree, tree.kids(heading as int)),
{
    let n = tree.child_count(heading);
    let mut j: usize = 0;
    assert(tree.kids(heading as int).subrange(0, n as int) =~= tree.kids(heading as int));
    while j < n
        invariant
            tree.wf(),
            heading < tree.nodes@.len(),
            n == tree.kids(heading as int).len(),
            j <= n,
            first_marker_level(*tree, tree.kids(heading as int)) == first_marker_level(
                *tree,
                tree.kids(heading as int).subrange(j as int, n as int),
            ),
        decreases n - j,
    {
        let ghost rest = tree.kids(heading as int).subrange(j as int, n as int);
        assert(rest.drop_first() =~= tree.kids(heading as int).subrange(j + 1, n as int));
        let c = tree.child_at(heading, j);
        assert(rest[0] == c);
        if tree.kind_is(c, "atx_h1_marker") {
            return 1;
        } else if tree.kind_is(c, "atx_h2_marker") {
            return 2;
        } else if tree.kind_is(c, "atx_h3_marker") {
            return 3;
        } else if tree.kind_is(c, "atx_h4_marker") {
            return 4;
        } else if tree.kind_is(c, "atx_h5_marker") {
            return 5;
        } else if tree.kind_is(c, "atx_h6_marker") {
            return 6;
        }
        j = j + 1;
    }
    assert(tree.kids(heading as int).subrange(n as int, n as int) =~= Seq::<usize>::empty());
    1
}

/// The level of a heading: from its marker for an ATX heading; for a setext
/// heading 1 where it is underlined with `===`, else 2.
fn heading_level(tree: &SyntaxTree, heading: usize) -> (r: usize)
    requires
        tree.wf(),
        heading < tree.nodes@.len(),
    ensures
        1 <= r <= 6,
        r == heading_level_of(*tree, heading as int),
{
    if tree.kind_is(heading, "atx_heading") {
        atx_level(tree, heading)
    } else {
        let text = tree.text_or(heading, "");
        if contains_text(text.as_str(), "===") {
            1
        } else {
            2
        }
    }
}

/// The text of a heading: that of its first inline or paragraph child,
/// trimmed.
fn heading_text(tree: &SyntaxTree, heading: usize) -> (r: String)
    requires
        tree.wf(),
        heading < tree.nodes@.len(),
    ensures
        r@ == heading_name(*tree, heading as int),
{
    let n = tree.child_count(heading);
    let mut j: usize = 0;
    assert(tree.kids(heading as int).subrange(0, n as int) =~= tree.kids(heading as int));
    while j < n
        invariant
            tree.wf(),
            heading < tree.nodes@.len(),
            n == tree.kids(heading as int).len(),
            j <= n,
            first_text_child(*tree, tree.kids(heading as int)) == first_text_child(
                *tree,
                tree.kids(heading as int).subrange(j as int, n as int),
            ),
        decreases n - j,
    {
        let ghost rest = tree.kids(heading as int).subrange(j as int, n as int);
        assert(rest.drop_first() =~= tree.kids(heading as int).subrange(j + 1, n as int));
        let c = tree.child_at(heading, j);
        assert(rest[0] == c);
        if tree.kind_is(c, "inline") || tree.kind_is(c, "paragraph") {
            let text = tree.text_or(c, "<unknown>");
            return trim_whitespace(text.as_str());
        }
        j = j + 1;
    }
    assert(tree.kids(heading as int).subrange(n as int, n as int) =~= Seq::<usize>::empty());
    trim_whitespace("<unknown>")
}

/// The headings of a section node and of the sections nested in it, in
/// document order.
fn extract_headings_from_section(
    tree: &SyntaxTree,
    section: usize,
    containers: &mut Vec<ContainerWithMembers>,
)
    requires
        tree.wf(),
        section < tree.nodes@.len(),
    ensures
        containers_view(final(containers)@) == containers_view(old(containers)@) + section_headings(
            *tree,
            section as int,
            tree.kids(section as int),
        ),
    decreases tree.nodes@.len() - section,
{
    let config = TriviaConfig::generic();
    let n = tree.child_count(section);
    let mut j: usize = 0;
    while j < n
        invariant
            tree.wf(),
            section < tree.nodes@.len(),
            n == tree.kids(section as int).len(),
            j <= n,
            config.always_include@ == Seq::<&str>::empty(),
            config.adjacent_only@ == seq!["comment"],
            containers_view(containers@) == containers_view(old(containers)@) + section_headings(
                *tree,
                section as int,
                tree.kids(section as int).subrange(0, j as int),
            ),
        decreases n - j,
    {
        let ghost before = containers@;
        assert(tree.kids(section as int).subrange(0, j + 1).drop_last() =~= tree.kids(
            section as int,
        ).subrange(0, j as int));
        let child = tree.child_at(section, j);
        assert(tree.kids(section as int).subrange(0, j + 1).last() == child);
        if tree.kind_is(child, "section") {
            extract_headings_from_section(tree, child, containers);
        } else if tree.kind_is(child, "atx_heading") || tree.kind_is(child, "setext_heading") {
            let level = heading_level(tree, child);
            let name = heading_text(tree, child);
            // Headings are looked up among the root's children, where they
            // do not stand, so no trivia is taken in.
            let (start_line, end_line) = expand_range_for_trivia(tree, child, 0, &config);
            let c = ContainerWithMembers {
                container: Container { kind: ContainerKind::Section { level }, name, start_line, end_line },
                members: Vec::new(),
            };
            assert(members_view(c.members@) =~= Seq::<MemberView>::empty());
            assert(container_view(c) == heading_container(*tree, child as int));
            containers.push(c);
        }
        assert(containers_view(containers@) =~= containers_view(before) + section_child(
            *tree,
            section as int,
            child as int,
        ));
        j = j + 1;
    }
    assert(tree.kids(section as int).subrange(0, n as int) =~= tree.kids(section as int));
}

/// The containers of a Markdown file: one per heading, in document order,
/// each of kind `Section` with the heading's level.
pub fn extract_containers_with_members(parsed: &ParsedFile) -> (r: Vec<ContainerWithMembers>)
    requires
        parsed.tree.wf(),
    ensures
        containers_view(r@) == document_headings(parsed.tree, parsed.tree.kids(0)),
{
    let tree = &parsed.tree;
    let mut containers: Vec<ContainerWithMembers> = Vec::new();
    let n = tree.child_count(0);
    let mut i: usize = 0;
    while i < n
        invariant
            tree.wf(),
            *tree == parsed.tree,
            n == tree.kids(0).len(),
            i <= n,
            containers_view(containers@) == document_headings(*tree, tree.kids(0).subrange(0, i as int)),
        decreases n - i,
    {
        let ghost before = containers@;
        assert(tree.kids(0).subrange(0, i + 1).drop_last() =~= tree.kids(0).subrange(0, i as int));
        let child = tree.child_at(0, i);
        assert(tree.kids(0).subrange(0, i + 1).last() == child);
        if tree.kind_is(child, "section") {
            extract_headings_from_section(tree, child, &mut containers);
        }
        assert(containers_view(containers@) =~= containers_view(before) + (if tree.kind_of(
            child as int,
        ) == "section"@ {
            section_headings(*tree, child as int, tree.kids(child as int))
        } else {
            Seq::<ContainerView>::empty()
        }));
        i = i + 1;
    }
    assert(tree.kids(0).subrange(0, n as int) =~= tree.kids(0));
    containers
}

} // verus!
