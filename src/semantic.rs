//! The semantic view: diff sections grouped by the code structure that a
//! syntax tree shows.

use vstd::prelude::*;

pub use crate::grammar::{LanguageParser, grammar_loads};
use crate::grammar::{
    hcl_parser, java_parser, kotlin_parser, markdown_parser, parse_with, python_parser, rust_parser,
    yaml_parser,
};
use crate::syntax::{SyntaxTree, convert_parsed, str_eq, syntax_ok, tree_of_source};
use crate::text::{extension_of_path, path_extension};
pub use java::{
    extract_containers_with_members as extract_java_containers_with_members,
    extract_members as extract_java_members,
};
pub use kotlin::{
    extract_containers_with_members as extract_kotlin_containers_with_members,
    extract_members as extract_kotlin_members,
};
pub use python::{
    extract_containers_with_members as extract_python_containers_with_members,
    extract_methods as extract_python_methods,
};
pub use rust::{
    extract_containers as extract_rust_containers,
    extract_containers_with_members as extract_rust_containers_with_members,
    extract_impl_methods, extract_struct_fields,
};
use crate::types::{
    ChangeType, File, Section, SectionChangedLine, Tristate, is_editable_spec, lemma_concat_contains,
    section_leaves, tristate_of,
};

verus! {

/// The languages whose structure the semantic view understands.
#[derive(Debug, Clone, Copy, PartialEq, Eq, Structural)]
pub enum SupportedLanguage {
    /// Rust (`.rs`).
    Rust,
    /// Kotlin (`.kt`, `.kts`).
    Kotlin,
    /// Java (`.java`).
    Java,
    /// HCL, as used by Terraform and OpenTofu (`.tf`, `.hcl`).
    Hcl,
    /// Python (`.py`).
    Python,
    /// Markdown (`.md`).
    Markdown,
    /// YAML (`.yaml`, `.yml`).
    Yaml,
}

/// The language that an extension names.
pub open spec fn language_for_extension(e: Seq<char>) -> Option<SupportedLanguage> {
    if e == "rs"@ {
        Some(SupportedLanguage::Rust)
    } else if e == "kt"@ || e == "kts"@ {
        Some(SupportedLanguage::Kotlin)
    } else if e == "java"@ {
        Some(SupportedLanguage::Java)
    } else if e == "tf"@ || e == "hcl"@ {
        Some(SupportedLanguage::Hcl)
    } else if e == "py"@ {
        Some(SupportedLanguage::Python)
    } else if e == "md"@ {
        Some(SupportedLanguage::Markdown)
    } else if e == "yaml"@ || e == "yml"@ {
        Some(SupportedLanguage::Yaml)
    } else {
        None
    }
}

/// The language of a path, by its extension.
pub open spec fn language_of_path(p: Seq<char>) -> Option<SupportedLanguage> {
    match path_extension(p) {
        Some(e) => language_for_extension(e),
        None => None,
    }
}

/// A path whose extension is `txt` names no supported language, so the
/// semantic view is never built for it, whatever the file holds.
pub proof fn lemma_txt_has_no_language(p: Seq<char>)
    requires
        path_extension(p) == Some("txt"@),
    ensures
        language_of_path(p) is None,
{
    reveal_strlit("txt");
    reveal_strlit("rs");
    reveal_strlit("kt");
    reveal_strlit("kts");
    reveal_strlit("java");
    reveal_strlit("tf");
    reveal_strlit("hcl");
    reveal_strlit("py");
    reveal_strlit("md");
    reveal_strlit("yaml");
    reveal_strlit("yml");
    let e = "txt"@;
    assert(e != "rs"@ && e != "kt"@ && e != "java"@ && e != "tf"@ && e != "py"@ && e != "md"@
        && e != "yaml"@) by {
        assert(e.len() == 3);
    }
    assert(e != "kts"@) by {
        assert(e[0] != "kts"@[0]);
    }
    assert(e != "hcl"@) by {
        assert(e[0] != "hcl"@[0]);
    }
    assert(e != "yml"@) by {
        assert(e[0] != "yml"@[0]);
    }
    assert(language_for_extension(e) is None);
}

/// The human-readable name of a language.
pub open spec fn language_name(l: SupportedLanguage) -> Seq<char> {
    match l {
        SupportedLanguage::Rust => "Rust"@,
        SupportedLanguage::Kotlin => "Kotlin"@,
        SupportedLanguage::Java => "Java"@,
        SupportedLanguage::Hcl => "HCL"@,
        SupportedLanguage::Python => "Python"@,
        SupportedLanguage::Markdown => "Markdown"@,
        SupportedLanguage::Yaml => "YAML"@,
    }
}

impl SupportedLanguage {
    /// Detects the language of a path from its extension.
    pub fn from_path(path: &str) -> (r: Option<SupportedLanguage>)
        ensures
            r == language_of_path(path@),
    {
        let ext = match extension_of_path(path) {
            Some(e) => e,
            None => {
                return None;
            },
        };
        let ext = ext.as_str();
        if str_eq(ext, "rs") {
            Some(SupportedLanguage::Rust)
        } else if str_eq(ext, "kt") || str_eq(ext, "kts") {
            Some(SupportedLanguage::Kotlin)
        } else if str_eq(ext, "java") {
            Some(SupportedLanguage::Java)
        } else if str_eq(ext, "tf") || str_eq(ext, "hcl") {
            Some(SupportedLanguage::Hcl)
        } else if str_eq(ext, "py") {
            Some(SupportedLanguage::Python)
        } else if str_eq(ext, "md") {
            Some(SupportedLanguage::Markdown)
        } else if str_eq(ext, "yaml") || str_eq(ext, "yml") {
            Some(SupportedLanguage::Yaml)
        } else {
            None
        }
    }

    /// The human-readable name of the language.
    pub fn name(&self) -> (r: &'static str)
        ensures
            r@ == language_name(*self),
    {
        match self {
            SupportedLanguage::Rust => "Rust",
            SupportedLanguage::Kotlin => "Kotlin",
            SupportedLanguage::Java => "Java",
            SupportedLanguage::Hcl => "HCL",
            SupportedLanguage::Python => "Python",
            SupportedLanguage::Markdown => "Markdown",
            SupportedLanguage::Yaml => "YAML",
        }
    }

}

/// Why a semantic view could not be built.
#[derive(Debug)]
pub enum SemanticError {
    /// The file's language is not supported.
    UnsupportedLanguage,
    /// The parser could not take the language's grammar.
    ParserSetup {
        /// The language's name.
        language: &'static str,
        /// What the parser reported.
        error: String,
    },
    /// The parser produced no tree.
    ParseFailed,
    /// The source holds a syntax error.
    SyntaxError,
    /// Parsing took too long.
    Timeout,
}

/// A parser for `language`; it fails exactly where the grammar does not
/// load.
pub fn create_parser(language: SupportedLanguage) -> (r: Result<LanguageParser, SemanticError>)
    ensures
        r is Ok == grammar_loads(language),
        r matches Ok(p) ==> p.language() == language,
        r matches Err(e) ==> e matches SemanticError::ParserSetup { language: name, .. }
            && name@ == language_name(language),
{
    let made = match language {
        SupportedLanguage::Rust => rust_parser(),
        SupportedLanguage::Kotlin => kotlin_parser(),
        SupportedLanguage::Java => java_parser(),
        SupportedLanguage::Hcl => hcl_parser(),
        SupportedLanguage::Python => python_parser(),
        SupportedLanguage::Markdown => markdown_parser(),
        SupportedLanguage::Yaml => yaml_parser(),
    };
    match made {
        Ok(parser) => Ok(parser),
        Err(error) => Err(SemanticError::ParserSetup { language: language.name(), error }),
    }
}

/// Parses `source` into a syntax tree: the tree that tree-sitter builds for
/// it, which is there exactly where its child links stay inside it.
pub fn parse_source(parser: &mut LanguageParser, source: &str) -> (r: Result<SyntaxTree, SemanticError>)
    ensures
        final(parser).language() == old(parser).language(),
        r is Ok <==> syntax_ok(old(parser).language(), source@),
        r matches Ok(t) ==> t.wf() && tree_of_source(t, old(parser).language(), source@),
        r matches Err(e) ==> e matches SemanticError::ParseFailed,
{
    match parse_with(parser, source) {
        Some(parsed) => match convert_parsed(&parsed) {
            Some(t) => Ok(t),
            None => Err(SemanticError::ParseFailed),
        },
        None => Err(SemanticError::ParseFailed),
    }
}

/// A source text with its syntax tree.
pub struct ParsedFile {
    /// The source text.
    pub source: String,
    /// Its syntax tree.
    pub tree: SyntaxTree,
}

/// Parses the old and the new version of a file; this succeeds exactly
/// where the grammar loads and both trees are there.
pub fn parse_file_versions(
    language: SupportedLanguage,
    old_source: &str,
    new_source: &str,
) -> (r: Result<(ParsedFile, ParsedFile), SemanticError>)
    ensures
        r is Ok <==> grammar_loads(language) && syntax_ok(language, old_source@) && syntax_ok(
            language,
            new_source@,
        ),
        r matches Ok((a, b)) ==> a.source@ == old_source@ && b.source@ == new_source@ && a.tree.wf()
            && b.tree.wf() && tree_of_source(a.tree, language, old_source@) && tree_of_source(
            b.tree,
            language,
            new_source@,
        ),
{
    let mut parser = create_parser(language)?;
    let old_tree = parse_source(&mut parser, old_source)?;
    let new_tree = parse_source(&mut parser, new_source)?;
    Ok(
        (
            ParsedFile { source: old_source.to_string(), tree: old_tree },
            ParsedFile { source: new_source.to_string(), tree: new_tree },
        ),
    )
}

/// Which nodes before a declaration count as its leading trivia.
#[derive(Debug, Clone)]
pub struct TriviaConfig {
    /// Kinds taken in wherever they stand (attributes, annotations,
    /// decorators).
    pub always_include: Vec<&'static str>,
    /// Kinds taken in only while adjacent (comments).
    pub adjacent_only: Vec<&'static str>,
}

impl TriviaConfig {
    /// Rust: attributes, and line and block comments.
    pub fn rust() -> (r: TriviaConfig)
        ensures
            r.always_include@ == seq!["attribute_item"],
            r.adjacent_only@ == seq!["line_comment", "block_comment"],
    {
        TriviaConfig {
            always_include: vec!["attribute_item"],
            adjacent_only: vec!["line_comment", "block_comment"],
        }
    }

    /// Kotlin: annotations, and line and block comments.
    pub fn kotlin() -> (r: TriviaConfig)
        ensures
            r.always_include@ == seq!["annotation"],
            r.adjacent_only@ == seq!["line_comment", "block_comment"],
    {
        TriviaConfig {
            always_include: vec!["annotation"],
            adjacent_only: vec!["line_comment", "block_comment"],
        }
    }

    /// Java: annotations, and line, block and doc comments.
    pub fn java() -> (r: TriviaConfig)
        ensures
            r.always_include@ == seq!["marker_annotation", "annotation"],
            r.adjacent_only@ == seq!["line_comment", "block_comment", "javadoc_comment"],
    {
        TriviaConfig {
            always_include: vec!["marker_annotation", "annotation"],
            adjacent_only: vec!["line_comment", "block_comment", "javadoc_comment"],
        }
    }

    /// Python: decorators, and comments.
    pub fn python() -> (r: TriviaConfig)
        ensures
            r.always_include@ == seq!["decorator"],
            r.adjacent_only@ == seq!["comment"],
    {
        TriviaConfig { always_include: vec!["decorator"], adjacent_only: vec!["comment"] }
    }

    /// HCL: comments only.
    pub fn hcl() -> (r: TriviaConfig)
        ensures
            r.always_include@ == Seq::<&str>::empty(),
            r.adjacent_only@ == seq!["comment"],
    {
        TriviaConfig { always_include: Vec::new(), adjacent_only: vec!["comment"] }
    }

    /// Languages without attributes: comments only.
    pub fn generic() -> (r: TriviaConfig)
        ensures
            r.always_include@ == Seq::<&str>::empty(),
            r.adjacent_only@ == seq!["comment"],
    {
        TriviaConfig { always_include: Vec::new(), adjacent_only: vec!["comment"] }
    }
}

/// `k` is among the kinds `list`.
pub open spec fn kind_listed(list: Seq<&str>, k: Seq<char>) -> bool {
    exists|i: int| 0 <= i < list.len() && (#[trigger] list[i])@ == k
}

fn is_listed(list: &Vec<&'static str>, k: &str) -> (r: bool)
    ensures
        r == kind_listed(list@, k@),
{
    let mut i: usize = 0;
    while i < list.len()
        invariant
            i <= list@.len(),
            forall|j: int| 0 <= j < i ==> (#[trigger] list@[j])@ != k@,
        decreases list.len() - i,
    {
        if str_eq(list[i], k) {
            return true;
        }
        i = i + 1;
    }
    false
}

/// The start row after scanning siblings `sibs[k-1]`, ..., `sibs[0]` from
/// row `start`: kinds always included lower it to their row; an adjacent-only
/// kind moves it to its row while that row is at most one before it, and
/// ends the scan otherwise; any other kind with a name ends the scan.
pub open spec fn trivia_start(
    t: SyntaxTree,
    sibs: Seq<usize>,
    k: int,
    start: int,
    always: Seq<&str>,
    adjacent: Seq<&str>,
) -> int
    decreases k,
{
    if k <= 0 || k > sibs.len() || sibs[k - 1] >= t.nodes@.len() {
        start
    } else {
        let s = t.nodes@[sibs[k - 1] as int];
        let row = s.start_row as int;
        if kind_listed(always, s.kind@) {
            trivia_start(t, sibs, k - 1, if row < start { row } else { start }, always, adjacent)
        } else if kind_listed(adjacent, s.kind@) {
            if start - row <= 1 {
                trivia_start(t, sibs, k - 1, row, always, adjacent)
            } else {
                start
            }
        } else if s.kind@.len() > 0 {
            start
        } else {
            trivia_start(t, sibs, k - 1, start, always, adjacent)
        }
    }
}

/// The first index at or after `j` where `sibs` holds `x`, or -1.
pub open spec fn position_from(sibs: Seq<usize>, x: usize, j: int) -> int
    decreases sibs.len() - j,
{
    if j < 0 || j >= sibs.len() {
        -1
    } else if sibs[j] == x {
        j
    } else {
        position_from(sibs, x, j + 1)
    }
}

/// Row `start` moved back over the trivia that precedes node `n` among the
/// children of `parent`.
pub open spec fn extended_start(
    t: SyntaxTree,
    n: int,
    parent: int,
    start: int,
    always: Seq<&str>,
    adjacent: Seq<&str>,
) -> int {
    let sibs = t.nodes@[parent].children@;
    let pos = position_from(sibs, n as usize, 0);
    if pos < 0 {
        start
    } else {
        trivia_start(t, sibs, pos, start, always, adjacent)
    }
}

/// The rows of node `n` as a child of `parent`, its start moved back over
/// the trivia that precedes it.
pub open spec fn expanded_range(
    t: SyntaxTree,
    n: int,
    parent: int,
    always: Seq<&str>,
    adjacent: Seq<&str>,
) -> (usize, usize) {
    (
        extended_start(t, n, parent, t.nodes@[n].start_row as int, always, adjacent) as usize,
        t.nodes@[n].end_row,
    )
}

proof fn lemma_trivia_start_bounds(
    t: SyntaxTree,
    sibs: Seq<usize>,
    k: int,
    start: int,
    always: Seq<&str>,
    adjacent: Seq<&str>,
)
    requires
        0 <= start <= usize::MAX,
    ensures
        0 <= trivia_start(t, sibs, k, start, always, adjacent) <= usize::MAX,
    decreases k,
{
    if !(k <= 0 || k > sibs.len() || sibs[k - 1] >= t.nodes@.len()) {
        let s = t.nodes@[sibs[k - 1] as int];
        let row = s.start_row as int;
        lemma_trivia_start_bounds(t, sibs, k - 1, if row < start { row } else { start }, always, adjacent);
        lemma_trivia_start_bounds(t, sibs, k - 1, row, always, adjacent);
        lemma_trivia_start_bounds(t, sibs, k - 1, start, always, adjacent);
    }
}

/// The rows of `node`, a child of `parent`, with the trivia before it taken
/// in: a reverse scan over the siblings before it, as `trivia_start` states.
pub fn expand_range_for_trivia(
    tree: &SyntaxTree,
    node: usize,
    parent: usize,
    config: &TriviaConfig,
) -> (r: (usize, usize))
    requires
        node < tree.nodes@.len(),
        parent < tree.nodes@.len(),
    ensures
        r == expanded_range(
            *tree,
            node as int,
            parent as int,
            config.always_include@,
            config.adjacent_only@,
        ),
{
    let start = extend_start_over_trivia(tree, node, parent, tree.nodes[node].start_row, config);
    (start, tree.nodes[node].end_row)
}

/// Row `start_row` moved back over the trivia before `node` among the
/// children of `parent`.
pub fn extend_start_over_trivia(
    tree: &SyntaxTree,
    node: usize,
    parent: usize,
    start_row: usize,
    config: &TriviaConfig,
) -> (r: usize)
    requires
        node < tree.nodes@.len(),
        parent < tree.nodes@.len(),
    ensures
        r == extended_start(
            *tree,
            node as int,
            parent as int,
            start_row as int,
            config.always_include@,
            config.adjacent_only@,
        ),
{
    let sibs = &tree.nodes[parent].children;
    let mut pos: usize = 0;
    while pos < sibs.len() && sibs[pos] != node
        invariant
            node < tree.nodes@.len(),
            parent < tree.nodes@.len(),
            pos <= sibs@.len(),
            *sibs == tree.nodes@[parent as int].children,
            position_from(sibs@, node, 0) == position_from(sibs@, node, pos as int),
        decreases sibs.len() - pos,
    {
        pos = pos + 1;
    }
    if pos == sibs.len() {
        return start_row;
    }
    let ghost total = trivia_start(
        *tree,
        sibs@,
        pos as int,
        start_row as int,
        config.always_include@,
        config.adjacent_only@,
    );
    let mut start = start_row;
    let mut k = pos;
    let mut done = false;
    while k > 0 && !done
        invariant
            node < tree.nodes@.len(),
            parent < tree.nodes@.len(),
            k <= pos < sibs@.len(),
            *sibs == tree.nodes@[parent as int].children,
            done ==> total == start as int,
            !done ==> total == trivia_start(
                *tree,
                sibs@,
                k as int,
                start as int,
                config.always_include@,
                config.adjacent_only@,
            ),
        decreases k + if done {
            0int
        } else {
            1int
        },
    {
        let sib = sibs[k - 1];
        if sib >= tree.nodes.len() {
            done = true;
        } else {
            let kind = tree.nodes[sib].kind.as_str();
            let row = tree.nodes[sib].start_row;
            if is_listed(&config.always_include, kind) {
                if row < start {
                    start = row;
                }
                k = k - 1;
            } else if is_listed(&config.adjacent_only, kind) {
                if start <= row || start - row <= 1 {
                    start = row;
                    k = k - 1;
                } else {
                    done = true;
                }
            } else if kind.unicode_len() > 0 {
                done = true;
            } else {
                k = k - 1;
            }
        }
    }
    proof {
        lemma_trivia_start_bounds(
            *tree,
            sibs@,
            pos as int,
            start_row as int,
            config.always_include@,
            config.adjacent_only@,
        );
    }
    start
}

/// The kind of a container, common to all languages.
#[derive(Debug, Clone, PartialEq, Eq)]
pub enum ContainerKind {
    /// A struct definition.
    Struct,
    /// A class definition.
    Class,
    /// An interface definition.
    Interface,
    /// An enum definition.
    Enum,
    /// An object declaration.
    Object,
    /// An impl block.
    Impl {
        /// The trait being implemented, if any.
        trait_name: Option<String>,
    },
    /// A function.
    Function,
    /// A configuration resource block.
    Resource {
        /// The resource type.
        resource_type: String,
    },
    /// A configuration data source block.
    DataSource {
        /// The data source type.
        data_type: String,
    },
    /// A configuration variable declaration.
    Variable,
    /// A configuration output declaration.
    Output,
    /// A module.
    Module,
    /// A document section under a heading.
    Section {
        /// The heading level.
        level: usize,
    },
}

/// The kind of a member, common to all languages.
#[derive(Debug, Clone, Copy, PartialEq, Eq, Structural)]
pub enum MemberKind {
    /// A field.
    Field,
    /// A method.
    Method,
    /// A property.
    Property,
}

/// A member of a semantic container, with the diff sections it owns.
#[derive(Debug, Clone, PartialEq, Eq)]
pub struct SemanticMember {
    /// The kind of member.
    pub kind: MemberKind,
    /// The member's name.
    pub name: String,
    /// Indices into the file's sections.
    pub section_indices: Vec<usize>,
    /// Whether every leaf of those sections is selected.
    pub is_checked: bool,
    /// Whether some but not all of those leaves are selected.
    pub is_partial: bool,
}

/// A container of the semantic view, with the diff sections it owns
/// directly (when it has no members) or through its members.
#[derive(Debug, Clone, PartialEq, Eq)]
pub struct SemanticContainer {
    /// The kind of container.
    pub kind: ContainerKind,
    /// The container's name.
    pub name: String,
    /// The members that own edited sections.
    pub members: Vec<SemanticMember>,
    /// Indices into the file's sections owned by the container itself.
    pub section_indices: Vec<usize>,
    /// Whether every leaf of the owned sections is selected.
    pub is_checked: bool,
    /// Whether some but not all of those leaves are selected.
    pub is_partial: bool,
}


/// A container found in a syntax tree, with its lines (0-indexed rows of the
/// new file; `end_line` is the row on which the container ends).
#[derive(Debug, Clone, PartialEq, Eq)]
pub struct Container {
    /// The kind of container.
    pub kind: ContainerKind,
    /// The container's name.
    pub name: String,
    /// The first row, leading trivia included.
    pub start_line: usize,
    /// The last row.
    pub end_line: usize,
}

/// A member found inside a container.
#[derive(Debug, Clone, PartialEq, Eq)]
pub struct Member {
    /// The kind of member.
    pub kind: MemberKind,
    /// The member's name.
    pub name: String,
    /// The first row, leading trivia included.
    pub start_line: usize,
    /// The last row.
    pub end_line: usize,
}

/// A container with the members found inside it, in source order.
#[derive(Debug, Clone, PartialEq, Eq)]
pub struct ContainerWithMembers {
    /// The container.
    pub container: Container,
    /// Its members; empty for kinds without substructure.
    pub members: Vec<Member>,
}

/// A member as plain values: kind, name, first row and last row.
pub type MemberView = (MemberKind, Seq<char>, usize, usize);

/// A container as plain values: kind, name, first row, last row and its
/// members.
pub type ContainerView = (ContainerKind, Seq<char>, usize, usize, Seq<MemberView>);

/// The plain values of a member.
pub open spec fn member_view(m: Member) -> MemberView {
    (m.kind, m.name@, m.start_line, m.end_line)
}

/// The plain values of a sequence of members.
pub open spec fn members_view(ms: Seq<Member>) -> Seq<MemberView> {
    ms.map_values(|m: Member| member_view(m))
}

/// The plain values of a container and its members.
pub open spec fn container_view(c: ContainerWithMembers) -> ContainerView {
    (
        c.container.kind,
        c.container.name@,
        c.container.start_line,
        c.container.end_line,
        members_view(c.members@),
    )
}

/// The plain values of a sequence of containers.
pub open spec fn containers_view(cs: Seq<ContainerWithMembers>) -> Seq<ContainerView> {
    cs.map_values(|c: ContainerWithMembers| container_view(c))
}

/// The rows of the new file that one section occupies.
#[derive(Debug, Clone, Copy, PartialEq, Eq, Structural)]
pub struct SectionLineRange {
    /// The section's index in the file.
    pub section_index: usize,
    /// The first row (0-indexed).
    pub start_line: usize,
    /// One past the last row.
    pub end_line: usize,
}

/// The number of added lines among `lines`.
pub open spec fn added_count(lines: Seq<SectionChangedLine>) -> nat
    decreases lines.len(),
{
    if lines.len() == 0 {
        0
    } else {
        added_count(lines.drop_last()) + if lines.last().change_type == ChangeType::Added {
            1nat
        } else {
            0nat
        }
    }
}

/// The number of rows of the new file that a section occupies.
pub open spec fn new_line_count(s: Section) -> nat {
    match s {
        Section::Unchanged { lines } => lines@.len(),
        Section::Changed { lines } => added_count(lines@),
        _ => 0,
    }
}

/// The number of rows of the new file that a run of sections occupies.
pub open spec fn new_lines_total(secs: Seq<Section>) -> nat
    decreases secs.len(),
{
    if secs.len() == 0 {
        0
    } else {
        new_lines_total(secs.drop_last()) + new_line_count(secs.last())
    }
}

/// The ranges of the sections that occupy at least one row, in order.
pub open spec fn section_ranges_spec(secs: Seq<Section>) -> Seq<SectionLineRange>
    decreases secs.len(),
{
    if secs.len() == 0 {
        seq![]
    } else {
        let prev = secs.drop_last();
        let n = new_line_count(secs.last());
        section_ranges_spec(prev) + if n > 0 {
            seq![
                SectionLineRange {
                    section_index: (secs.len() - 1) as usize,
                    start_line: new_lines_total(prev) as usize,
                    end_line: (new_lines_total(prev) + n) as usize,
                },
            ]
        } else {
            seq![]
        }
    }
}

/// Half-open ranges `[a, b)` and `[c, d)` share a row.
pub open spec fn overlaps(a: int, b: int, c: int, d: int) -> bool {
    a < d && c < b
}

/// The indices of the sections whose range overlaps `[start, end)`, in order.
pub open spec fn overlapping(ranges: Seq<SectionLineRange>, start: int, end: int) -> Seq<usize>
    decreases ranges.len(),
{
    if ranges.len() == 0 {
        seq![]
    } else {
        let r = ranges.last();
        overlapping(ranges.drop_last(), start, end) + if overlaps(
            r.start_line as int,
            r.end_line as int,
            start,
            end,
        ) {
            seq![r.section_index]
        } else {
            seq![]
        }
    }
}

/// The ranges of the sections tile the rows of the new file: there are none
/// exactly when it has no row; otherwise the first starts at row 0, each
/// ends where the next starts, none is empty, and the last ends after the
/// file's last row.
pub proof fn lemma_ranges_tile(secs: Seq<Section>)
    requires
        new_lines_total(secs) <= usize::MAX,
    ensures
        ({
            let rs = section_ranges_spec(secs);
            let n = new_lines_total(secs);
            &&& (rs.len() == 0 <==> n == 0)
            &&& rs.len() > 0 ==> rs[0].start_line == 0 && rs.last().end_line == n
            &&& forall|k: int|
                0 <= k < rs.len() - 1 ==> (#[trigger] rs[k]).end_line == rs[k + 1].start_line
            &&& forall|k: int| 0 <= k < rs.len() ==> (#[trigger] rs[k]).start_line < rs[k].end_line
        }),
    decreases secs.len(),
{
    if secs.len() > 0 {
        let prev = secs.drop_last();
        lemma_ranges_tile(prev);
        let rp = section_ranges_spec(prev);
        let rs = section_ranges_spec(secs);
        let np = new_lines_total(prev);
        let m = new_line_count(secs.last());
        if m > 0 {
            assert(rs == rp.push(SectionLineRange {
                section_index: (secs.len() - 1) as usize,
                start_line: np as usize,
                end_line: (np + m) as usize,
            }));
            assert forall|k: int| 0 <= k < rs.len() - 1 implies (#[trigger] rs[k]).end_line
                == rs[k + 1].start_line by {
                if k < rp.len() - 1 {
                    assert(rs[k] == rp[k] && rs[k + 1] == rp[k + 1]);
                } else {
                    assert(rs[k] == rp.last());
                }
            }
            assert forall|k: int| 0 <= k < rs.len() implies (#[trigger] rs[k]).start_line
                < rs[k].end_line by {
                if k < rp.len() {
                    assert(rs[k] == rp[k]);
                }
            }
            if rp.len() > 0 {
                assert(rs[0] == rp[0]);
            }
        } else {
            assert(rs =~= rp);
        }
    }
}

fn count_added(lines: &Vec<SectionChangedLine>) -> (r: usize)
    ensures
        r == added_count(lines@),
{
    let mut n: usize = 0;
    let mut i: usize = 0;
    while i < lines.len()
        invariant
            i <= lines@.len(),
            n == added_count(lines@.subrange(0, i as int)),
            n <= i,
        decreases lines.len() - i,
    {
        assert(lines@.subrange(0, i + 1).drop_last() =~= lines@.subrange(0, i as int));
        if lines[i].change_type == ChangeType::Added {
            n = n + 1;
        }
        i = i + 1;
    }
    assert(lines@.subrange(0, i as int) =~= lines@);
    n
}

fn section_new_line_count(s: &Section) -> (r: usize)
    ensures
        r == new_line_count(*s),
{
    match s {
        Section::Unchanged { lines } => lines.len(),
        Section::Changed { lines } => count_added(lines),
        _ => 0,
    }
}

/// The number of rows of the new file that `sections` occupy, where it fits
/// in a `usize`.
pub fn total_new_lines(sections: &Vec<Section>) -> (r: Option<usize>)
    ensures
        r == (if new_lines_total(sections@) <= usize::MAX {
            Some(new_lines_total(sections@) as usize)
        } else {
            None::<usize>
        }),
{
    let mut total: usize = 0;
    let mut i: usize = 0;
    while i < sections.len()
        invariant
            i <= sections@.len(),
            total == new_lines_total(sections@.subrange(0, i as int)),
        decreases sections.len() - i,
    {
        assert(sections@.subrange(0, i + 1).drop_last() =~= sections@.subrange(0, i as int));
        let n = section_new_line_count(&sections[i]);
        if n > usize::MAX - total {
            proof {
                lemma_total_monotone(sections@, i + 1);
            }
            return None;
        }
        total = total + n;
        i = i + 1;
    }
    assert(sections@.subrange(0, i as int) =~= sections@);
    Some(total)
}

proof fn lemma_total_monotone(secs: Seq<Section>, i: int)
    requires
        0 <= i <= secs.len(),
    ensures
        new_lines_total(secs.subrange(0, i)) <= new_lines_total(secs),
    decreases secs.len() - i,
{
    if i < secs.len() {
        lemma_total_monotone(secs, i + 1);
        assert(secs.subrange(0, i + 1).drop_last() =~= secs.subrange(0, i));
    } else {
        assert(secs.subrange(0, i) =~= secs);
    }
}

/// Computes the rows of the new file that each section occupies: unchanged
/// lines occupy a row each, changed sections one row per added line, and mode
/// and binary changes none. Sections that occupy no row are left out.
pub fn calculate_section_line_ranges(sections: &Vec<Section>) -> (r: Vec<SectionLineRange>)
    requires
        new_lines_total(sections@) <= usize::MAX,
    ensures
        r@ == section_ranges_spec(sections@),
{
    let mut ranges: Vec<SectionLineRange> = Vec::new();
    let mut current: usize = 0;
    let mut i: usize = 0;
    while i < sections.len()
        invariant
            i <= sections@.len(),
            new_lines_total(sections@) <= usize::MAX,
            current == new_lines_total(sections@.subrange(0, i as int)),
            ranges@ == section_ranges_spec(sections@.subrange(0, i as int)),
        decreases sections.len() - i,
    {
        proof {
            lemma_total_monotone(sections@, i + 1);
        }
        let ghost prefix = sections@.subrange(0, i + 1);
        assert(prefix.drop_last() =~= sections@.subrange(0, i as int));
        let n = section_new_line_count(&sections[i]);
        let start = current;
        current = current + n;
        if n > 0 {
            ranges.push(SectionLineRange { section_index: i, start_line: start, end_line: current });
        }
        assert(ranges@ =~= section_ranges_spec(prefix));
        i = i + 1;
    }
    assert(sections@.subrange(0, i as int) =~= sections@);
    ranges
}

/// The indices of the sections whose range overlaps `[start_line, end_line)`,
/// in the order of `section_ranges`.
pub fn filter_section_indices_by_range(
    section_ranges: &Vec<SectionLineRange>,
    start_line: usize,
    end_line: usize,
) -> (r: Vec<usize>)
    ensures
        r@ == overlapping(section_ranges@, start_line as int, end_line as int),
{
    let mut out: Vec<usize> = Vec::new();
    let mut i: usize = 0;
    while i < section_ranges.len()
        invariant
            i <= section_ranges@.len(),
            out@ == overlapping(section_ranges@.subrange(0, i as int), start_line as int, end_line as int),
        decreases section_ranges.len() - i,
    {
        assert(section_ranges@.subrange(0, i + 1).drop_last() =~= section_ranges@.subrange(0, i as int));
        let range = section_ranges[i];
        if range.start_line < end_line && start_line < range.end_line {
            out.push(range.section_index);
        }
        assert(out@ =~= overlapping(section_ranges@.subrange(0, i + 1), start_line as int, end_line as int));
        i = i + 1;
    }
    assert(section_ranges@.subrange(0, i as int) =~= section_ranges@);
    out
}


/// The indices of the sections whose range overlaps the rows `start_line`
/// through `last_line`, both included, in the order of `section_ranges`.
pub fn filter_section_indices_through(
    section_ranges: &Vec<SectionLineRange>,
    start_line: usize,
    last_line: usize,
) -> (r: Vec<usize>)
    ensures
        r@ == overlapping(section_ranges@, start_line as int, last_line as int + 1),
{
    let mut out: Vec<usize> = Vec::new();
    let mut i: usize = 0;
    while i < section_ranges.len()
        invariant
            i <= section_ranges@.len(),
            out@ == overlapping(
                section_ranges@.subrange(0, i as int),
                start_line as int,
                last_line as int + 1,
            ),
        decreases section_ranges.len() - i,
    {
        assert(section_ranges@.subrange(0, i + 1).drop_last() =~= section_ranges@.subrange(0, i as int));
        let range = section_ranges[i];
        if range.start_line <= last_line && start_line < range.end_line {
            out.push(range.section_index);
        }
        assert(out@ =~= overlapping(
            section_ranges@.subrange(0, i + 1),
            start_line as int,
            last_line as int + 1,
        ));
        i = i + 1;
    }
    assert(section_ranges@.subrange(0, i as int) =~= section_ranges@);
    out
}

/// Some section among `idx` holds an added or removed line.
pub open spec fn has_editable(secs: Seq<Section>, idx: Seq<usize>) -> bool {
    exists|k: int|
        0 <= k < idx.len() && idx[k] < secs.len() && #[trigger] is_editable_spec(
            secs[idx[k] as int],
        )
}

/// The leaves of the sections among `idx`, in order.
pub open spec fn leaves_of(secs: Seq<Section>, idx: Seq<usize>) -> Seq<bool>
    decreases idx.len(),
{
    if idx.len() == 0 {
        seq![]
    } else {
        leaves_of(secs, idx.drop_last()) + if idx.last() < secs.len() {
            section_leaves(secs[idx.last() as int])
        } else {
            seq![]
        }
    }
}

/// The leaves of the sections of each member, member after member.
pub open spec fn members_leaves(secs: Seq<Section>, ms: Seq<SemanticMember>) -> Seq<bool>
    decreases ms.len(),
{
    if ms.len() == 0 {
        seq![]
    } else {
        members_leaves(secs, ms.drop_last()) + leaves_of(secs, ms.last().section_indices@)
    }
}

/// The cached flags agree with the tri-state value of `leaves`.
pub open spec fn flags_match(is_checked: bool, is_partial: bool, leaves: Seq<bool>) -> bool {
    &&& is_checked == (tristate_of(leaves) == Tristate::Checked)
    &&& is_partial == (tristate_of(leaves) == Tristate::Partial)
}

/// A member keeps its place in the semantic view when a section overlapping
/// its rows is editable.
pub open spec fn member_survives(m: Member, secs: Seq<Section>, rs: Seq<SectionLineRange>) -> bool {
    has_editable(secs, overlapping(rs, m.start_line as int, m.end_line as int + 1))
}

/// The members that keep their place, in order.
pub open spec fn surviving_members(
    ms: Seq<Member>,
    secs: Seq<Section>,
    rs: Seq<SectionLineRange>,
) -> Seq<Member>
    decreases ms.len(),
{
    if ms.len() == 0 {
        seq![]
    } else {
        surviving_members(ms.drop_last(), secs, rs) + if member_survives(ms.last(), secs, rs) {
            seq![ms.last()]
        } else {
            seq![]
        }
    }
}

/// `out` is the semantic form of member `m`.
pub open spec fn member_built(
    out: SemanticMember,
    m: Member,
    secs: Seq<Section>,
    rs: Seq<SectionLineRange>,
) -> bool {
    &&& out.kind == m.kind
    &&& out.name@ == m.name@
    &&& out.section_indices@ == overlapping(rs, m.start_line as int, m.end_line as int + 1)
    &&& flags_match(out.is_checked, out.is_partial, leaves_of(secs, out.section_indices@))
}

/// `outs` are the semantic forms of the surviving members of `ms`.
pub open spec fn members_built(
    outs: Seq<SemanticMember>,
    ms: Seq<Member>,
    secs: Seq<Section>,
    rs: Seq<SectionLineRange>,
) -> bool {
    let surv = surviving_members(ms, secs, rs);
    &&& outs.len() == surv.len()
    &&& forall|i: int| 0 <= i < outs.len() ==> member_built(#[trigger] outs[i], surv[i], secs, rs)
}

/// A container keeps its place in the semantic view: one without members
/// when a section overlapping its own rows is editable, one with members when
/// some member keeps its place.
pub open spec fn container_survives(
    c: ContainerWithMembers,
    secs: Seq<Section>,
    rs: Seq<SectionLineRange>,
) -> bool {
    if c.members@.len() == 0 {
        has_editable(
            secs,
            overlapping(rs, c.container.start_line as int, c.container.end_line as int + 1),
        )
    } else {
        surviving_members(c.members@, secs, rs).len() > 0
    }
}

/// The containers that keep their place, in order.
pub open spec fn surviving_containers(
    cs: Seq<ContainerWithMembers>,
    secs: Seq<Section>,
    rs: Seq<SectionLineRange>,
) -> Seq<ContainerWithMembers>
    decreases cs.len(),
{
    if cs.len() == 0 {
        seq![]
    } else {
        surviving_containers(cs.drop_last(), secs, rs) + if container_survives(
            cs.last(),
            secs,
            rs,
        ) {
            seq![cs.last()]
        } else {
            seq![]
        }
    }
}

/// `out` is the semantic form of container `c`: a container without members
/// owns the sections overlapping its rows, one with members owns none itself
/// and holds its surviving members.
pub open spec fn container_built(
    out: SemanticContainer,
    c: ContainerWithMembers,
    secs: Seq<Section>,
    rs: Seq<SectionLineRange>,
) -> bool {
    &&& out.kind == c.container.kind
    &&& out.name@ == c.container.name@
    &&& if c.members@.len() == 0 {
        &&& out.members@.len() == 0
        &&& out.section_indices@ == overlapping(
            rs,
            c.container.start_line as int,
            c.container.end_line as int + 1,
        )
        &&& flags_match(out.is_checked, out.is_partial, leaves_of(secs, out.section_indices@))
    } else {
        &&& members_built(out.members@, c.members@, secs, rs)
        &&& out.section_indices@.len() == 0
        &&& flags_match(out.is_checked, out.is_partial, members_leaves(secs, out.members@))
    }
}

/// `out` is the semantic view of `secs` under the containers `cs`: the
/// surviving containers, in order, each in its semantic form.
pub open spec fn semantic_view_of(
    secs: Seq<Section>,
    cs: Seq<ContainerWithMembers>,
    out: Seq<SemanticContainer>,
) -> bool {
    let rs = section_ranges_spec(secs);
    let surv = surviving_containers(cs, secs, rs);
    &&& out.len() == surv.len()
    &&& forall|i: int| 0 <= i < out.len() ==> container_built(#[trigger] out[i], surv[i], secs, rs)
}

fn has_editable_section(sections: &Vec<Section>, indices: &Vec<usize>) -> (r: bool)
    ensures
        r == has_editable(sections@, indices@),
{
    let mut i: usize = 0;
    while i < indices.len()
        invariant
            i <= indices@.len(),
            forall|k: int|
                0 <= k < i ==> !(indices@[k] < sections@.len() && #[trigger] is_editable_spec(
                    sections@[indices@[k] as int],
                )),
        decreases indices.len() - i,
    {
        let idx = indices[i];
        if idx < sections.len() && sections[idx].is_editable() {
            return true;
        }
        i = i + 1;
    }
    false
}

/// Whether some leaf among the sections `indices` is selected, and whether
/// some is not.
fn leaves_presence(sections: &Vec<Section>, indices: &Vec<usize>) -> (r: (bool, bool))
    ensures
        r.0 == leaves_of(sections@, indices@).contains(true),
        r.1 == leaves_of(sections@, indices@).contains(false),
{
    let mut any = false;
    let mut missing = false;
    let mut i: usize = 0;
    while i < indices.len()
        invariant
            i <= indices@.len(),
            any == leaves_of(sections@, indices@.subrange(0, i as int)).contains(true),
            missing == leaves_of(sections@, indices@.subrange(0, i as int)).contains(false),
        decreases indices.len() - i,
    {
        let ghost prefix = indices@.subrange(0, i + 1);
        assert(prefix.drop_last() =~= indices@.subrange(0, i as int));
        let idx = indices[i];
        let ghost prev = leaves_of(sections@, indices@.subrange(0, i as int));
        if idx < sections.len() {
            let has_true = sections[idx].has_leaf(true);
            let has_false = sections[idx].has_leaf(false);
            proof {
                lemma_concat_contains(prev, section_leaves(sections@[idx as int]), true);
                lemma_concat_contains(prev, section_leaves(sections@[idx as int]), false);
            }
            any = any || has_true;
            missing = missing || has_false;
        } else {
            assert(leaves_of(sections@, prefix) =~= prev);
        }
        i = i + 1;
    }
    assert(indices@.subrange(0, i as int) =~= indices@);
    (any, missing)
}

fn flags_from_presence(any: bool, missing: bool, leaves: Ghost<Seq<bool>>) -> (r: (bool, bool))
    requires
        any == leaves@.contains(true),
        missing == leaves@.contains(false),
    ensures
        flags_match(r.0, r.1, leaves@),
{
    (any && !missing, any && missing)
}

fn clone_kind(k: &ContainerKind) -> (r: ContainerKind)
    ensures
        r == *k,
{
    match k {
        ContainerKind::Struct => ContainerKind::Struct,
        ContainerKind::Class => ContainerKind::Class,
        ContainerKind::Interface => ContainerKind::Interface,
        ContainerKind::Enum => ContainerKind::Enum,
        ContainerKind::Object => ContainerKind::Object,
        ContainerKind::Impl { trait_name } => ContainerKind::Impl {
            trait_name: match trait_name {
                Some(t) => Some(t.clone()),
                None => None,
            },
        },
        ContainerKind::Function => ContainerKind::Function,
        ContainerKind::Resource { resource_type } => ContainerKind::Resource {
            resource_type: resource_type.clone(),
        },
        ContainerKind::DataSource { data_type } => ContainerKind::DataSource {
            data_type: data_type.clone(),
        },
        ContainerKind::Variable => ContainerKind::Variable,
        ContainerKind::Output => ContainerKind::Output,
        ContainerKind::Module => ContainerKind::Module,
        ContainerKind::Section { level } => ContainerKind::Section { level: *level },
    }
}

fn build_members(
    sections: &Vec<Section>,
    ranges: &Vec<SectionLineRange>,
    members: &Vec<Member>,
) -> (r: (Vec<SemanticMember>, bool, bool))
    ensures
        members_built(r.0@, members@, sections@, ranges@),
        r.1 == members_leaves(sections@, r.0@).contains(true),
        r.2 == members_leaves(sections@, r.0@).contains(false),
{
    let mut out: Vec<SemanticMember> = Vec::new();
    let mut any = false;
    let mut missing = false;
    let mut i: usize = 0;
    while i < members.len()
        invariant
            i <= members@.len(),
            members_built(out@, members@.subrange(0, i as int), sections@, ranges@),
            any == members_leaves(sections@, out@).contains(true),
            missing == members_leaves(sections@, out@).contains(false),
        decreases members.len() - i,
    {
        let ghost prefix = members@.subrange(0, i + 1);
        assert(prefix.drop_last() =~= members@.subrange(0, i as int));
        let m = &members[i];
        let indices = filter_section_indices_through(ranges, m.start_line, m.end_line);
        if has_editable_section(sections, &indices) {
            let (a, b) = leaves_presence(sections, &indices);
            let (is_checked, is_partial) = flags_from_presence(
                a,
                b,
                Ghost(leaves_of(sections@, indices@)),
            );
            let ghost prev_out = out@;
            proof {
                lemma_concat_contains(
                    members_leaves(sections@, prev_out),
                    leaves_of(sections@, indices@),
                    true,
                );
                lemma_concat_contains(
                    members_leaves(sections@, prev_out),
                    leaves_of(sections@, indices@),
                    false,
                );
            }
            out.push(
                SemanticMember {
                    kind: m.kind,
                    name: m.name.clone(),
                    section_indices: indices,
                    is_checked,
                    is_partial,
                },
            );
            assert(out@.drop_last() =~= prev_out);
            any = any || a;
            missing = missing || b;
            let ghost surv = surviving_members(prefix, sections@, ranges@);
            assert forall|j: int| 0 <= j < out@.len() implies member_built(
                #[trigger] out@[j],
                surv[j],
                sections@,
                ranges@,
            ) by {
                if j < prev_out.len() {
                    assert(out@[j] == prev_out[j]);
                }
            }
        }
        i = i + 1;
    }
    assert(members@.subrange(0, i as int) =~= members@);
    (out, any, missing)
}

/// Groups the sections by container: the semantic view of `sections` under
/// `containers`. A container without members owns the sections that overlap
/// its rows (first to last, both included); one with members hands each
/// member the sections that overlap the member's rows. Members and containers that own no editable section are
/// left out; those that stay keep every section they own, context included.
pub fn build_semantic_containers(
    sections: &Vec<Section>,
    containers: &Vec<ContainerWithMembers>,
) -> (r: Vec<SemanticContainer>)
    requires
        new_lines_total(sections@) <= usize::MAX,
    ensures
        semantic_view_of(sections@, containers@, r@),
{
    let ranges = calculate_section_line_ranges(sections);
    let mut out: Vec<SemanticContainer> = Vec::new();
    let mut i: usize = 0;
    while i < containers.len()
        invariant
            i <= containers@.len(),
            ranges@ == section_ranges_spec(sections@),
            out@.len() == surviving_containers(
                containers@.subrange(0, i as int),
                sections@,
                ranges@,
            ).len(),
            forall|j: int|
                0 <= j < out@.len() ==> container_built(
                    #[trigger] out@[j],
                    surviving_containers(containers@.subrange(0, i as int), sections@, ranges@)[j],
                    sections@,
                    ranges@,
                ),
        decreases containers.len() - i,
    {
        let ghost prefix = containers@.subrange(0, i + 1);
        assert(prefix.drop_last() =~= containers@.subrange(0, i as int));
        let ghost prev_surv = surviving_containers(containers@.subrange(0, i as int), sections@, ranges@);
        let ghost prev_out = out@;
        let c = &containers[i];
        if c.members.len() == 0 {
            let indices = filter_section_indices_through(
                &ranges,
                c.container.start_line,
                c.container.end_line,
            );
            if has_editable_section(sections, &indices) {
                let (a, b) = leaves_presence(sections, &indices);
                let (is_checked, is_partial) = flags_from_presence(
                    a,
                    b,
                    Ghost(leaves_of(sections@, indices@)),
                );
                out.push(
                    SemanticContainer {
                        kind: clone_kind(&c.container.kind),
                        name: c.container.name.clone(),
                        members: Vec::new(),
                        section_indices: indices,
                        is_checked,
                        is_partial,
                    },
                );
            }
        } else {
            let (members, a, b) = build_members(sections, &ranges, &c.members);
            if members.len() > 0 {
                let (is_checked, is_partial) = flags_from_presence(
                    a,
                    b,
                    Ghost(members_leaves(sections@, members@)),
                );
                out.push(
                    SemanticContainer {
                        kind: clone_kind(&c.container.kind),
                        name: c.container.name.clone(),
                        members,
                        section_indices: Vec::new(),
                        is_checked,
                        is_partial,
                    },
                );
            }
        }
        let ghost surv = surviving_containers(prefix, sections@, ranges@);
        assert forall|j: int| 0 <= j < out@.len() implies container_built(
            #[trigger] out@[j],
            surv[j],
            sections@,
            ranges@,
        ) by {
            if j < prev_out.len() {
                assert(out@[j] == prev_out[j]);
                assert(surv[j] == prev_surv[j]);
            }
        }
        i = i + 1;
    }
    assert(containers@.subrange(0, i as int) =~= containers@);
    out
}


/// `r` is `file` with the semantic view of `cs` attached where at least one
/// container survives (and the sections' row count fits in a `usize`), and
/// `file` as it was otherwise; the sections are kept either way.
pub open spec fn attached(file: File, cs: Seq<ContainerWithMembers>, r: File) -> bool {
    let secs = file.sections@;
    let surv = surviving_containers(cs, secs, section_ranges_spec(secs));
    &&& r.old_path == file.old_path
    &&& r.path == file.path
    &&& r.file_mode == file.file_mode
    &&& r.sections == file.sections
    &&& if new_lines_total(secs) <= usize::MAX && surv.len() > 0 {
        r.containers matches Some(v) && semantic_view_of(secs, cs, v@)
    } else {
        r.containers == file.containers
    }
}

/// `cs` are the containers that the adapter of `l` extracts from tree `t`.
pub open spec fn extraction_of(l: SupportedLanguage, t: SyntaxTree, cs: Seq<ContainerWithMembers>) -> bool {
    match l {
        SupportedLanguage::Rust => containers_view(cs) == rust::rust_items(t, t.kids(0)),
        SupportedLanguage::Python => containers_view(cs) == python::python_items(t, t.kids(0)),
        SupportedLanguage::Kotlin => containers_view(cs) == kotlin::kotlin_items(t, t.kids(0)),
        SupportedLanguage::Java => containers_view(cs) == java::java_items(t, t.kids(0)),
        SupportedLanguage::Hcl => cs.map_values(|c: ContainerWithMembers| hcl::block_view(c))
            == hcl::hcl_bodies(t, t.kids(0)) && forall|i: int|
            0 <= i < cs.len() ==> hcl::is_block_container(#[trigger] cs[i]),
        SupportedLanguage::Markdown => containers_view(cs) == markdown::document_headings(t, t.kids(0)),
        SupportedLanguage::Yaml => containers_view(cs) == yaml::yaml_tops(t, t.kids(0)),
    }
}

/// Sets the semantic view of `file` from the containers extracted from its
/// new version. The view is attached where at least one container survives
/// (and the sections' row count fits in a `usize`); otherwise `file` comes
/// back as it was. The sections are kept either way.
pub fn attach_semantic_containers(file: File, containers: &Vec<ContainerWithMembers>) -> (r: File)
    ensures
        attached(file, containers@, r),
{
    let mut file = file;
    if total_new_lines(&file.sections).is_none() {
        return file;
    }
    let built = build_semantic_containers(&file.sections, containers);
    if built.len() > 0 {
        file.containers = Some(built);
    }
    file
}

/// The containers of a parsed file in `language`.
pub fn extract_for_language(language: SupportedLanguage, parsed: &ParsedFile) -> (r: Vec<ContainerWithMembers>)
    requires
        parsed.tree.wf(),
    ensures
        extraction_of(language, parsed.tree, r@),
{
    match language {
        SupportedLanguage::Rust => rust::extract_containers_with_members(parsed),
        SupportedLanguage::Python => python::extract_containers_with_members(parsed),
        SupportedLanguage::Kotlin => kotlin::extract_containers_with_members(parsed),
        SupportedLanguage::Java => java::extract_containers_with_members(parsed),
        SupportedLanguage::Hcl => hcl::extract_containers_with_members(parsed),
        SupportedLanguage::Markdown => markdown::extract_containers_with_members(parsed),
        SupportedLanguage::Yaml => yaml::extract_containers_with_members(parsed),
    }
}

/// Adds the semantic view to a file: detects the language from the path,
/// parses both versions, extracts the containers of the new one and groups
/// the sections by them. Where the language is not supported, the grammar
/// does not load or a version yields no tree, the file comes back as it was;
/// otherwise the view of the containers of the new version's tree is
/// attached where one survives. The sections are never changed.
pub fn try_add_semantic_containers(file: File, old_source: &str, new_source: &str) -> (r: File)
    ensures
        r.old_path == file.old_path,
        r.path == file.path,
        r.file_mode == file.file_mode,
        r.sections == file.sections,
        match language_of_path(file.path@) {
            None => r == file,
            Some(l) => if grammar_loads(l) && syntax_ok(l, old_source@) && syntax_ok(l, new_source@) {
                exists|t: SyntaxTree, cs: Seq<ContainerWithMembers>|
                    t.wf() && tree_of_source(t, l, new_source@) && extraction_of(l, t, cs)
                        && attached(file, cs, r)
            } else {
                r == file
            },
        },
{
    let language = match SupportedLanguage::from_path(file.path.as_str()) {
        Some(l) => l,
        None => {
            return file;
        },
    };
    let (_old_parsed, new_parsed) = match parse_file_versions(language, old_source, new_source) {
        Ok(parsed) => parsed,
        Err(_) => {
            return file;
        },
    };
    let containers = extract_for_language(language, &new_parsed);
    let r = attach_semantic_containers(file, &containers);
    assert(new_parsed.tree.wf() && tree_of_source(new_parsed.tree, language, new_source@)
        && extraction_of(language, new_parsed.tree, containers@) && attached(file, containers@, r));
    r
}

proof fn lemma_surviving_includes(
    cs: Seq<ContainerWithMembers>,
    secs: Seq<Section>,
    rs: Seq<SectionLineRange>,
    k: int,
)
    requires
        0 <= k < cs.len(),
        container_survives(cs[k], secs, rs),
    ensures
        exists|j: int|
            0 <= j < surviving_containers(cs, secs, rs).len() && surviving_containers(cs, secs, rs)[j]
                == cs[k],
    decreases cs.len(),
{
    let surv = surviving_containers(cs, secs, rs);
    let prev = surviving_containers(cs.drop_last(), secs, rs);
    if k == cs.len() - 1 {
        assert(surv[prev.len() as int] == cs[k]);
    } else {
        lemma_surviving_includes(cs.drop_last(), secs, rs, k);
        let j = choose|j: int| 0 <= j < prev.len() && prev[j] == cs.drop_last()[k];
        assert(surv[j] == cs[k]);
    }
}

proof fn lemma_surviving_survive(
    cs: Seq<ContainerWithMembers>,
    secs: Seq<Section>,
    rs: Seq<SectionLineRange>,
    j: int,
)
    requires
        0 <= j < surviving_containers(cs, secs, rs).len(),
    ensures
        container_survives(surviving_containers(cs, secs, rs)[j], secs, rs),
    decreases cs.len(),
{
    let prev = surviving_containers(cs.drop_last(), secs, rs);
    if j < prev.len() {
        lemma_surviving_survive(cs.drop_last(), secs, rs, j);
    }
}

/// In a semantic view, a container without members is present exactly when
/// a section overlapping its rows is editable, and then it owns every such
/// section, unchanged context included; every memberless container that is
/// present owns an editable section.
pub proof fn lemma_view_keeps_edited_containers(
    secs: Seq<Section>,
    cs: Seq<ContainerWithMembers>,
    out: Seq<SemanticContainer>,
    k: int,
)
    requires
        semantic_view_of(secs, cs, out),
        0 <= k < cs.len(),
        cs[k].members@.len() == 0,
    ensures
        ({
            let own = overlapping(
                section_ranges_spec(secs),
                cs[k].container.start_line as int,
                cs[k].container.end_line as int + 1,
            );
            has_editable(secs, own) ==> exists|i: int|
                0 <= i < out.len() && out[i].name@ == cs[k].container.name@ && out[i].kind
                    == cs[k].container.kind && out[i].section_indices@ == own
        }),
        forall|i: int|
            0 <= i < out.len() && (#[trigger] out[i]).members@.len() == 0 ==> has_editable(
                secs,
                out[i].section_indices@,
            ),
{
    let rs = section_ranges_spec(secs);
    let surv = surviving_containers(cs, secs, rs);
    let own = overlapping(rs, cs[k].container.start_line as int, cs[k].container.end_line as int + 1);
    if has_editable(secs, own) {
        lemma_surviving_includes(cs, secs, rs, k);
        let j = choose|j: int| 0 <= j < surv.len() && surv[j] == cs[k];
        assert(container_built(out[j], surv[j], secs, rs));
    }
    assert forall|i: int|
        0 <= i < out.len() && (#[trigger] out[i]).members@.len() == 0 implies has_editable(
        secs,
        out[i].section_indices@,
    ) by {
        lemma_surviving_survive(cs, secs, rs, i);
        assert(container_built(out[i], surv[i], secs, rs));
        if surv[i].members@.len() > 0 {
            assert(members_built(out[i].members@, surv[i].members@, secs, rs));
        }
    }
}

/// The cached flags of a semantic container and of its members agree with
/// the sections they own.
pub open spec fn flags_fresh(secs: Seq<Section>, c: SemanticContainer) -> bool {
    &&& forall|j: int|
        0 <= j < c.members@.len() ==> flags_match(
            (#[trigger] c.members@[j]).is_checked,
            c.members@[j].is_partial,
            leaves_of(secs, c.members@[j].section_indices@),
        )
    &&& flags_match(
        c.is_checked,
        c.is_partial,
        if c.members@.len() == 0 {
            leaves_of(secs, c.section_indices@)
        } else {
            members_leaves(secs, c.members@)
        },
    )
}

/// `b` is the semantic view `a` with every cached flag recomputed from
/// `secs`, and nothing else changed.
pub open spec fn containers_refreshed(
    a: Option<Vec<SemanticContainer>>,
    b: Option<Vec<SemanticContainer>>,
    secs: Seq<Section>,
) -> bool {
    match (a, b) {
        (None, None) => true,
        (Some(a), Some(b)) => b@.len() == a@.len() && forall|i: int|
            0 <= i < a@.len() ==> same_but_flags(#[trigger] a@[i], b@[i]) && flags_fresh(
                secs,
                b@[i],
            ),
        _ => false,
    }
}

/// `b` is `a` with (possibly) other cached flags, and nothing else changed.
pub open spec fn same_but_flags(a: SemanticContainer, b: SemanticContainer) -> bool {
    &&& b.kind == a.kind
    &&& b.name@ == a.name@
    &&& b.section_indices@ == a.section_indices@
    &&& b.members@.len() == a.members@.len()
    &&& forall|j: int|
        0 <= j < a.members@.len() ==> {
            let (ma, mb) = (#[trigger] a.members@[j], b.members@[j]);
            mb.kind == ma.kind && mb.name@ == ma.name@ && mb.section_indices@ == ma.section_indices@
        }
}

fn copy_indices(v: &Vec<usize>) -> (r: Vec<usize>)
    ensures
        r@ == v@,
{
    let mut out: Vec<usize> = Vec::new();
    let mut i: usize = 0;
    while i < v.len()
        invariant
            i <= v@.len(),
            out@ == v@.subrange(0, i as int),
        decreases v.len() - i,
    {
        out.push(v[i]);
        i = i + 1;
    }
    assert(out@ =~= v@);
    out
}

/// A container with its flags recomputed from `sections`.
fn refreshed(sections: &Vec<Section>, c: &SemanticContainer) -> (r: SemanticContainer)
    ensures
        same_but_flags(*c, r),
        flags_fresh(sections@, r),
{
    let mut members: Vec<SemanticMember> = Vec::new();
    let mut any = false;
    let mut missing = false;
    let mut j: usize = 0;
    while j < c.members.len()
        invariant
            j <= c.members@.len(),
            members@.len() == j,
            forall|k: int|
                0 <= k < j ==> {
                    let (ma, mb) = (#[trigger] c.members@[k], members@[k]);
                    mb.kind == ma.kind && mb.name@ == ma.name@ && mb.section_indices@
                        == ma.section_indices@ && flags_match(
                        mb.is_checked,
                        mb.is_partial,
                        leaves_of(sections@, mb.section_indices@),
                    )
                },
            any == members_leaves(sections@, members@).contains(true),
            missing == members_leaves(sections@, members@).contains(false),
        decreases c.members.len() - j,
    {
        let m = &c.members[j];
        let indices = copy_indices(&m.section_indices);
        let (a, b) = leaves_presence(sections, &indices);
        let (is_checked, is_partial) = flags_from_presence(a, b, Ghost(leaves_of(sections@, indices@)));
        let ghost prev = members@;
        proof {
            lemma_concat_contains(members_leaves(sections@, prev), leaves_of(sections@, indices@), true);
            lemma_concat_contains(members_leaves(sections@, prev), leaves_of(sections@, indices@), false);
        }
        members.push(
            SemanticMember { kind: m.kind, name: m.name.clone(), section_indices: indices, is_checked, is_partial },
        );
        assert(members@.drop_last() =~= prev);
        any = any || a;
        missing = missing || b;
        j = j + 1;
    }
    let own = copy_indices(&c.section_indices);
    let (is_checked, is_partial) = if members.len() == 0 {
        let (a, b) = leaves_presence(sections, &own);
        flags_from_presence(a, b, Ghost(leaves_of(sections@, own@)))
    } else {
        flags_from_presence(any, missing, Ghost(members_leaves(sections@, members@)))
    };
    let r = SemanticContainer {
        kind: clone_kind(&c.kind),
        name: c.name.clone(),
        members,
        section_indices: own,
        is_checked,
        is_partial,
    };
    assert forall|k: int| 0 <= k < r.members@.len() implies flags_match(
        (#[trigger] r.members@[k]).is_checked,
        r.members@[k].is_partial,
        leaves_of(sections@, r.members@[k].section_indices@),
    ) by {
        assert(r.members@[k].section_indices@ == c.members@[k].section_indices@);
    }
    r
}

impl File {
    /// Recomputes the cached flags of the semantic view from the sections'
    /// current selection, as after a toggle; nothing else changes.
    pub fn refresh_semantic_flags(&mut self)
        ensures
            final(self).sections == old(self).sections,
            final(self).old_path == old(self).old_path,
            final(self).path == old(self).path,
            final(self).file_mode == old(self).file_mode,
            containers_refreshed(
                old(self).containers,
                final(self).containers,
                final(self).sections@,
            ),
    {
        match self.containers.take() {
            None => {},
            Some(cs) => {
                let mut out: Vec<SemanticContainer> = Vec::new();
                let mut i: usize = 0;
                while i < cs.len()
                    invariant
                        i <= cs@.len(),
                        out@.len() == i,
                        forall|k: int|
                            0 <= k < i ==> same_but_flags(#[trigger] cs@[k], out@[k]) && flags_fresh(
                                self.sections@,
                                out@[k],
                            ),
                    decreases cs.len() - i,
                {
                    let c = refreshed(&self.sections, &cs[i]);
                    out.push(c);
                    i = i + 1;
                }
                self.containers = Some(out);
            },
        }
    }
}
} // verus!

pub mod rust;
pub mod python;
pub mod kotlin;
pub mod java;
pub mod hcl;
pub mod markdown;
pub mod yaml;
