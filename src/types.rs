//! The diff model of one file and the tri-state selection over it.

use vstd::prelude::*;

use crate::semantic::{SemanticContainer, containers_refreshed};

verus! {

/// Whether a changed line exists only in the old or only in the new file.
#[derive(Debug, Clone, Copy, PartialEq, Eq, Structural)]
pub enum ChangeType {
    /// The line exists only in the new file.
    Added,
    /// The line exists only in the old file.
    Removed,
}

/// One added or removed line, with its selection bit.
#[derive(Debug, Clone, PartialEq, Eq)]
pub struct SectionChangedLine {
    /// Whether the line is selected.
    pub is_checked: bool,
    /// Added or removed.
    pub change_type: ChangeType,
    /// The text of the line, including its line terminator if any.
    pub line: String,
}

/// A file's mode.
#[derive(Debug, Clone, Copy, PartialEq, Eq, Structural)]
pub enum FileMode {
    /// The file does not exist on this side.
    Absent,
    /// A Unix permission mode.
    Unix(u32),
}

impl FileMode {
    /// The mode of an ordinary, non-executable file.
    pub fn file_default() -> (r: FileMode)
        ensures
            r == FileMode::Unix(0o100644),
    {
        FileMode::Unix(0o100644)
    }
}

/// A contiguous fragment of a file's diff.
#[derive(Debug, Clone, PartialEq, Eq)]
pub enum Section {
    /// Lines present in both versions.
    Unchanged {
        /// The lines.
        lines: Vec<String>,
    },
    /// Lines added or removed.
    Changed {
        /// The lines, in diff order.
        lines: Vec<SectionChangedLine>,
    },
    /// A change of the file's mode, selected as one unit.
    FileMode {
        /// Whether the change is selected.
        is_checked: bool,
        /// The new mode.
        mode: FileMode,
    },
    /// A change of binary contents, selected as one unit.
    Binary {
        /// Whether the change is selected.
        is_checked: bool,
        /// A description of the old contents.
        old_description: Option<String>,
        /// A description of the new contents.
        new_description: Option<String>,
    },
}

/// The aggregate selection state of a group of leaves.
#[derive(Debug, Clone, Copy, PartialEq, Eq, Structural)]
pub enum Tristate {
    /// No leaf is selected.
    Unchecked,
    /// Some leaves are selected and some are not.
    Partial,
    /// Every leaf is selected.
    Checked,
}

/// Which text of a diff to read back.
pub enum Side {
    /// The old file: unchanged and removed lines.
    Old,
    /// The new file: unchanged and added lines.
    New,
    /// The selected result: unchanged lines, unselected removed lines and
    /// selected added lines.
    Selected,
}

/// Whether a changed line belongs to the text of `side`.
pub open spec fn line_in(l: SectionChangedLine, side: Side) -> bool {
    match side {
        Side::Old => l.change_type == ChangeType::Removed,
        Side::New => l.change_type == ChangeType::Added,
        Side::Selected => (l.change_type == ChangeType::Removed && !l.is_checked) || (
        l.change_type == ChangeType::Added && l.is_checked),
    }
}

/// The concatenation of a sequence of lines.
pub open spec fn lines_text(lines: Seq<String>) -> Seq<char>
    decreases lines.len(),
{
    if lines.len() == 0 {
        seq![]
    } else {
        lines_text(lines.drop_last()) + lines.last()@
    }
}

/// The concatenation of the changed lines that belong to `side`.
pub open spec fn changed_text(lines: Seq<SectionChangedLine>, side: Side) -> Seq<char>
    decreases lines.len(),
{
    if lines.len() == 0 {
        seq![]
    } else {
        changed_text(lines.drop_last(), side) + if line_in(lines.last(), side) {
            lines.last().line@
        } else {
            seq![]
        }
    }
}

/// The text that a section contributes to `side`.
pub open spec fn section_text(s: Section, side: Side) -> Seq<char> {
    match s {
        Section::Unchanged { lines } => lines_text(lines@),
        Section::Changed { lines } => changed_text(lines@, side),
        _ => seq![],
    }
}

/// The text of a sequence of sections on `side`, section after section.
pub open spec fn sections_text(secs: Seq<Section>, side: Side) -> Seq<char>
    decreases secs.len(),
{
    if secs.len() == 0 {
        seq![]
    } else {
        sections_text(secs.drop_last(), side) + section_text(secs.last(), side)
    }
}

/// The selection bits of the editable leaves of a section: one per changed
/// line, one for a mode or binary change, none for unchanged lines.
pub open spec fn section_leaves(s: Section) -> Seq<bool> {
    match s {
        Section::Unchanged { .. } => seq![],
        Section::Changed { lines } => lines@.map_values(|l: SectionChangedLine| l.is_checked),
        Section::FileMode { is_checked, .. } => seq![is_checked],
        Section::Binary { is_checked, .. } => seq![is_checked],
    }
}

/// The leaves of a sequence of sections, in order.
pub open spec fn sections_leaves(secs: Seq<Section>) -> Seq<bool>
    decreases secs.len(),
{
    if secs.len() == 0 {
        seq![]
    } else {
        sections_leaves(secs.drop_last()) + section_leaves(secs.last())
    }
}

/// The tri-state value of a sequence of leaves.
pub open spec fn tristate_of(leaves: Seq<bool>) -> Tristate {
    if !leaves.contains(true) {
        Tristate::Unchecked
    } else if !leaves.contains(false) {
        Tristate::Checked
    } else {
        Tristate::Partial
    }
}

/// A section holds at least one added or removed line.
pub open spec fn is_editable_spec(s: Section) -> bool {
    match s {
        Section::Changed { lines } => lines@.len() > 0,
        _ => false,
    }
}

/// `b` is `a` with every leaf set to `checked`, and nothing else changed.
pub open spec fn set_all_leaves(a: Section, b: Section, checked: bool) -> bool {
    match a {
        Section::Unchanged { lines } => match b {
            Section::Unchanged { lines: lines2 } => lines2@ == lines@,
            _ => false,
        },
        Section::Changed { lines } => match b {
            Section::Changed { lines: lines2 } => lines2@.len() == lines@.len() && forall|i: int|
                0 <= i < lines@.len() ==> #[trigger] lines2@[i] == (SectionChangedLine {
                    is_checked: checked,
                    ..lines@[i]
                }),
            _ => false,
        },
        Section::FileMode { is_checked, mode } => b == (Section::FileMode {
            is_checked: checked,
            mode,
        }),
        Section::Binary { is_checked, old_description, new_description } => b == (
        Section::Binary { is_checked: checked, old_description, new_description }),
    }
}


/// One file of a diff.
#[derive(Debug, Clone, PartialEq, Eq)]
pub struct File {
    /// The path before a rename, if the file was renamed.
    pub old_path: Option<String>,
    /// The path of the file.
    pub path: String,
    /// The mode of the file on the old side.
    pub file_mode: FileMode,
    /// The diff, as an ordered list of sections.
    pub sections: Vec<Section>,
    /// The semantic view of the sections, where one could be built.
    pub containers: Option<Vec<SemanticContainer>>,
}

/// An ordered set of files.
#[derive(Debug, Clone, PartialEq, Eq)]
pub struct Commit {
    /// The files.
    pub files: Vec<File>,
}

/// A concatenation holds a value exactly when one of its parts does.
pub proof fn lemma_concat_contains(a: Seq<bool>, b: Seq<bool>, x: bool)
    ensures
        (a + b).contains(x) == (a.contains(x) || b.contains(x)),
{
    if a.contains(x) {
        let i = choose|i: int| 0 <= i < a.len() && a[i] == x;
        assert((a + b)[i] == x);
    }
    if b.contains(x) {
        let i = choose|i: int| 0 <= i < b.len() && b[i] == x;
        assert((a + b)[a.len() + i] == x);
    }
    if (a + b).contains(x) {
        let i = choose|i: int| 0 <= i < (a + b).len() && (a + b)[i] == x;
        if i < a.len() {
            assert(a[i] == x);
        } else {
            assert(b[i - a.len()] == x);
        }
    }
}

fn clone_description(d: &Option<String>) -> (r: Option<String>)
    ensures
        r == *d,
{
    match d {
        Some(s) => Some(s.clone()),
        None => None,
    }
}

impl Section {
    /// Whether the section holds at least one added or removed line.
    pub fn is_editable(&self) -> (r: bool)
        ensures
            r == is_editable_spec(*self),
    {
        match self {
            Section::Changed { lines } => lines.len() > 0,
            _ => false,
        }
    }

    /// Whether some leaf of the section is selected (`want`) or some is not
    /// (`!want`).
    pub(crate) fn has_leaf(&self, want: bool) -> (r: bool)
        ensures
            r == section_leaves(*self).contains(want),
    {
        match self {
            Section::Unchanged { .. } => {
                assert(section_leaves(*self) =~= seq![]);
                false
            },
            Section::Changed { lines } => {
                let ghost leaves = section_leaves(*self);
                let mut i: usize = 0;
                while i < lines.len()
                    invariant
                        i <= lines@.len(),
                        leaves == section_leaves(*self),
                        leaves == lines@.map_values(|l: SectionChangedLine| l.is_checked),
                        forall|j: int| 0 <= j < i ==> leaves[j] != want,
                    decreases lines.len() - i,
                {
                    if lines[i].is_checked == want {
                        assert(0 <= i < leaves.len() && leaves[i as int] == want);
                        return true;
                    }
                    i = i + 1;
                }
                false
            },
            Section::FileMode { is_checked, .. } => {
                assert(section_leaves(*self)[0] == *is_checked);
                *is_checked == want
            },
            Section::Binary { is_checked, .. } => {
                assert(section_leaves(*self)[0] == *is_checked);
                *is_checked == want
            },
        }
    }

    /// The selection state of the section's leaves.
    pub fn tristate(&self) -> (r: Tristate)
        ensures
            r == tristate_of(section_leaves(*self)),
    {
        if !self.has_leaf(true) {
            Tristate::Unchecked
        } else if !self.has_leaf(false) {
            Tristate::Checked
        } else {
            Tristate::Partial
        }
    }

    /// The section with every leaf set to `checked`.
    fn with_checked(&self, checked: bool) -> (r: Section)
        ensures
            set_all_leaves(*self, r, checked),
    {
        match self {
            Section::Unchanged { lines } => {
                let mut copy: Vec<String> = Vec::new();
                let mut i: usize = 0;
                while i < lines.len()
                    invariant
                        i <= lines@.len(),
                        copy@ == lines@.subrange(0, i as int),
                    decreases lines.len() - i,
                {
                    copy.push(lines[i].clone());
                    i = i + 1;
                }
                assert(copy@ =~= lines@);
                Section::Unchanged { lines: copy }
            },
            Section::Changed { lines } => {
                let mut copy: Vec<SectionChangedLine> = Vec::new();
                let mut i: usize = 0;
                while i < lines.len()
                    invariant
                        i <= lines@.len(),
                        copy@.len() == i,
                        forall|j: int|
                            0 <= j < i ==> #[trigger] copy@[j] == (SectionChangedLine {
                                is_checked: checked,
                                ..lines@[j]
                            }),
                    decreases lines.len() - i,
                {
                    let l = &lines[i];
                    copy.push(
                        SectionChangedLine {
                            is_checked: checked,
                            change_type: l.change_type,
                            line: l.line.clone(),
                        },
                    );
                    i = i + 1;
                }
                Section::Changed { lines: copy }
            },
            Section::FileMode { is_checked, mode } => Section::FileMode {
                is_checked: checked,
                mode: *mode,
            },
            Section::Binary { is_checked, old_description, new_description } => Section::Binary {
                is_checked: checked,
                old_description: clone_description(old_description),
                new_description: clone_description(new_description),
            },
        }
    }

    /// Sets every leaf of the section to `checked`.
    pub fn set_checked(&mut self, checked: bool)
        ensures
            set_all_leaves(*old(self), *final(self), checked),
    {
        let r = self.with_checked(checked);
        *self = r;
    }

    /// Selects every leaf of the section, or clears them all where every
    /// leaf was selected.
    pub fn toggle(&mut self)
        ensures
            set_all_leaves(
                *old(self),
                *final(self),
                tristate_of(section_leaves(*old(self))) != Tristate::Checked,
            ),
    {
        let checked = self.tristate() != Tristate::Checked;
        self.set_checked(checked);
    }
}


/// The sections' leaves and text split at a section boundary.
proof fn lemma_prefix_step(secs: Seq<Section>, i: int)
    requires
        0 <= i < secs.len(),
    ensures
        sections_leaves(secs.subrange(0, i + 1)) == sections_leaves(secs.subrange(0, i))
            + section_leaves(secs[i]),
        forall|side: Side|
            #[trigger] sections_text(secs.subrange(0, i + 1), side) == sections_text(
                secs.subrange(0, i),
                side,
            ) + section_text(secs[i], side),
{
    assert(secs.subrange(0, i + 1).drop_last() =~= secs.subrange(0, i));
}

/// `b` is `a` with every section's leaves set to `checked`, and nothing else
/// changed.
pub open spec fn all_sections_set(a: Seq<Section>, b: Seq<Section>, checked: bool) -> bool {
    &&& b.len() == a.len()
    &&& forall|i: int| 0 <= i < a.len() ==> set_all_leaves(#[trigger] a[i], b[i], checked)
}

/// `b` is the changed section `a` with the selection bit of line `k` flipped.
pub open spec fn line_flipped(a: Section, b: Section, k: int) -> bool {
    match (a, b) {
        (Section::Changed { lines: la }, Section::Changed { lines: lb }) => lb@ == la@.update(
            k,
            SectionChangedLine { is_checked: !la@[k].is_checked, ..la@[k] },
        ),
        _ => false,
    }
}

/// `b` is `a` with one section replaced by `s` and the cached flags of its
/// semantic view recomputed.
pub open spec fn one_section_set(a: File, b: File, index: int, s: Section) -> bool {
    &&& b.sections@ == a.sections@.update(index, s)
    &&& b.old_path == a.old_path
    &&& b.path == a.path
    &&& b.file_mode == a.file_mode
    &&& containers_refreshed(a.containers, b.containers, b.sections@)
}

impl File {
    /// The selection state of all the file's editable leaves.
    pub fn tristate(&self) -> (r: Tristate)
        ensures
            r == tristate_of(sections_leaves(self.sections@)),
    {
        if !self.has_leaf(true) {
            Tristate::Unchecked
        } else if !self.has_leaf(false) {
            Tristate::Checked
        } else {
            Tristate::Partial
        }
    }

    /// Sets every editable leaf of the file to `checked`, and recomputes the
    /// cached flags of its semantic view.
    pub fn set_checked(&mut self, checked: bool)
        ensures
            all_sections_set(old(self).sections@, final(self).sections@, checked),
            final(self).old_path == old(self).old_path,
            final(self).path == old(self).path,
            final(self).file_mode == old(self).file_mode,
            containers_refreshed(
                old(self).containers,
                final(self).containers,
                final(self).sections@,
            ),
    {
        let mut i: usize = 0;
        while i < self.sections.len()
            invariant
                i <= self.sections@.len(),
                self.sections@.len() == old(self).sections@.len(),
                forall|j: int|
                    0 <= j < i ==> set_all_leaves(
                        #[trigger] old(self).sections@[j],
                        self.sections@[j],
                        checked,
                    ),
                forall|j: int|
                    i <= j < self.sections@.len() ==> #[trigger] self.sections@[j] == old(
                        self,
                    ).sections@[j],
                self.old_path == old(self).old_path,
                self.path == old(self).path,
                self.file_mode == old(self).file_mode,
                self.containers == old(self).containers,
            decreases self.sections.len() - i,
        {
            let s = self.sections[i].with_checked(checked);
            self.sections.set(i, s);
            i = i + 1;
        }
        self.refresh_semantic_flags();
    }

    /// Selects every editable leaf of the file, or clears them all where
    /// every leaf was selected; the cached flags of its semantic view are
    /// recomputed.
    pub fn toggle(&mut self)
        ensures
            all_sections_set(
                old(self).sections@,
                final(self).sections@,
                tristate_of(sections_leaves(old(self).sections@)) != Tristate::Checked,
            ),
            final(self).old_path == old(self).old_path,
            final(self).path == old(self).path,
            final(self).file_mode == old(self).file_mode,
            containers_refreshed(
                old(self).containers,
                final(self).containers,
                final(self).sections@,
            ),
    {
        let checked = self.tristate() != Tristate::Checked;
        self.set_checked(checked);
    }

    /// Toggles one section of the file, and recomputes the cached flags of
    /// its semantic view.
    pub fn toggle_section(&mut self, index: usize)
        requires
            index < old(self).sections@.len(),
        ensures
            one_section_set(
                *old(self),
                *final(self),
                index as int,
                final(self).sections@[index as int],
            ),
            set_all_leaves(
                old(self).sections@[index as int],
                final(self).sections@[index as int],
                tristate_of(section_leaves(old(self).sections@[index as int])) != Tristate::Checked,
            ),
    {
        let checked = self.sections[index].tristate() != Tristate::Checked;
        let s = self.sections[index].with_checked(checked);
        self.sections.set(index, s);
        self.refresh_semantic_flags();
    }

    /// Flips the selection bit of one changed line, and recomputes the cached
    /// flags of its semantic view.
    pub fn toggle_line(&mut self, section_index: usize, line_index: usize)
        requires
            section_index < old(self).sections@.len(),
            old(self).sections@[section_index as int] matches Section::Changed { lines }
                && line_index < lines@.len(),
        ensures
            one_section_set(
                *old(self),
                *final(self),
                section_index as int,
                final(self).sections@[section_index as int],
            ),
            line_flipped(
                old(self).sections@[section_index as int],
                final(self).sections@[section_index as int],
                line_index as int,
            ),
    {
        let s = match &self.sections[section_index] {
            Section::Changed { lines } => {
                let mut copy: Vec<SectionChangedLine> = Vec::new();
                let mut i: usize = 0;
                while i < lines.len()
                    invariant
                        i <= lines@.len(),
                        line_index < lines@.len(),
                        copy@.len() == i,
                        forall|j: int|
                            0 <= j < i ==> #[trigger] copy@[j] == (if j == line_index {
                                SectionChangedLine { is_checked: !lines@[j].is_checked, ..lines@[j] }
                            } else {
                                lines@[j]
                            }),
                    decreases lines.len() - i,
                {
                    let l = &lines[i];
                    let checked = if i == line_index {
                        !l.is_checked
                    } else {
                        l.is_checked
                    };
                    copy.push(
                        SectionChangedLine {
                            is_checked: checked,
                            change_type: l.change_type,
                            line: l.line.clone(),
                        },
                    );
                    i = i + 1;
                }
                assert(copy@ =~= lines@.update(
                    line_index as int,
                    SectionChangedLine {
                        is_checked: !lines@[line_index as int].is_checked,
                        ..lines@[line_index as int]
                    },
                ));
                Section::Changed { lines: copy }
            },
            _ => {
                return ;
            },
        };
        self.sections.set(section_index, s);
        self.refresh_semantic_flags();
    }

    /// The text that the selection produces: every unchanged line, every
    /// removed line that is not selected and every added line that is, in
    /// order.
    pub fn selected_contents(&self) -> (r: String)
        ensures
            r@ == sections_text(self.sections@, Side::Selected),
    {
        let mut out = String::new();
        let mut i: usize = 0;
        while i < self.sections.len()
            invariant
                i <= self.sections@.len(),
                out@ == sections_text(self.sections@.subrange(0, i as int), Side::Selected),
            decreases self.sections.len() - i,
        {
            proof {
                lemma_prefix_step(self.sections@, i as int);
            }
            match &self.sections[i] {
                Section::Unchanged { lines } => {
                    let ghost start = out@;
                    let mut k: usize = 0;
                    while k < lines.len()
                        invariant
                            k <= lines@.len(),
                            out@ == start + lines_text(lines@.subrange(0, k as int)),
                        decreases lines.len() - k,
                    {
                        assert(lines@.subrange(0, k + 1).drop_last() =~= lines@.subrange(0, k as int));
                        out.append(lines[k].as_str());
                        assert(out@ =~= start + lines_text(lines@.subrange(0, k + 1)));
                        k = k + 1;
                    }
                    assert(lines@.subrange(0, k as int) =~= lines@);
                },
                Section::Changed { lines } => {
                    let ghost start = out@;
                    let mut k: usize = 0;
                    while k < lines.len()
                        invariant
                            k <= lines@.len(),
                            out@ == start + changed_text(lines@.subrange(0, k as int), Side::Selected),
                        decreases lines.len() - k,
                    {
                        assert(lines@.subrange(0, k + 1).drop_last() =~= lines@.subrange(0, k as int));
                        let l = &lines[k];
                        let keep = match l.change_type {
                            ChangeType::Removed => !l.is_checked,
                            ChangeType::Added => l.is_checked,
                        };
                        if keep {
                            out.append(l.line.as_str());
                        }
                        assert(out@ =~= start + changed_text(lines@.subrange(0, k + 1), Side::Selected));
                        k = k + 1;
                    }
                    assert(lines@.subrange(0, k as int) =~= lines@);
                },
                _ => {
                    assert(section_text(self.sections@[i as int], Side::Selected) =~= seq![]);
                },
            }
            assert(out@ =~= sections_text(self.sections@.subrange(0, i + 1), Side::Selected));
            i = i + 1;
        }
        assert(self.sections@.subrange(0, i as int) =~= self.sections@);
        out
    }
}


/// The diff of a run of sections is the diff of its first part followed by
/// the diff of the rest: on each side, and for the selection leaves.
pub proof fn lemma_sections_concat(a: Seq<Section>, b: Seq<Section>, side: Side)
    ensures
        sections_text(a + b, side) == sections_text(a, side) + sections_text(b, side),
        sections_leaves(a + b) == sections_leaves(a) + sections_leaves(b),
    decreases b.len(),
{
    if b.len() == 0 {
        assert(a + b =~= a);
        assert(sections_text(a, side) + sections_text(b, side) =~= sections_text(a, side));
        assert(sections_leaves(a) + sections_leaves(b) =~= sections_leaves(a));
    } else {
        lemma_sections_concat(a, b.drop_last(), side);
        assert((a + b).drop_last() =~= a + b.drop_last());
        assert((a + b).last() == b.last());
        assert(sections_text(a + b, side) =~= sections_text(a, side) + sections_text(b, side));
        assert(sections_leaves(a + b) =~= sections_leaves(a) + sections_leaves(b));
    }
}

proof fn lemma_changed_uniform(lines: Seq<SectionChangedLine>, checked: bool)
    requires
        forall|i: int| 0 <= i < lines.len() ==> (#[trigger] lines[i]).is_checked == checked,
    ensures
        changed_text(lines, Side::Selected) == changed_text(
            lines,
            if checked {
                Side::New
            } else {
                Side::Old
            },
        ),
    decreases lines.len(),
{
    if lines.len() > 0 {
        lemma_changed_uniform(lines.drop_last(), checked);
        assert(lines.last() == lines[lines.len() - 1]);
    }
}

proof fn lemma_selected_uniform(secs: Seq<Section>, checked: bool)
    requires
        !sections_leaves(secs).contains(!checked),
    ensures
        sections_text(secs, Side::Selected) == sections_text(
            secs,
            if checked {
                Side::New
            } else {
                Side::Old
            },
        ),
    decreases secs.len(),
{
    if secs.len() > 0 {
        let last = secs.last();
        lemma_concat_contains(sections_leaves(secs.drop_last()), section_leaves(last), !checked);
        lemma_selected_uniform(secs.drop_last(), checked);
        if let Section::Changed { lines } = last {
            let leaves = section_leaves(last);
            assert forall|i: int| 0 <= i < lines@.len() implies (#[trigger] lines@[i]).is_checked
                == checked by {
                assert(leaves[i] == lines@[i].is_checked);
            }
            lemma_changed_uniform(lines@, checked);
        }
    }
}

/// With every editable leaf selected, the selection reproduces the new text.
pub proof fn lemma_select_all_gives_new(secs: Seq<Section>)
    requires
        !sections_leaves(secs).contains(false),
    ensures
        sections_text(secs, Side::Selected) == sections_text(secs, Side::New),
{
    lemma_selected_uniform(secs, true);
}

/// With no editable leaf selected, the selection reproduces the old text.
pub proof fn lemma_select_none_gives_old(secs: Seq<Section>)
    requires
        !sections_leaves(secs).contains(true),
    ensures
        sections_text(secs, Side::Selected) == sections_text(secs, Side::Old),
{
    lemma_selected_uniform(secs, false);
}


proof fn lemma_section_set_uniform(a: Section, b: Section, checked: bool)
    requires
        set_all_leaves(a, b, checked),
    ensures
        !section_leaves(b).contains(!checked),
        section_leaves(b).len() == section_leaves(a).len(),
{
    match (a, b) {
        (Section::Changed { lines: la }, Section::Changed { lines: lb }) => {
            let leaves = section_leaves(b);
            assert forall|i: int| 0 <= i < leaves.len() implies leaves[i] == checked by {
                assert(lb@[i] == (SectionChangedLine { is_checked: checked, ..la@[i] }));
            }
        },
        (Section::FileMode { .. }, Section::FileMode { .. }) => {
            assert(section_leaves(b)[0] == checked);
        },
        (Section::Binary { .. }, Section::Binary { .. }) => {
            assert(section_leaves(b)[0] == checked);
        },
        _ => {},
    }
}

/// Once every leaf of a file has been set to `checked` (as `toggle` and
/// `set_checked` do), no leaf differs from it and there are as many leaves
/// as before: the file reads as `Checked` (or `Unchecked`) throughout, or as
/// `Unchecked` where it has no leaf at all.
pub proof fn lemma_set_all_tristate(a: Seq<Section>, b: Seq<Section>, checked: bool)
    requires
        all_sections_set(a, b, checked),
    ensures
        !sections_leaves(b).contains(!checked),
        sections_leaves(b).len() == sections_leaves(a).len(),
        tristate_of(sections_leaves(b)) == if sections_leaves(b).len() == 0 || !checked {
            Tristate::Unchecked
        } else {
            Tristate::Checked
        },
    decreases a.len(),
{
    if a.len() > 0 {
        let a2 = a.drop_last();
        let b2 = b.drop_last();
        assert(all_sections_set(a2, b2, checked)) by {
            assert forall|i: int| 0 <= i < a2.len() implies set_all_leaves(
                #[trigger] a2[i],
                b2[i],
                checked,
            ) by {
                assert(a2[i] == a[i] && b2[i] == b[i]);
            }
        }
        lemma_set_all_tristate(a2, b2, checked);
        lemma_section_set_uniform(a.last(), b.last(), checked);
        lemma_concat_contains(sections_leaves(b2), section_leaves(b.last()), !checked);
    }
    let leaves = sections_leaves(b);
    if leaves.len() > 0 {
        assert(leaves.contains(leaves[0]));
    }
}


/// The leaves of a sequence of files, file after file.
pub open spec fn files_leaves(files: Seq<File>) -> Seq<bool>
    decreases files.len(),
{
    if files.len() == 0 {
        seq![]
    } else {
        files_leaves(files.drop_last()) + sections_leaves(files.last().sections@)
    }
}

/// `b` is `a` with every leaf set to `checked` and the cached flags of its
/// semantic view recomputed.
pub open spec fn file_set(a: File, b: File, checked: bool) -> bool {
    &&& all_sections_set(a.sections@, b.sections@, checked)
    &&& b.old_path == a.old_path
    &&& b.path == a.path
    &&& b.file_mode == a.file_mode
    &&& containers_refreshed(a.containers, b.containers, b.sections@)
}

impl File {
    /// Whether some leaf of the file is selected (`want`) or some is not
    /// (`!want`).
    fn has_leaf(&self, want: bool) -> (r: bool)
        ensures
            r == sections_leaves(self.sections@).contains(want),
    {
        let mut found = false;
        let mut i: usize = 0;
        while i < self.sections.len()
            invariant
                i <= self.sections@.len(),
                found == sections_leaves(self.sections@.subrange(0, i as int)).contains(want),
            decreases self.sections.len() - i,
        {
            let here = self.sections[i].has_leaf(want);
            proof {
                lemma_prefix_step(self.sections@, i as int);
                lemma_concat_contains(
                    sections_leaves(self.sections@.subrange(0, i as int)),
                    section_leaves(self.sections@[i as int]),
                    want,
                );
            }
            found = found || here;
            i = i + 1;
        }
        assert(self.sections@.subrange(0, i as int) =~= self.sections@);
        found
    }
}

impl Commit {
    /// Whether some leaf of the commit is selected (`want`) or some is not
    /// (`!want`).
    fn has_leaf(&self, want: bool) -> (r: bool)
        ensures
            r == files_leaves(self.files@).contains(want),
    {
        let mut found = false;
        let mut i: usize = 0;
        while i < self.files.len()
            invariant
                i <= self.files@.len(),
                found == files_leaves(self.files@.subrange(0, i as int)).contains(want),
            decreases self.files.len() - i,
        {
            let here = self.files[i].has_leaf(want);
            proof {
                assert(self.files@.subrange(0, i + 1).drop_last() =~= self.files@.subrange(0, i as int));
                lemma_concat_contains(
                    files_leaves(self.files@.subrange(0, i as int)),
                    sections_leaves(self.files@[i as int].sections@),
                    want,
                );
            }
            found = found || here;
            i = i + 1;
        }
        assert(self.files@.subrange(0, i as int) =~= self.files@);
        found
    }

    /// The selection state of all the commit's editable leaves.
    pub fn tristate(&self) -> (r: Tristate)
        ensures
            r == tristate_of(files_leaves(self.files@)),
    {
        if !self.has_leaf(true) {
            Tristate::Unchecked
        } else if !self.has_leaf(false) {
            Tristate::Checked
        } else {
            Tristate::Partial
        }
    }

    /// Selects every editable leaf of the commit, or clears them all where
    /// every leaf was selected.
    pub fn toggle(&mut self)
        ensures
            final(self).files@.len() == old(self).files@.len(),
            forall|i: int|
                0 <= i < old(self).files@.len() ==> file_set(
                    #[trigger] old(self).files@[i],
                    final(self).files@[i],
                    tristate_of(files_leaves(old(self).files@)) != Tristate::Checked,
                ),
    {
        let checked = self.tristate() != Tristate::Checked;
        let mut i: usize = 0;
        while i < self.files.len()
            invariant
                i <= self.files@.len(),
                self.files@.len() == old(self).files@.len(),
                forall|j: int|
                    0 <= j < i ==> file_set(#[trigger] old(self).files@[j], self.files@[j], checked),
                forall|j: int|
                    i <= j < self.files@.len() ==> #[trigger] self.files@[j] == old(self).files@[j],
            decreases self.files.len() - i,
        {
            self.files[i].set_checked(checked);
            i = i + 1;
        }
    }
}

} // verus!
