use scm_record::{ChangeType, Commit, File, FileMode, Section, SectionChangedLine, Tristate};

fn line(change_type: ChangeType, text: &str, is_checked: bool) -> SectionChangedLine {
    SectionChangedLine { is_checked, change_type, line: text.to_string() }
}

fn sample_file(added_checked: bool, removed_checked: bool) -> File {
    File {
        old_path: None,
        path: "notes.txt".to_string(),
        file_mode: FileMode::file_default(),
        sections: vec![
            Section::Unchanged { lines: vec!["a\n".to_string()] },
            Section::Changed {
                lines: vec![
                    line(ChangeType::Removed, "b\n", removed_checked),
                    line(ChangeType::Added, "c\n", added_checked),
                ],
            },
            Section::Unchanged { lines: vec!["d\n".to_string()] },
        ],
        containers: None,
    }
}

#[test]
fn tristate_of_mixed_selection_is_partial() {
    let file = sample_file(true, false);
    assert_eq!(file.tristate(), Tristate::Partial);
    assert_eq!(file.sections[1].tristate(), Tristate::Partial);
    assert_eq!(file.sections[0].tristate(), Tristate::Unchecked);
}

#[test]
fn tristate_of_full_and_empty_selection() {
    assert_eq!(sample_file(true, true).tristate(), Tristate::Checked);
    assert_eq!(sample_file(false, false).tristate(), Tristate::Unchecked);
}

#[test]
fn toggle_from_partial_checks_everything_then_clears() {
    let mut file = sample_file(true, false);
    file.toggle();
    assert_eq!(file.tristate(), Tristate::Checked);
    match &file.sections[1] {
        Section::Changed { lines } => assert!(lines.iter().all(|l| l.is_checked)),
        _ => panic!("expected a changed section"),
    }
    file.toggle();
    assert_eq!(file.tristate(), Tristate::Unchecked);
    assert_eq!(file.sections[0], Section::Unchanged { lines: vec!["a\n".to_string()] });
}

#[test]
fn toggle_section_and_line() {
    let mut file = sample_file(false, false);
    file.toggle_section(1);
    assert_eq!(file.tristate(), Tristate::Checked);
    file.toggle_line(1, 0);
    assert_eq!(file.tristate(), Tristate::Partial);
    match &file.sections[1] {
        Section::Changed { lines } => {
            assert!(!lines[0].is_checked);
            assert!(lines[1].is_checked);
            assert_eq!(lines[0].line, "b\n");
        }
        _ => panic!("expected a changed section"),
    }
}

#[test]
fn selected_contents_follows_the_selection() {
    assert_eq!(sample_file(true, false).selected_contents(), "a\nb\nc\nd\n");
    assert_eq!(sample_file(false, true).selected_contents(), "a\nd\n");
}

#[test]
fn selecting_everything_gives_the_new_text() {
    assert_eq!(sample_file(true, true).selected_contents(), "a\nc\nd\n");
}

#[test]
fn selecting_nothing_gives_the_old_text() {
    assert_eq!(sample_file(false, false).selected_contents(), "a\nb\nd\n");
}

#[test]
fn mode_and_binary_sections_are_single_leaves() {
    let mut file = File {
        old_path: Some("old.bin".to_string()),
        path: "new.bin".to_string(),
        file_mode: FileMode::Absent,
        sections: vec![
            Section::FileMode { is_checked: false, mode: FileMode::Unix(0o100755) },
            Section::Binary {
                is_checked: true,
                old_description: Some("1 KB".to_string()),
                new_description: None,
            },
        ],
        containers: None,
    };
    assert_eq!(file.tristate(), Tristate::Partial);
    assert!(!file.sections[0].is_editable());
    file.toggle();
    assert_eq!(file.tristate(), Tristate::Checked);
    assert_eq!(file.sections[0], Section::FileMode { is_checked: true, mode: FileMode::Unix(0o100755) });
    assert_eq!(file.selected_contents(), "");
}

#[test]
fn file_without_leaves_is_unchecked_and_stays_so() {
    let mut file = File {
        old_path: None,
        path: "same.txt".to_string(),
        file_mode: FileMode::file_default(),
        sections: vec![Section::Unchanged { lines: vec!["x\n".to_string()] }],
        containers: None,
    };
    assert_eq!(file.tristate(), Tristate::Unchecked);
    file.toggle();
    assert_eq!(file.tristate(), Tristate::Unchecked);
    assert_eq!(file.selected_contents(), "x\n");
}

#[test]
fn empty_changed_section_is_not_editable() {
    assert!(!Section::Changed { lines: vec![] }.is_editable());
    assert!(Section::Changed { lines: vec![line(ChangeType::Added, "x\n", false)] }.is_editable());
    assert!(!Section::Unchanged { lines: vec!["x\n".to_string()] }.is_editable());
}

#[test]
fn set_checked_on_a_section() {
    let mut section = Section::Changed {
        lines: vec![line(ChangeType::Added, "x\n", false), line(ChangeType::Removed, "y\n", true)],
    };
    section.set_checked(true);
    assert_eq!(section.tristate(), Tristate::Checked);
    section.toggle();
    assert_eq!(section.tristate(), Tristate::Unchecked);
}

#[test]
fn commit_tristate_and_toggle() {
    let mut commit = Commit { files: vec![sample_file(true, true), sample_file(false, false)] };
    assert_eq!(commit.tristate(), Tristate::Partial);
    commit.toggle();
    assert_eq!(commit.tristate(), Tristate::Checked);
    commit.toggle();
    assert_eq!(commit.tristate(), Tristate::Unchecked);
}
