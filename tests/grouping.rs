use scm_record::semantic::{
    Container, ContainerKind, ContainerWithMembers, Member, MemberKind, SectionLineRange,
    SupportedLanguage, attach_semantic_containers, build_semantic_containers,
    calculate_section_line_ranges, filter_section_indices_by_range, try_add_semantic_containers,
};
use scm_record::text::strip_quotes;
use scm_record::{ChangeType, File, FileMode, Section, SectionChangedLine};

fn unchanged(lines: &[&str]) -> Section {
    Section::Unchanged { lines: lines.iter().map(|l| l.to_string()).collect() }
}

fn changed(removed: &[&str], added: &[&str]) -> Section {
    let mut lines = Vec::new();
    for l in removed {
        lines.push(SectionChangedLine { is_checked: false, change_type: ChangeType::Removed, line: l.to_string() });
    }
    for l in added {
        lines.push(SectionChangedLine { is_checked: false, change_type: ChangeType::Added, line: l.to_string() });
    }
    Section::Changed { lines }
}

fn range(section_index: usize, start_line: usize, end_line: usize) -> SectionLineRange {
    SectionLineRange { section_index, start_line, end_line }
}

fn function(name: &str, start_line: usize, end_line: usize) -> ContainerWithMembers {
    ContainerWithMembers {
        container: Container { kind: ContainerKind::Function, name: name.to_string(), start_line, end_line },
        members: Vec::new(),
    }
}

fn file(path: &str, sections: Vec<Section>) -> File {
    File { old_path: None, path: path.to_string(), file_mode: FileMode::file_default(), sections, containers: None }
}

#[test]
fn overlap_is_half_open() {
    let ranges = vec![range(0, 10, 15)];
    assert_eq!(filter_section_indices_by_range(&ranges, 0, 5), Vec::<usize>::new());
    let ranges = vec![range(0, 8, 15)];
    assert_eq!(filter_section_indices_by_range(&ranges, 0, 10), vec![0]);
    let ranges = vec![range(0, 15, 25)];
    assert_eq!(filter_section_indices_by_range(&ranges, 5, 15), Vec::<usize>::new());
}

#[test]
fn empty_query_range_matches_nothing() {
    let ranges = vec![range(0, 0, 3), range(1, 3, 5)];
    assert_eq!(filter_section_indices_by_range(&ranges, 3, 3), Vec::<usize>::new());
}

#[test]
fn line_ranges_of_unchanged_changed_unchanged() {
    let sections = vec![unchanged(&["1\n", "2\n", "3\n"]), changed(&["x\n"], &["y\n", "z\n"]), unchanged(&["4\n", "5\n"])];
    let ranges = calculate_section_line_ranges(&sections);
    assert_eq!(ranges, vec![range(0, 0, 3), range(1, 3, 5), range(2, 5, 7)]);
}

#[test]
fn pure_deletion_and_mode_sections_have_no_range() {
    let sections = vec![
        unchanged(&["1\n"]),
        changed(&["gone\n"], &[]),
        Section::FileMode { is_checked: false, mode: FileMode::Unix(0o100755) },
        unchanged(&["2\n"]),
    ];
    let ranges = calculate_section_line_ranges(&sections);
    assert_eq!(ranges, vec![range(0, 0, 1), range(3, 1, 2)]);
}

#[test]
fn context_only_container_is_dropped() {
    let sections = vec![unchanged(&["fn a() {\n", "}\n"]), changed(&[], &["x\n"]), unchanged(&["fn b() {\n", "}\n"])];
    let containers = vec![function("a", 0, 2), function("b", 3, 4)];
    let view = build_semantic_containers(&sections, &containers);
    assert_eq!(view.len(), 1);
    assert_eq!(view[0].name, "a");
    assert_eq!(view[0].section_indices, vec![0, 1]);
    assert!(view[0].members.is_empty());
    assert!(!view[0].is_checked);
    assert!(!view[0].is_partial);
}

#[test]
fn container_flags_follow_the_leaves() {
    let mut sections = vec![changed(&["a\n"], &["b\n"])];
    if let Section::Changed { lines } = &mut sections[0] {
        lines[0].is_checked = true;
    }
    let view = build_semantic_containers(&sections, &vec![function("f", 0, 1)]);
    assert_eq!(view.len(), 1);
    assert!(!view[0].is_checked);
    assert!(view[0].is_partial);
}

#[test]
fn members_own_their_sections() {
    let sections = vec![
        unchanged(&["struct P {\n"]),
        changed(&["    x: u8,\n"], &["    x: u16,\n"]),
        unchanged(&["    y: u8,\n", "}\n"]),
    ];
    let containers = vec![ContainerWithMembers {
        container: Container { kind: ContainerKind::Struct, name: "P".to_string(), start_line: 0, end_line: 3 },
        members: vec![
            Member { kind: MemberKind::Field, name: "x".to_string(), start_line: 1, end_line: 1 },
            Member { kind: MemberKind::Field, name: "y".to_string(), start_line: 2, end_line: 2 },
        ],
    }];
    let view = build_semantic_containers(&sections, &containers);
    assert_eq!(view.len(), 1);
    assert!(view[0].section_indices.is_empty());
    assert_eq!(view[0].members.len(), 1);
    assert_eq!(view[0].members[0].name, "x");
    assert_eq!(view[0].members[0].section_indices, vec![1]);
}

#[test]
fn attach_leaves_file_alone_without_survivors() {
    let f = file("a.rs", vec![unchanged(&["x\n"])]);
    let out = attach_semantic_containers(f.clone(), &vec![function("a", 0, 1)]);
    assert_eq!(out, f);
}

#[test]
fn end_to_end_rust_changed_function_only() {
    let old_source = "fn a() {\n    0\n}\n\nfn b() {\n    2\n}\n";
    let new_source = "fn a() {\n    1\n}\n\nfn b() {\n    2\n}\n";
    let sections = vec![
        unchanged(&["fn a() {\n"]),
        changed(&["    0\n"], &["    1\n"]),
        unchanged(&["}\n", "\n", "fn b() {\n", "    2\n", "}\n"]),
    ];
    let out = try_add_semantic_containers(file("src/lib.rs", sections.clone()), old_source, new_source);
    assert_eq!(out.sections, sections);
    let view = out.containers.expect("a semantic view");
    assert_eq!(view.len(), 1);
    assert_eq!(view[0].name, "a");
    assert_eq!(view[0].kind, ContainerKind::Function);
    assert!(view[0].section_indices.contains(&1));
}

#[test]
fn txt_file_gets_no_semantic_view() {
    let sections = vec![changed(&["fn a() {}\n"], &["fn b() {}\n"])];
    let out = try_add_semantic_containers(file("notes.txt", sections.clone()), "fn a() {}\n", "fn b() {}\n");
    assert!(out.containers.is_none());
    assert_eq!(out.sections, sections);
}

#[test]
fn unparsable_or_unmatched_source_falls_back() {
    let sections = vec![changed(&[], &["%%%\n"])];
    let out = try_add_semantic_containers(file("broken.rs", sections), "", "%%%\n");
    assert!(out.containers.is_none());
}

#[test]
fn language_detection_edges() {
    assert_eq!(SupportedLanguage::from_path(".rs"), None);
    assert_eq!(SupportedLanguage::from_path("a.rs/"), Some(SupportedLanguage::Rust));
    assert_eq!(SupportedLanguage::from_path("src.rs/README"), None);
    assert_eq!(SupportedLanguage::from_path("a/b.tar.yml"), Some(SupportedLanguage::Yaml));
    assert_eq!(SupportedLanguage::from_path("dir/.hidden.md"), Some(SupportedLanguage::Markdown));
    assert_eq!(SupportedLanguage::from_path("Makefile"), None);
    assert_eq!(SupportedLanguage::from_path("x.RS"), None);
}

#[test]
fn quotes_are_stripped_at_both_ends_only() {
    assert_eq!(strip_quotes("\"aws_instance\""), "aws_instance");
    assert_eq!(strip_quotes("\"\"a\"b\"\""), "a\"b");
    assert_eq!(strip_quotes("\"\"\""), "");
    assert_eq!(strip_quotes("plain"), "plain");
}

#[test]
fn yaml_top_level_key_becomes_a_section() {
    let source = "name:\n  demo\n";
    let sections = vec![changed(&[], &["name:\n", "  demo\n"])];
    let out = try_add_semantic_containers(file("c.yaml", sections), "", source);
    let view = out.containers.expect("a semantic view");
    assert_eq!(view[0].name, "name");
    assert_eq!(view[0].kind, ContainerKind::Section { level: 1 });
}

#[test]
fn setext_heading_text_is_trimmed() {
    let source = "Title   \n=====\n\nbody\n";
    let mut parser = scm_record::semantic::create_parser(SupportedLanguage::Markdown).unwrap();
    let tree = scm_record::semantic::parse_source(&mut parser, source).unwrap();
    let parsed = scm_record::semantic::ParsedFile { source: source.to_string(), tree };
    let containers = scm_record::semantic::markdown::extract_containers_with_members(&parsed);
    assert_eq!(containers.len(), 1);
    assert_eq!(containers[0].container.name, "Title");
    assert_eq!(containers[0].container.kind, ContainerKind::Section { level: 1 });
}

#[test]
fn refresh_recomputes_cached_flags_after_toggle() {
    let old_source = "fn a() {\n    0\n}\n";
    let new_source = "fn a() {\n    1\n}\n";
    let sections = vec![unchanged(&["fn a() {\n"]), changed(&["    0\n"], &["    1\n"]), unchanged(&["}\n"])];
    let mut out = try_add_semantic_containers(file("a.rs", sections), old_source, new_source);
    assert!(!out.containers.as_ref().unwrap()[0].is_checked);
    out.toggle_line(1, 1);
    out.refresh_semantic_flags();
    let view = out.containers.as_ref().unwrap();
    assert!(!view[0].is_checked);
    assert!(view[0].is_partial);
    out.toggle();
    out.refresh_semantic_flags();
    let view = out.containers.as_ref().unwrap();
    assert!(view[0].is_checked);
    assert!(!view[0].is_partial);
    assert_eq!(view[0].name, "a");
}

#[test]
fn last_row_of_a_container_is_included() {
    let sections = vec![changed(&[], &["x\n"]), unchanged(&["y\n"])];
    let ranges = calculate_section_line_ranges(&sections);
    assert_eq!(scm_record::semantic::filter_section_indices_through(&ranges, 0, 1), vec![0, 1]);
    assert_eq!(scm_record::semantic::filter_section_indices_through(&ranges, 0, 0), vec![0]);
    let view = build_semantic_containers(&sections, &vec![function("f", 0, 1), function("g", 0, 0)]);
    assert_eq!(view.len(), 2);
    assert_eq!(view[0].section_indices, vec![0, 1]);
    assert_eq!(view[1].section_indices, vec![0]);
}
