use scm_record::semantic::markdown::extract_containers_with_members;
use scm_record::semantic::{ContainerKind, ParsedFile, SupportedLanguage, create_parser, parse_source};

#[test]
fn test_parser_creation_markdown() {
    let result = create_parser(SupportedLanguage::Markdown);
    assert!(result.is_ok());
  }

#[test]
fn test_simple_markdown_parse() {
    let mut parser = create_parser(SupportedLanguage::Markdown).unwrap();
    let source = "# Hello World\n\nSome content.";
    let result = parse_source(&mut parser, source);
    assert!(result.is_ok());
  }

#[test]
fn test_extract_markdown_atx_heading() {
    let source = r#"# Main Header

Some content here.
"#;
    let mut parser = create_parser(SupportedLanguage::Markdown).unwrap();
    let tree = parse_source(&mut parser, source).unwrap();
    let parsed = ParsedFile {
      source: source.to_string(),
      tree,
    };

    let containers = extract_containers_with_members(&parsed);
    assert!(containers.len() >= 1);
    assert_eq!(containers[0].container.name, "Main Header");
    if let ContainerKind::Section { level } = containers[0].container.kind {
      assert_eq!(level, 1);
    } else {
      panic!("Expected Section container");
    }
  }

#[test]
fn test_extract_markdown_multiple_levels() {
    let source = r#"# Level 1

## Level 2

### Level 3

Some content.
"#;
    let mut parser = create_parser(SupportedLanguage::Markdown).unwrap();
    let tree = parse_source(&mut parser, source).unwrap();
    let parsed = ParsedFile {
      source: source.to_string(),
      tree,
    };

    let containers = extract_containers_with_members(&parsed);
    assert!(containers.len() >= 3);

    assert_eq!(containers[0].container.name, "Level 1");
    if let ContainerKind::Section { level } = containers[0].container.kind {
      assert_eq!(level, 1);
    } else {
      panic!("Expected Section container");
    }

    assert_eq!(containers[1].container.name, "Level 2");
    if let ContainerKind::Section { level } = containers[1].container.kind {
      assert_eq!(level, 2);
    } else {
      panic!("Expected Section container");
    }

    assert_eq!(containers[2].container.name, "Level 3");
    if let ContainerKind::Section { level } = containers[2].container.kind {
      assert_eq!(level, 3);
    } else {
      panic!("Expected Section container");
    }
  }

#[test]
fn test_extract_markdown_setext_heading() {
    let source = "Main Header
===========

Some content.
";
    let mut parser = create_parser(SupportedLanguage::Markdown).unwrap();
    let tree = parse_source(&mut parser, source).unwrap();
    let parsed = ParsedFile {
      source: source.to_string(),
      tree,
    };

    let containers = extract_containers_with_members(&parsed);
    assert!(containers.len() >= 1);
    assert_eq!(containers[0].container.name, "Main Header");
    if let ContainerKind::Section { level } = containers[0].container.kind {
      assert_eq!(level, 1);
    } else {
      panic!("Expected Section container");
    }
  }

#[test]
fn test_extract_markdown_mixed_headings() {
    let source = r#"# Introduction

Some intro content.

## Features

Feature list here.

### Installation

Installation steps.
"#;
    let mut parser = create_parser(SupportedLanguage::Markdown).unwrap();
    let tree = parse_source(&mut parser, source).unwrap();
    let parsed = ParsedFile {
      source: source.to_string(),
      tree,
    };

    let containers = extract_containers_with_members(&parsed);
    assert!(containers.len() >= 3);

    assert_eq!(containers[0].container.name, "Introduction");
    assert_eq!(containers[1].container.name, "Features");
    assert_eq!(containers[2].container.name, "Installation");
  }

#[test]
fn test_markdown_sections_have_no_members() {
    // Regression test: ensure markdown sections have empty members list
    // so they get section assignments via the "no members" path in
    // enhance_file_with_containers, not the "assign to members" path.
    let source = r#"# Main Header

Some content.

## Subheader

More content.
"#;
    let mut parser = create_parser(SupportedLanguage::Markdown).unwrap();
    let tree = parse_source(&mut parser, source).unwrap();
    let parsed = ParsedFile {
      source: source.to_string(),
      tree,
    };

    let containers = extract_containers_with_members(&parsed);
    assert!(containers.len() >= 2);

    // All markdown sections should have no members
    for container_with_members in &containers {
      assert!(
        container_with_members.members.is_empty(),
        "Markdown sections should not have members, found {} members for '{}'",
        container_with_members.members.len(),
        container_with_members.container.name
      );
    }
  }
