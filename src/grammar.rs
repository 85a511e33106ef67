//! The tree-sitter parser and the grammars, as this crate relies on them.
//!
//! A parsed source is read node by node, each node addressed by its index in
//! pre-order (0 for the root), so that every fact read is a function of the
//! language, the text and the index.

use vstd::prelude::*;

use crate::semantic::SupportedLanguage;

verus! {

#[verifier::external_type_specification]
#[verifier::external_body]
pub struct ExParser(tree_sitter::Parser);

#[verifier::external_type_specification]
#[verifier::external_body]
pub struct ExTree(tree_sitter::Tree);

/// A parser whose grammar is that of `language`.
pub struct LanguageParser {
    language: SupportedLanguage,
    parser: tree_sitter::Parser,
}

impl LanguageParser {
    /// The language whose grammar the parser holds.
    pub closed spec fn language(&self) -> SupportedLanguage {
        self.language
    }
}

/// A text with the tree that a parser for `language` built from it.
pub struct ParsedSource {
    language: SupportedLanguage,
    source: String,
    tree: tree_sitter::Tree,
}

impl ParsedSource {
    /// The language the text was parsed as.
    pub closed spec fn language(&self) -> SupportedLanguage {
        self.language
    }

    /// The text that was parsed.
    pub closed spec fn source(&self) -> Seq<char> {
        self.source@
    }
}

/// Whether `tree_sitter::Parser::set_language` takes the grammar of `l`.
pub uninterp spec fn grammar_loads(l: SupportedLanguage) -> bool;

/// The kind of node `d` of the tree of `s` in language `l`.
pub uninterp spec fn syntax_kind(l: SupportedLanguage, s: Seq<char>, d: usize) -> Seq<char>;

/// The first row of node `d`.
pub uninterp spec fn syntax_start_row(l: SupportedLanguage, s: Seq<char>, d: usize) -> usize;

/// The row on which node `d` ends.
pub uninterp spec fn syntax_end_row(l: SupportedLanguage, s: Seq<char>, d: usize) -> usize;

/// The number of children of node `d`.
pub uninterp spec fn syntax_child_count(l: SupportedLanguage, s: Seq<char>, d: usize) -> usize;

/// The number of nodes in the subtree of node `d`, itself included.
pub uninterp spec fn syntax_size(l: SupportedLanguage, s: Seq<char>, d: usize) -> usize;

/// The field under which node `d` stands in its parent, if any.
pub uninterp spec fn syntax_field(l: SupportedLanguage, s: Seq<char>, d: usize) -> Option<Seq<char>>;

/// The text of node `d`, where its byte range falls on character boundaries
/// of `s`.
pub uninterp spec fn syntax_text(l: SupportedLanguage, s: Seq<char>, d: usize) -> Option<Seq<char>>;

/// Relies on `tree_sitter::Parser::new` and `Parser::set_language` with
/// `tree_sitter_rust::LANGUAGE`: a parser for Rust, where the grammar loads.
#[verifier::external_body]
pub(crate) fn rust_parser() -> (r: Result<LanguageParser, String>)
    ensures
        r is Ok == grammar_loads(SupportedLanguage::Rust),
        r matches Ok(p) ==> p.language() == SupportedLanguage::Rust,
{
    let mut parser = tree_sitter::Parser::new();
    let grammar: tree_sitter::Language = tree_sitter_rust::LANGUAGE.into();
    let language = SupportedLanguage::Rust;
    parser.set_language(&grammar).map(|()| LanguageParser { language, parser }).map_err(|e| e.to_string())
}

/// Relies on `tree_sitter::Parser::new` and `Parser::set_language` with
/// `tree_sitter_kotlin_ng::LANGUAGE`: a parser for Kotlin, where the grammar loads.
#[verifier::external_body]
pub(crate) fn kotlin_parser() -> (r: Result<LanguageParser, String>)
    ensures
        r is Ok == grammar_loads(SupportedLanguage::Kotlin),
        r matches Ok(p) ==> p.language() == SupportedLanguage::Kotlin,
{
    let mut parser = tree_sitter::Parser::new();
    let grammar: tree_sitter::Language = tree_sitter_kotlin_ng::LANGUAGE.into();
    let language = SupportedLanguage::Kotlin;
    parser.set_language(&grammar).map(|()| LanguageParser { language, parser }).map_err(|e| e.to_string())
}

/// Relies on `tree_sitter::Parser::new` and `Parser::set_language` with
/// `tree_sitter_java::LANGUAGE`: a parser for Java, where the grammar loads.
#[verifier::external_body]
pub(crate) fn java_parser() -> (r: Result<LanguageParser, String>)
    ensures
        r is Ok == grammar_loads(SupportedLanguage::Java),
        r matches Ok(p) ==> p.language() == SupportedLanguage::Java,
{
    let mut parser = tree_sitter::Parser::new();
    let grammar: tree_sitter::Language = tree_sitter_java::LANGUAGE.into();
    let language = SupportedLanguage::Java;
    parser.set_language(&grammar).map(|()| LanguageParser { language, parser }).map_err(|e| e.to_string())
}

/// Relies on `tree_sitter::Parser::new` and `Parser::set_language` with
/// `tree_sitter_hcl::LANGUAGE`: a parser for Hcl, where the grammar loads.
#[verifier::external_body]
pub(crate) fn hcl_parser() -> (r: Result<LanguageParser, String>)
    ensures
        r is Ok == grammar_loads(SupportedLanguage::Hcl),
        r matches Ok(p) ==> p.language() == SupportedLanguage::Hcl,
{
    let mut parser = tree_sitter::Parser::new();
    let grammar: tree_sitter::Language = tree_sitter_hcl::LANGUAGE.into();
    let language = SupportedLanguage::Hcl;
    parser.set_language(&grammar).map(|()| LanguageParser { language, parser }).map_err(|e| e.to_string())
}

/// Relies on `tree_sitter::Parser::new` and `Parser::set_language` with
/// `tree_sitter_python::LANGUAGE`: a parser for Python, where the grammar loads.
#[verifier::external_body]
pub(crate) fn python_parser() -> (r: Result<LanguageParser, String>)
    ensures
        r is Ok == grammar_loads(SupportedLanguage::Python),
        r matches Ok(p) ==> p.language() == SupportedLanguage::Python,
{
    let mut parser = tree_sitter::Parser::new();
    let grammar: tree_sitter::Language = tree_sitter_python::LANGUAGE.into();
    let language = SupportedLanguage::Python;
    parser.set_language(&grammar).map(|()| LanguageParser { language, parser }).map_err(|e| e.to_string())
}

/// Relies on `tree_sitter::Parser::new` and `Parser::set_language` with
/// `tree_sitter_md::LANGUAGE`: a parser for Markdown, where the grammar loads.
#[verifier::external_body]
pub(crate) fn markdown_parser() -> (r: Result<LanguageParser, String>)
    ensures
        r is Ok == grammar_loads(SupportedLanguage::Markdown),
        r matches Ok(p) ==> p.language() == SupportedLanguage::Markdown,
{
    let mut parser = tree_sitter::Parser::new();
    let grammar: tree_sitter::Language = tree_sitter_md::LANGUAGE.into();
    let language = SupportedLanguage::Markdown;
    parser.set_language(&grammar).map(|()| LanguageParser { language, parser }).map_err(|e| e.to_string())
}

/// Relies on `tree_sitter::Parser::new` and `Parser::set_language` with
/// `tree_sitter_yaml::LANGUAGE`: a parser for Yaml, where the grammar loads.
#[verifier::external_body]
pub(crate) fn yaml_parser() -> (r: Result<LanguageParser, String>)
    ensures
        r is Ok == grammar_loads(SupportedLanguage::Yaml),
        r matches Ok(p) ==> p.language() == SupportedLanguage::Yaml,
{
    let mut parser = tree_sitter::Parser::new();
    let grammar: tree_sitter::Language = tree_sitter_yaml::LANGUAGE.into();
    let language = SupportedLanguage::Yaml;
    parser.set_language(&grammar).map(|()| LanguageParser { language, parser }).map_err(|e| e.to_string())
}

/// Relies on `tree_sitter::Parser::parse`: with a language set, as every
/// `LanguageParser` has, and no cancellation or timeout, it returns a tree.
#[verifier::external_body]
pub(crate) fn parse_with(p: &mut LanguageParser, source: &str) -> (r: Option<ParsedSource>)
    ensures
        final(p).language() == old(p).language(),
        r matches Some(x) ==> x.language() == old(p).language() && x.source() == source@,
        r is Some,
{
    let language = p.language;
    p.parser.parse(source, None).map(|tree| ParsedSource { language, source: source.to_string(), tree })
}

/// Relies on `TreeCursor::goto_descendant` and `Node::kind`.
#[verifier::external_body]
pub(crate) fn kind_at(p: &ParsedSource, d: usize) -> (r: String)
    ensures
        r@ == syntax_kind(p.language(), p.source(), d),
{
    let mut cursor = p.tree.walk();
    cursor.goto_descendant(d);
    cursor.node().kind().to_string()
}

/// Relies on `TreeCursor::goto_descendant` and `Node::start_position`.
#[verifier::external_body]
pub(crate) fn start_row_at(p: &ParsedSource, d: usize) -> (r: usize)
    ensures
        r == syntax_start_row(p.language(), p.source(), d),
{
    let mut cursor = p.tree.walk();
    cursor.goto_descendant(d);
    cursor.node().start_position().row
}

/// Relies on `TreeCursor::goto_descendant` and `Node::end_position`.
#[verifier::external_body]
pub(crate) fn end_row_at(p: &ParsedSource, d: usize) -> (r: usize)
    ensures
        r == syntax_end_row(p.language(), p.source(), d),
{
    let mut cursor = p.tree.walk();
    cursor.goto_descendant(d);
    cursor.node().end_position().row
}

/// Relies on `TreeCursor::goto_descendant` and `Node::child_count`.
#[verifier::external_body]
pub(crate) fn child_count_at(p: &ParsedSource, d: usize) -> (r: usize)
    ensures
        r == syntax_child_count(p.language(), p.source(), d),
{
    let mut cursor = p.tree.walk();
    cursor.goto_descendant(d);
    cursor.node().child_count() as usize
}

/// Relies on `TreeCursor::goto_descendant` and `Node::descendant_count`.
#[verifier::external_body]
pub(crate) fn size_at(p: &ParsedSource, d: usize) -> (r: usize)
    ensures
        r == syntax_size(p.language(), p.source(), d),
{
    let mut cursor = p.tree.walk();
    cursor.goto_descendant(d);
    cursor.node().descendant_count()
}

/// Relies on `TreeCursor::goto_descendant` and `TreeCursor::field_name`.
#[verifier::external_body]
pub(crate) fn field_at(p: &ParsedSource, d: usize) -> (r: Option<String>)
    ensures
        match r {
            Some(f) => syntax_field(p.language(), p.source(), d) == Some(f@),
            None => syntax_field(p.language(), p.source(), d) is None,
        },
{
    let mut cursor = p.tree.walk();
    cursor.goto_descendant(d);
    cursor.field_name().map(|f| f.to_string())
}

/// Relies on `TreeCursor::goto_descendant`, `Node::byte_range` and
/// `str::get`: nothing where the range is off the text's character
/// boundaries.
#[verifier::external_body]
pub(crate) fn text_at(p: &ParsedSource, d: usize) -> (r: Option<String>)
    ensures
        match r {
            Some(t) => syntax_text(p.language(), p.source(), d) == Some(t@),
            None => syntax_text(p.language(), p.source(), d) is None,
        },
{
    let mut cursor = p.tree.walk();
    cursor.goto_descendant(d);
    p.source.get(cursor.node().byte_range()).map(|t| t.to_string())
}

} // verus!
