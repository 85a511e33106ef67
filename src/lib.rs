//! Change selection for source control: a per-file diff model with tri-state
//! selection, and a semantic view that groups diff sections by the code
//! structure (functions, types, members) found in a syntax tree.

mod grammar;
pub mod semantic;
pub mod syntax;
pub mod text;
pub mod types;

pub use semantic::{SemanticContainer, SemanticMember};
pub use types::{ChangeType, Commit, File, FileMode, Section, SectionChangedLine, Tristate};
