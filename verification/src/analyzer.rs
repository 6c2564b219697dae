//! The analyzer of one language: its built-in rules and branching kinds,
//! ready to be run on parsed trees.

use vstd::prelude::*;
use crate::analysis::{AnalysisReport, analysis, analyze};
use crate::catalog::{Catalog, Language, is_branching_kinds, is_builtin, language_of_tag};
use crate::rule::EngineError;
use crate::score::{score, tree_score};
use crate::tree::Node;

verus! {

/// The rules and the branching kinds of one language.
#[derive(Debug)]
pub struct CodeAnalyzer {
    pub language: Language,
    pub catalog: Catalog,
    pub branching: Vec<String>,
}

impl CodeAnalyzer {
    /// The analyzer of the language that goes by `lang`, with its built-in
    /// rules; an unknown tag is turned down.
    pub fn new(lang: &str) -> (r: Result<CodeAnalyzer, EngineError>)
        ensures
            match r {
                Ok(a) => language_of_tag(lang@) == Some(a.language) && is_builtin(a.catalog@, a.language)
                    && is_branching_kinds(a.branching@, a.language),
                Err(e) => language_of_tag(lang@) is None && e == EngineError::UnsupportedLanguage,
            },
    {
        match Language::from_tag(lang) {
            Ok(language) => Ok(
                CodeAnalyzer {
                    language,
                    catalog: Catalog::builtin(language),
                    branching: language.branching_kinds(),
                },
            ),
            Err(e) => Err(e),
        }
    }

    /// The complexity score of the tree under `node`.
    pub fn calculate_complexity(&self, node: &Node) -> (total: u64)
        requires
            tree_score(*node, self.branching@) <= u64::MAX,
        ensures
            total == tree_score(*node, self.branching@),
            total >= 1,
    {
        score(node, &self.branching)
    }

    /// The report on one source text, given what the parser made of it:
    /// its tree, or nothing where it could not parse the text.
    pub fn analyze_file(&self, tree: Option<&Node>, content: &str) -> (r: Result<AnalysisReport, EngineError>)
        requires
            tree matches Some(root) ==> tree_score(*root, self.branching@) <= u64::MAX,
        ensures
            match r {
                Ok(report) => tree matches Some(root) && report@ == analysis(
                    *root,
                    vstd::utf8::encode_utf8(content@),
                    self.catalog@,
                    self.branching@,
                ),
                Err(e) => tree is None && e == EngineError::Parse,
            },
    {
        match tree {
            Some(root) => Ok(analyze(root, content, &self.catalog, &self.branching)),
            None => Err(EngineError::Parse),
        }
    }
}

} // verus!
