//! Rules: what to look for in a tree, and the catalog that holds them in order.

use vstd::prelude::*;
use crate::text::{ByteRange, all_in_ranges, in_order_from, pattern_bytes, bytes_equal, bytes_in_ranges, contains_in_order};

verus! {

/// Which node of a matched shape is reported.
#[derive(Debug, Clone, PartialEq, Eq)]
pub enum Capture {
    /// The node of the target kind itself.
    Whole,
    /// The first child of the given kind; where `role` is not empty, the
    /// child must also stand under that role.
    Child { role: String, kind: String },
}

/// A test on the source text of the captured node.
#[derive(Debug, Clone, PartialEq, Eq)]
pub enum TextPredicate {
    /// The text is exactly this.
    Equals(String),
    /// The fragments occur in the text in this order, without overlap.
    ContainsInOrder(Vec<String>),
    /// The text has at least `min_len` bytes, each in one of `ranges`.
    CharsetMinLen { ranges: Vec<ByteRange>, min_len: usize },
}

/// One rule: a finding category and the shape and text that give rise to it.
#[derive(Debug, Clone, PartialEq, Eq)]
pub struct Rule {
    pub category: String,
    pub target_kind: String,
    pub capture: Capture,
    pub predicate: Option<TextPredicate>,
}

/// Why the engine refused to work.
#[derive(Debug, Clone, Copy, PartialEq, Eq)]
pub enum EngineError {
    /// The rule at `index` is not valid.
    RuleCompilation { index: usize },
    /// No grammar and rule dialect are known under the given tag.
    UnsupportedLanguage,
    /// The parser produced no tree for the source text.
    Parse,
}

/// What an error says of itself.
pub open spec fn error_text(error: EngineError) -> Seq<char> {
    match error {
        EngineError::RuleCompilation { index } => "Invalid rule"@,
        EngineError::UnsupportedLanguage => "Unsupported language"@,
        EngineError::Parse => "Parse failed"@,
    }
}

impl EngineError {
    /// The error in words.
    pub fn message(&self) -> (text: String)
        ensures
            text@ == error_text(*self),
    {
        match self {
            EngineError::RuleCompilation { index } => "Invalid rule".to_owned(),
            EngineError::UnsupportedLanguage => "Unsupported language".to_owned(),
            EngineError::Parse => "Parse failed".to_owned(),
        }
    }
}

/// A capture of a child names the child's kind.
pub open spec fn capture_valid(capture: Capture) -> bool {
    match capture {
        Capture::Whole => true,
        Capture::Child { role, kind } => kind@.len() > 0,
    }
}

/// A predicate has a text to compare with, or fragments none of which is
/// empty, or byte ranges none of which is empty.
pub open spec fn predicate_valid(predicate: TextPredicate) -> bool {
    match predicate {
        TextPredicate::Equals(s) => s@.len() > 0,
        TextPredicate::ContainsInOrder(frags) => frags@.len() > 0 && forall|i: int|
            0 <= i < frags@.len() ==> (#[trigger] frags@[i])@.len() > 0,
        TextPredicate::CharsetMinLen { ranges, min_len } => ranges@.len() > 0 && forall|i: int|
            0 <= i < ranges@.len() ==> (#[trigger] ranges@[i]).lo <= ranges@[i].hi,
    }
}

/// A rule is valid where its category and kinds are not empty and its
/// predicate, if it has one, is well formed.
pub open spec fn rule_valid(rule: Rule) -> bool {
    &&& rule.category@.len() > 0
    &&& rule.target_kind@.len() > 0
    &&& capture_valid(rule.capture)
    &&& match rule.predicate {
        Some(p) => predicate_valid(p),
        None => true,
    }
}

/// Whether the predicate, if there is one, holds of `text`.
pub open spec fn text_accepted(predicate: Option<TextPredicate>, text: Seq<u8>) -> bool {
    match predicate {
        None => true,
        Some(TextPredicate::Equals(s)) => text == pattern_bytes(s),
        Some(TextPredicate::ContainsInOrder(frags)) => in_order_from(text, frags@, 0, 0),
        Some(TextPredicate::CharsetMinLen { ranges, min_len }) => text.len() >= min_len
            && all_in_ranges(text, ranges@),
    }
}

/// Decides whether the predicate, if there is one, holds of `text`.
pub fn accepts(predicate: &Option<TextPredicate>, text: &[u8]) -> (ok: bool)
    ensures
        ok == text_accepted(*predicate, text@),
{
    match predicate {
        None => true,
        Some(TextPredicate::Equals(s)) => bytes_equal(text, s.as_str().as_bytes()),
        Some(TextPredicate::ContainsInOrder(frags)) => contains_in_order(text, frags),
        Some(TextPredicate::CharsetMinLen { ranges, min_len }) => text.len() >= *min_len
            && bytes_in_ranges(text, ranges),
    }
}

fn fragments_valid(frags: &Vec<String>) -> (ok: bool)
    ensures
        ok == (frags@.len() > 0 && forall|i: int|
            0 <= i < frags@.len() ==> (#[trigger] frags@[i])@.len() > 0),
{
    let mut i: usize = 0;
    while i < frags.len()
        invariant
            i <= frags.len(),
            forall|j: int| 0 <= j < i ==> (#[trigger] frags@[j])@.len() > 0,
        decreases frags.len() - i,
    {
        if frags[i].as_str().is_empty() {
            return false;
        }
        i += 1;
    }
    frags.len() > 0
}

fn ranges_valid(ranges: &Vec<ByteRange>) -> (ok: bool)
    ensures
        ok == (ranges@.len() > 0 && forall|i: int|
            0 <= i < ranges@.len() ==> (#[trigger] ranges@[i]).lo <= ranges@[i].hi),
{
    let mut i: usize = 0;
    while i < ranges.len()
        invariant
            i <= ranges.len(),
            forall|j: int| 0 <= j < i ==> (#[trigger] ranges@[j]).lo <= ranges@[j].hi,
        decreases ranges.len() - i,
    {
        if ranges[i].lo > ranges[i].hi {
            return false;
        }
        i += 1;
    }
    ranges.len() > 0
}

fn predicate_is_valid(predicate: &TextPredicate) -> (ok: bool)
    ensures
        ok == predicate_valid(*predicate),
{
    match predicate {
        TextPredicate::Equals(s) => !s.as_str().is_empty(),
        TextPredicate::ContainsInOrder(frags) => fragments_valid(frags),
        TextPredicate::CharsetMinLen { ranges, min_len } => ranges_valid(ranges),
    }
}

/// Whether `rule` reports the callee of a call where the callee's text is `name`.
pub open spec fn is_call_callee_equals(
    rule: Rule,
    category: Seq<char>,
    call_kind: Seq<char>,
    callee_kind: Seq<char>,
    name: Seq<char>,
) -> bool {
    &&& rule.category@ == category
    &&& rule.target_kind@ == call_kind
    &&& rule.capture matches Capture::Child { role, kind } && role@ == "function"@ && kind@
        == callee_kind
    &&& rule.predicate matches Some(TextPredicate::Equals(s)) && s@ == name
}

/// Whether `rule` reports a string literal in which `fragments` occur in order.
pub open spec fn is_string_substring_match(
    rule: Rule,
    category: Seq<char>,
    string_kind: Seq<char>,
    fragments: Seq<Seq<char>>,
) -> bool {
    &&& rule.category@ == category
    &&& rule.target_kind@ == string_kind
    &&& rule.capture is Whole
    &&& rule.predicate matches Some(TextPredicate::ContainsInOrder(frags)) && frags@.len()
        == fragments.len() && forall|i: int|
        0 <= i < fragments.len() ==> (#[trigger] frags@[i])@ == fragments[i]
}

/// Whether `rule` reports the content of a string literal that has at least
/// `min_len` bytes, all of them in `ranges`.
pub open spec fn is_string_charset_length_match(
    rule: Rule,
    category: Seq<char>,
    string_kind: Seq<char>,
    content_kind: Seq<char>,
    ranges: Seq<ByteRange>,
    min_len: usize,
) -> bool {
    &&& rule.category@ == category
    &&& rule.target_kind@ == string_kind
    &&& rule.capture matches Capture::Child { role, kind } && role@.len() == 0 && kind@
        == content_kind
    &&& rule.predicate matches Some(TextPredicate::CharsetMinLen { ranges: r, min_len: m }) && r@
        == ranges && m == min_len
}

impl Rule {
    /// Decides whether the rule is valid.
    pub fn is_valid(&self) -> (ok: bool)
        ensures
            ok == rule_valid(*self),
    {
        if self.category.as_str().is_empty() || self.target_kind.as_str().is_empty() {
            return false;
        }
        let capture_ok = match &self.capture {
            Capture::Whole => true,
            Capture::Child { role, kind } => !kind.as_str().is_empty(),
        };
        if !capture_ok {
            return false;
        }
        match &self.predicate {
            Some(p) => predicate_is_valid(p),
            None => true,
        }
    }

    /// A rule that reports, at each node of kind `call_kind`, the child under
    /// the role `function` that has kind `callee_kind` and whose text is `name`.
    pub fn call_callee_equals(category: &str, call_kind: &str, callee_kind: &str, name: &str) -> (rule: Rule)
        ensures
            is_call_callee_equals(rule, category@, call_kind@, callee_kind@, name@),
    {
        Rule {
            category: category.to_owned(),
            target_kind: call_kind.to_owned(),
            capture: Capture::Child { role: "function".to_owned(), kind: callee_kind.to_owned() },
            predicate: Some(TextPredicate::Equals(name.to_owned())),
        }
    }

    /// A rule that reports each node of kind `string_kind` in whose text the
    /// fragments occur in order.
    pub fn string_substring_match(category: &str, string_kind: &str, fragments: Vec<String>) -> (rule: Rule)
        ensures
            is_string_substring_match(
                rule,
                category@,
                string_kind@,
                Seq::new(fragments@.len(), |i: int| fragments@[i]@),
            ),
    {
        Rule {
            category: category.to_owned(),
            target_kind: string_kind.to_owned(),
            capture: Capture::Whole,
            predicate: Some(TextPredicate::ContainsInOrder(fragments)),
        }
    }

    /// A rule that reports, at each node of kind `string_kind`, the first child
    /// of kind `content_kind` whose text has at least `min_len` bytes, all of
    /// them in `ranges`.
    pub fn string_charset_length_match(
        category: &str,
        string_kind: &str,
        content_kind: &str,
        ranges: Vec<ByteRange>,
        min_len: usize,
    ) -> (rule: Rule)
        ensures
            is_string_charset_length_match(
                rule,
                category@,
                string_kind@,
                content_kind@,
                ranges@,
                min_len,
            ),
    {
        Rule {
            category: category.to_owned(),
            target_kind: string_kind.to_owned(),
            capture: Capture::Child { role: String::new(), kind: content_kind.to_owned() },
            predicate: Some(TextPredicate::CharsetMinLen { ranges, min_len }),
        }
    }
}

} // verus!
