//! Matching one rule against a tree, in pre-order.

use vstd::prelude::*;
use crate::rule::{Capture, Rule, accepts, text_accepted};
use crate::text::slice_bytes;
use crate::tree::{Node, forest_preorder, lemma_forest_preorder_step, preorder};

verus! {

/// One finding: the rule's category and the captured node's kind, span,
/// line (counted from one) and source text.
#[derive(Debug, Clone, PartialEq, Eq)]
pub struct Match {
    pub category: String,
    pub kind: String,
    pub start_byte: usize,
    pub end_byte: usize,
    pub line: u64,
    pub text: Vec<u8>,
}

/// A captured node whose span does not lie within the source text. Such a
/// node is passed over for the rule of this category.
#[derive(Debug, Clone, PartialEq, Eq)]
pub struct MalformedNodeWarning {
    pub category: String,
    pub kind: String,
    pub start_byte: usize,
    pub end_byte: usize,
    pub line: u64,
}

/// A finding as a mathematical value.
pub struct MatchView {
    pub category: Seq<char>,
    pub kind: Seq<char>,
    pub start_byte: usize,
    pub end_byte: usize,
    pub line: u64,
    pub text: Seq<u8>,
}

/// A warning as a mathematical value.
pub struct WarningView {
    pub category: Seq<char>,
    pub kind: Seq<char>,
    pub start_byte: usize,
    pub end_byte: usize,
    pub line: u64,
}

impl View for Match {
    type V = MatchView;

    open spec fn view(&self) -> MatchView {
        MatchView {
            category: self.category@,
            kind: self.kind@,
            start_byte: self.start_byte,
            end_byte: self.end_byte,
            line: self.line,
            text: self.text@,
        }
    }
}

impl View for MalformedNodeWarning {
    type V = WarningView;

    open spec fn view(&self) -> WarningView {
        WarningView {
            category: self.category@,
            kind: self.kind@,
            start_byte: self.start_byte,
            end_byte: self.end_byte,
            line: self.line,
        }
    }
}

/// The views of a sequence of findings.
pub open spec fn match_views(matches: Seq<Match>) -> Seq<MatchView> {
    Seq::new(matches.len(), |i: int| matches[i]@)
}

/// The views of a sequence of warnings.
pub open spec fn warning_views(warnings: Seq<MalformedNodeWarning>) -> Seq<WarningView> {
    Seq::new(warnings.len(), |i: int| warnings[i]@)
}

/// Whether a capture for a child of the given role and kind picks `child`.
pub open spec fn selects(child: Node, role: Seq<char>, kind: Seq<char>) -> bool {
    child.kind@ == kind && (role.len() == 0 || child.role@ == role)
}

/// The first of `children`, from index `from` on, that the capture picks.
pub open spec fn first_selected_from(children: Seq<Node>, role: Seq<char>, kind: Seq<char>, from: int) -> Option<Node>
    decreases children.len() - from,
{
    if from < 0 || from >= children.len() {
        None
    } else if selects(children[from], role, kind) {
        Some(children[from])
    } else {
        first_selected_from(children, role, kind, from + 1)
    }
}

/// The node that `capture` designates at `node`, if it resolves there.
pub open spec fn captured(node: Node, capture: Capture) -> Option<Node> {
    match capture {
        Capture::Whole => Some(node),
        Capture::Child { role, kind } => first_selected_from(node.children@, role@, kind@, 0),
    }
}

/// Whether the span of `node` lies within a source text of `len` bytes.
pub open spec fn span_in_bounds(node: Node, len: nat) -> bool {
    node.start_byte <= node.end_byte <= len
}

/// What a rule finds at one node.
pub enum Site {
    /// Nothing: another kind, a capture that does not resolve, or a text
    /// that the predicate turns down.
    Skipped,
    /// A capture whose span lies outside the source text.
    Malformed(Node),
    /// A finding at the captured node.
    Hit(Node),
}

/// What `rule` finds at `node`, looking at this node alone.
pub open spec fn site(node: Node, source: Seq<u8>, rule: Rule) -> Site {
    if node.kind@ != rule.target_kind@ {
        Site::Skipped
    } else {
        match captured(node, rule.capture) {
            None => Site::Skipped,
            Some(c) => if !span_in_bounds(c, source.len()) {
                Site::Malformed(c)
            } else if text_accepted(rule.predicate, source.subrange(c.start_byte as int, c.end_byte as int)) {
                Site::Hit(c)
            } else {
                Site::Skipped
            },
        }
    }
}

/// The finding that `rule` reports for the captured node `c`.
pub open spec fn finding(rule: Rule, c: Node, source: Seq<u8>) -> MatchView {
    MatchView {
        category: rule.category@,
        kind: c.kind@,
        start_byte: c.start_byte,
        end_byte: c.end_byte,
        line: (c.start_row + 1) as u64,
        text: source.subrange(c.start_byte as int, c.end_byte as int),
    }
}

/// The warning that `rule` leaves for the captured node `c`.
pub open spec fn warning(rule: Rule, c: Node) -> WarningView {
    WarningView {
        category: rule.category@,
        kind: c.kind@,
        start_byte: c.start_byte,
        end_byte: c.end_byte,
        line: (c.start_row + 1) as u64,
    }
}

/// The findings of `rule` at `nodes`, in the order of `nodes`.
pub open spec fn hits_along(nodes: Seq<Node>, source: Seq<u8>, rule: Rule) -> Seq<MatchView>
    decreases nodes.len(),
{
    if nodes.len() == 0 {
        Seq::empty()
    } else {
        hits_along(nodes.drop_last(), source, rule) + match site(nodes.last(), source, rule) {
            Site::Hit(c) => seq![finding(rule, c, source)],
            _ => Seq::empty(),
        }
    }
}

/// The warnings of `rule` at `nodes`, in the order of `nodes`.
pub open spec fn warnings_along(nodes: Seq<Node>, source: Seq<u8>, rule: Rule) -> Seq<WarningView>
    decreases nodes.len(),
{
    if nodes.len() == 0 {
        Seq::empty()
    } else {
        warnings_along(nodes.drop_last(), source, rule) + match site(nodes.last(), source, rule) {
            Site::Malformed(c) => seq![warning(rule, c)],
            _ => Seq::empty(),
        }
    }
}

/// The findings of `rule` in the tree under `root`, in pre-order.
pub open spec fn rule_matches(root: Node, source: Seq<u8>, rule: Rule) -> Seq<MatchView> {
    hits_along(preorder(root), source, rule)
}

/// The warnings of `rule` in the tree under `root`, in pre-order.
pub open spec fn rule_warnings(root: Node, source: Seq<u8>, rule: Rule) -> Seq<WarningView> {
    warnings_along(preorder(root), source, rule)
}

/// Findings and warnings go through concatenation.
pub proof fn lemma_along_concat(a: Seq<Node>, b: Seq<Node>, source: Seq<u8>, rule: Rule)
    ensures
        hits_along(a + b, source, rule) == hits_along(a, source, rule) + hits_along(b, source, rule),
        warnings_along(a + b, source, rule) == warnings_along(a, source, rule) + warnings_along(
            b,
            source,
            rule,
        ),
    decreases b.len(),
{
    if b.len() == 0 {
        assert(a + b =~= a);
        assert(hits_along(a, source, rule) + hits_along(b, source, rule) =~= hits_along(a, source, rule));
        assert(warnings_along(a, source, rule) + warnings_along(b, source, rule) =~= warnings_along(
            a,
            source,
            rule,
        ));
    } else {
        assert((a + b).drop_last() =~= a + b.drop_last());
        assert((a + b).last() == b.last());
        lemma_along_concat(a, b.drop_last(), source, rule);
        let h = match site(b.last(), source, rule) {
            Site::Hit(c) => seq![finding(rule, c, source)],
            _ => Seq::empty(),
        };
        let w = match site(b.last(), source, rule) {
            Site::Malformed(c) => seq![warning(rule, c)],
            _ => Seq::empty(),
        };
        assert((hits_along(a, source, rule) + hits_along(b.drop_last(), source, rule)) + h
            =~= hits_along(a, source, rule) + (hits_along(b.drop_last(), source, rule) + h));
        assert((warnings_along(a, source, rule) + warnings_along(b.drop_last(), source, rule)) + w
            =~= warnings_along(a, source, rule) + (warnings_along(b.drop_last(), source, rule) + w));
    }
}

/// Finds the first of `children` that a capture for `role` and `kind` picks.
pub fn first_child<'a>(children: &'a Vec<Node>, role: &String, kind: &String) -> (found: Option<&'a Node>)
    ensures
        match found {
            Some(c) => first_selected_from(children@, role@, kind@, 0) == Some(*c),
            None => first_selected_from(children@, role@, kind@, 0) is None,
        },
{
    let any_role = role.as_str().is_empty();
    let mut i: usize = 0;
    while i < children.len()
        invariant
            i <= children.len(),
            any_role == (role@.len() == 0),
            first_selected_from(children@, role@, kind@, 0) == first_selected_from(
                children@,
                role@,
                kind@,
                i as int,
            ),
        decreases children.len() - i,
    {
        let child = &children[i];
        if child.kind == *kind && (any_role || child.role == *role) {
            return Some(child);
        }
        i += 1;
    }
    None
}

/// Finds the node that `capture` designates at `node`.
pub fn resolve<'a>(node: &'a Node, capture: &Capture) -> (found: Option<&'a Node>)
    ensures
        match found {
            Some(c) => captured(*node, *capture) == Some(*c),
            None => captured(*node, *capture) is None,
        },
{
    match capture {
        Capture::Whole => Some(node),
        Capture::Child { role, kind } => first_child(&node.children, role, kind),
    }
}

/// What a rule finds at one node, as a value.
#[derive(Debug, Clone, PartialEq, Eq)]
pub enum Outcome {
    Skipped,
    Malformed(MalformedNodeWarning),
    Hit(Match),
}

/// Looks at `node` alone and says what `rule` finds there.
pub fn examine(node: &Node, source: &[u8], rule: &Rule) -> (outcome: Outcome)
    ensures
        match outcome {
            Outcome::Skipped => site(*node, source@, *rule) is Skipped,
            Outcome::Malformed(w) => site(*node, source@, *rule) matches Site::Malformed(c) && w@
                == warning(*rule, c),
            Outcome::Hit(m) => site(*node, source@, *rule) matches Site::Hit(c) && m@ == finding(
                *rule,
                c,
                source@,
            ),
        },
{
    if node.kind != rule.target_kind {
        return Outcome::Skipped;
    }
    match resolve(node, &rule.capture) {
        None => Outcome::Skipped,
        Some(c) => {
            let line: u64 = c.start_row as u64 + 1;
            if c.start_byte > c.end_byte || c.end_byte > source.len() {
                Outcome::Malformed(
                    MalformedNodeWarning {
                        category: rule.category.clone(),
                        kind: c.kind.clone(),
                        start_byte: c.start_byte,
                        end_byte: c.end_byte,
                        line,
                    },
                )
            } else {
                let text = slice_bytes(source, c.start_byte, c.end_byte);
                if accepts(&rule.predicate, text.as_slice()) {
                    Outcome::Hit(
                        Match {
                            category: rule.category.clone(),
                            kind: c.kind.clone(),
                            start_byte: c.start_byte,
                            end_byte: c.end_byte,
                            line,
                            text,
                        },
                    )
                } else {
                    Outcome::Skipped
                }
            }
        },
    }
}

/// Visits the tree under `node` in pre-order and appends what `rule` finds.
pub fn collect(
    node: &Node,
    source: &[u8],
    rule: &Rule,
    matches: &mut Vec<Match>,
    warnings: &mut Vec<MalformedNodeWarning>,
)
    ensures
        match_views(final(matches)@) == match_views(old(matches)@) + rule_matches(*node, source@, *rule),
        warning_views(final(warnings)@) == warning_views(old(warnings)@) + rule_warnings(
            *node,
            source@,
            *rule,
        ),
    decreases node,
{
    let ghost m0 = match_views(matches@);
    let ghost w0 = warning_views(warnings@);
    let ghost own = seq![*node];
    proof {
        assert(own.drop_last() =~= Seq::<Node>::empty());
        assert(own.last() == *node);
        assert(hits_along(own.drop_last(), source@, *rule) =~= Seq::<MatchView>::empty());
        assert(warnings_along(own.drop_last(), source@, *rule) =~= Seq::<WarningView>::empty());
    }
    match examine(node, source, rule) {
        Outcome::Skipped => {},
        Outcome::Malformed(w) => {
            warnings.push(w);
        },
        Outcome::Hit(m) => {
            matches.push(m);
        },
    }
    assert(match_views(matches@) =~= m0 + hits_along(own, source@, *rule));
    assert(warning_views(warnings@) =~= w0 + warnings_along(own, source@, *rule));
    let mut i: usize = 0;
    while i < node.children.len()
        invariant
            i <= node.children.len(),
            own == seq![*node],
            match_views(matches@) == m0 + hits_along(
                own + forest_preorder(node.children@.take(i as int)),
                source@,
                *rule,
            ),
            warning_views(warnings@) == w0 + warnings_along(
                own + forest_preorder(node.children@.take(i as int)),
                source@,
                *rule,
            ),
        decreases node.children.len() - i,
    {
        let ghost seen = own + forest_preorder(node.children@.take(i as int));
        let ghost below = preorder(node.children@[i as int]);
        collect(&node.children[i], source, rule, matches, warnings);
        proof {
            lemma_forest_preorder_step(node.children@, i as int);
            lemma_along_concat(seen, below, source@, *rule);
            assert(own + forest_preorder(node.children@.take(i + 1)) =~= seen + below);
            assert(match_views(matches@) =~= m0 + hits_along(seen + below, source@, *rule));
            assert(warning_views(warnings@) =~= w0 + warnings_along(seen + below, source@, *rule));
        }
        i += 1;
    }
    proof {
        assert(node.children@.take(node.children@.len() as int) =~= node.children@);
    }
}

/// All that `rule` finds in the tree under `root`: the findings and the
/// warnings, each in pre-order.
pub fn find_matches(root: &Node, source: &str, rule: &Rule) -> (found: (Vec<Match>, Vec<MalformedNodeWarning>))
    ensures
        match_views(found.0@) == rule_matches(*root, vstd::utf8::encode_utf8(source@), *rule),
        warning_views(found.1@) == rule_warnings(*root, vstd::utf8::encode_utf8(source@), *rule),
{
    let mut matches: Vec<Match> = Vec::new();
    let mut warnings: Vec<MalformedNodeWarning> = Vec::new();
    collect(root, source.as_bytes(), rule, &mut matches, &mut warnings);
    assert(match_views(matches@) =~= rule_matches(*root, vstd::utf8::encode_utf8(source@), *rule));
    assert(warning_views(warnings@) =~= rule_warnings(*root, vstd::utf8::encode_utf8(source@), *rule));
    (matches, warnings)
}

} // verus!
