//! The whole analysis of one tree: its score, and what each rule of a
//! catalog finds in it.

use vstd::prelude::*;
use crate::catalog::Catalog;
use crate::matcher::{
    MalformedNodeWarning, Match, MatchView, Site, WarningView, captured, collect, finding,
    hits_along,
    match_views, rule_matches, rule_warnings, site, warning_views, warnings_along,
};
use crate::rule::Rule;
use crate::score::{score, tree_score};
use crate::tree::{Node, preorder};

verus! {

/// The result of one analysis.
#[derive(Debug, Clone, PartialEq, Eq)]
pub struct AnalysisReport {
    pub complexity: u64,
    pub matches: Vec<Match>,
    pub warnings: Vec<MalformedNodeWarning>,
}

/// A report as a mathematical value.
pub struct ReportView {
    pub complexity: nat,
    pub matches: Seq<MatchView>,
    pub warnings: Seq<WarningView>,
}

impl View for AnalysisReport {
    type V = ReportView;

    open spec fn view(&self) -> ReportView {
        ReportView {
            complexity: self.complexity as nat,
            matches: match_views(self.matches@),
            warnings: warning_views(self.warnings@),
        }
    }
}

/// The findings of the first `n` rules, rule after rule, each rule's
/// findings in pre-order.
pub open spec fn matches_upto(root: Node, source: Seq<u8>, rules: Seq<Rule>, n: int) -> Seq<MatchView>
    decreases n,
{
    if n <= 0 {
        Seq::empty()
    } else {
        matches_upto(root, source, rules, n - 1) + rule_matches(root, source, rules[n - 1])
    }
}

/// The warnings of the first `n` rules, rule after rule.
pub open spec fn warnings_upto(root: Node, source: Seq<u8>, rules: Seq<Rule>, n: int) -> Seq<WarningView>
    decreases n,
{
    if n <= 0 {
        Seq::empty()
    } else {
        warnings_upto(root, source, rules, n - 1) + rule_warnings(root, source, rules[n - 1])
    }
}

/// What the analysis of a tree reports.
pub open spec fn analysis(root: Node, source: Seq<u8>, rules: Seq<Rule>, branching: Seq<String>) -> ReportView {
    ReportView {
        complexity: tree_score(root, branching),
        matches: matches_upto(root, source, rules, rules.len() as int),
        warnings: warnings_upto(root, source, rules, rules.len() as int),
    }
}

/// Scores the tree under `root` and matches every rule of `catalog`
/// against it, in catalog order.
///
/// The score has to fit the result type.
pub fn analyze(root: &Node, source: &str, catalog: &Catalog, branching: &Vec<String>) -> (report: AnalysisReport)
    requires
        tree_score(*root, branching@) <= u64::MAX,
    ensures
        report@ == analysis(*root, vstd::utf8::encode_utf8(source@), catalog@, branching@),
        report.complexity >= 1,
        forall|k: int|
            0 <= k < report.matches@.len() ==> exists|j: int|
                0 <= j < catalog@.len() && (#[trigger] report.matches@[k]).category@ == (
                #[trigger] catalog@[j]).category@,
{
    let complexity = score(root, branching);
    let bytes = source.as_bytes();
    let rules = catalog.rules();
    let mut matches: Vec<Match> = Vec::new();
    let mut warnings: Vec<MalformedNodeWarning> = Vec::new();
    assert(match_views(matches@) =~= matches_upto(*root, bytes@, rules@, 0));
    assert(warning_views(warnings@) =~= warnings_upto(*root, bytes@, rules@, 0));
    let mut i: usize = 0;
    while i < rules.len()
        invariant
            i <= rules.len(),
            match_views(matches@) == matches_upto(*root, bytes@, rules@, i as int),
            warning_views(warnings@) == warnings_upto(*root, bytes@, rules@, i as int),
        decreases rules.len() - i,
    {
        collect(root, bytes, &rules[i], &mut matches, &mut warnings);
        i += 1;
    }
    proof {
        lemma_categories_from_catalog(*root, bytes@, rules@, rules@.len() as int);
        assert forall|k: int| 0 <= k < matches@.len() implies exists|j: int|
            0 <= j < rules@.len() && (#[trigger] matches@[k]).category@ == (#[trigger] rules@[j]).category@ by {
            assert(match_views(matches@)[k] == matches@[k]@);
        }
    }
    AnalysisReport { complexity, matches, warnings }
}

/// Two reports on the same tree, source text, rules and branching kinds say
/// the same.
pub proof fn lemma_analysis_repeatable(
    first: AnalysisReport,
    second: AnalysisReport,
    root: Node,
    source: Seq<u8>,
    rules: Seq<Rule>,
    branching: Seq<String>,
)
    requires
        first@ == analysis(root, source, rules, branching),
        second@ == analysis(root, source, rules, branching),
    ensures
        first@ == second@,
        first.complexity == second.complexity,
        match_views(first.matches@) == match_views(second.matches@),
        warning_views(first.warnings@) == warning_views(second.warnings@),
{
}

/// The findings of fewer rules stand at the front of the findings of more.
pub proof fn lemma_matches_upto_prefix(root: Node, source: Seq<u8>, rules: Seq<Rule>, n: int, m: int)
    requires
        0 <= n <= m,
    ensures
        matches_upto(root, source, rules, n).len() <= matches_upto(root, source, rules, m).len(),
        matches_upto(root, source, rules, m).take(matches_upto(root, source, rules, n).len() as int)
            == matches_upto(root, source, rules, n),
    decreases m - n,
{
    let short = matches_upto(root, source, rules, n);
    if n == m {
        assert(short.take(short.len() as int) =~= short);
    } else {
        lemma_matches_upto_prefix(root, source, rules, n, m - 1);
        let mid = matches_upto(root, source, rules, m - 1);
        let last = rule_matches(root, source, rules[m - 1]);
        assert((mid + last).take(short.len() as int) =~= mid.take(short.len() as int));
    }
}

/// In a report, the findings of rule `i` stand together, after the findings
/// of all rules before it and before those of all rules after it: they fill
/// the places from the number of findings of the first `i` rules up to the
/// number of findings of the first `i + 1` rules.
pub proof fn lemma_rule_order(root: Node, source: Seq<u8>, rules: Seq<Rule>, branching: Seq<String>, i: int)
    requires
        0 <= i < rules.len(),
    ensures
        ({
            let all = analysis(root, source, rules, branching).matches;
            let lo = matches_upto(root, source, rules, i).len() as int;
            let hi = matches_upto(root, source, rules, i + 1).len() as int;
            &&& lo <= hi <= all.len()
            &&& all.subrange(lo, hi) == rule_matches(root, source, rules[i])
        }),
{
    let all = matches_upto(root, source, rules, rules.len() as int);
    let before = matches_upto(root, source, rules, i);
    let upto = matches_upto(root, source, rules, i + 1);
    lemma_matches_upto_prefix(root, source, rules, i + 1, rules.len() as int);
    assert(upto =~= before + rule_matches(root, source, rules[i]));
    assert(all.take(upto.len() as int) == upto);
    assert(all.subrange(before.len() as int, upto.len() as int) =~= upto.subrange(
        before.len() as int,
        upto.len() as int,
    ));
    assert(upto.subrange(before.len() as int, upto.len() as int) =~= rule_matches(root, source, rules[i]));
}

/// Where nothing is found at any of `nodes`, the rule has neither findings
/// nor warnings there.
pub proof fn lemma_nothing_along(nodes: Seq<Node>, source: Seq<u8>, rule: Rule)
    requires
        forall|k: int| 0 <= k < nodes.len() ==> site(#[trigger] nodes[k], source, rule) is Skipped,
    ensures
        hits_along(nodes, source, rule).len() == 0,
        warnings_along(nodes, source, rule).len() == 0,
    decreases nodes.len(),
{
    if nodes.len() > 0 {
        assert(forall|k: int| 0 <= k < nodes.len() - 1 ==> nodes.drop_last()[k] == nodes[k]);
        lemma_nothing_along(nodes.drop_last(), source, rule);
        assert(site(nodes[nodes.len() - 1], source, rule) is Skipped);
    }
}

/// A rule whose capture resolves at no node of its target kind in a tree
/// has no findings and leaves no warnings there.
pub proof fn lemma_unresolved_capture_gives_nothing(root: Node, source: Seq<u8>, rule: Rule)
    requires
        forall|k: int|
            0 <= k < preorder(root).len() && (#[trigger] preorder(root)[k]).kind@ == rule.target_kind@
                ==> captured(preorder(root)[k], rule.capture) is None,
    ensures
        rule_matches(root, source, rule).len() == 0,
        rule_warnings(root, source, rule).len() == 0,
{
    lemma_nothing_along(preorder(root), source, rule);
}

/// Every finding of a rule carries the rule's category.
pub proof fn lemma_hits_carry_category(nodes: Seq<Node>, source: Seq<u8>, rule: Rule)
    ensures
        forall|k: int|
            0 <= k < hits_along(nodes, source, rule).len() ==> (#[trigger] hits_along(
                nodes,
                source,
                rule,
            )[k]).category == rule.category@,
    decreases nodes.len(),
{
    if nodes.len() > 0 {
        lemma_hits_carry_category(nodes.drop_last(), source, rule);
        let before = hits_along(nodes.drop_last(), source, rule);
        let own = match site(nodes.last(), source, rule) {
            Site::Hit(c) => seq![finding(rule, c, source)],
            _ => Seq::empty(),
        };
        assert(hits_along(nodes, source, rule) == before + own);
        assert forall|k: int| 0 <= k < (before + own).len() implies (#[trigger] (before + own)[k]).category
            == rule.category@ by {
            if k < before.len() {
                assert((before + own)[k] == before[k]);
            } else {
                assert((before + own)[k] == own[k - before.len()]);
            }
        }
    }
}

/// Every finding of a report carries the category of a rule of the catalog.
pub proof fn lemma_categories_from_catalog(root: Node, source: Seq<u8>, rules: Seq<Rule>, n: int)
    requires
        0 <= n <= rules.len(),
    ensures
        forall|k: int|
            0 <= k < matches_upto(root, source, rules, n).len() ==> exists|j: int|
                0 <= j < n && (#[trigger] matches_upto(root, source, rules, n)[k]).category
                    == (#[trigger] rules[j]).category@,
    decreases n,
{
    if n > 0 {
        lemma_categories_from_catalog(root, source, rules, n - 1);
        lemma_hits_carry_category(preorder(root), source, rules[n - 1]);
        let before = matches_upto(root, source, rules, n - 1);
        let own = rule_matches(root, source, rules[n - 1]);
        assert forall|k: int| 0 <= k < (before + own).len() implies exists|j: int|
            0 <= j < n && (#[trigger] (before + own)[k]).category == (#[trigger] rules[j]).category@ by {
            if k < before.len() {
                let j = choose|j: int|
                    0 <= j < n - 1 && before[k].category == (#[trigger] rules[j]).category@;
                assert(0 <= j < n && (before + own)[k].category == rules[j].category@);
            } else {
                assert((before + own)[k] == own[k - before.len()]);
                assert((before + own)[k].category == rules[n - 1].category@);
            }
        }
    }
}

} // verus!
