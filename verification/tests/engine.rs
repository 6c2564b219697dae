use code_parser::analysis::{analyze, AnalysisReport};
use code_parser::analyzer::CodeAnalyzer;
use code_parser::catalog::{Catalog, Language};
use code_parser::matcher::{examine, find_matches, resolve, MalformedNodeWarning, Match, Outcome};
use code_parser::rule::{accepts, Capture, EngineError, Rule, TextPredicate};
use code_parser::score::{checked_score, kind_is_branching, score};
use code_parser::text::{
    byte_in_ranges, bytes_equal, bytes_in_ranges, contains_in_order, find_from, matches_at,
    slice_bytes, ByteRange,
};
use code_parser::tree::Node;

fn node(kind: &str, role: &str, start: usize, end: usize, row: u32, col: u32, children: Vec<Node>) -> Node {
    Node {
        kind: kind.to_string(),
        role: role.to_string(),
        start_byte: start,
        end_byte: end,
        start_row: row,
        start_column: col,
        children,
    }
}

fn token(kind: &str, start: usize, end: usize) -> Node {
    node(kind, "", start, end, 0, start as u32, vec![])
}

fn js() -> CodeAnalyzer {
    CodeAnalyzer::new("javascript").unwrap()
}

const EVAL_SOURCE: &str = "if (x) { eval(userInput); }";

// program
//   if_statement
//     "if"  parenthesized_expression( "(" identifier ")" )
//     statement_block( "{" expression_statement( call_expression ";" ) "}" )
fn eval_tree() -> Node {
    let call = node(
        "call_expression",
        "",
        9,
        24,
        0,
        9,
        vec![
            node("identifier", "function", 9, 13, 0, 9, vec![]),
            node(
                "arguments",
                "arguments",
                13,
                24,
                0,
                13,
                vec![token("(", 13, 14), token("identifier", 14, 23), token(")", 23, 24)],
            ),
        ],
    );
    let block = node(
        "statement_block",
        "consequence",
        7,
        27,
        0,
        7,
        vec![
            token("{", 7, 8),
            node("expression_statement", "", 9, 25, 0, 9, vec![call, token(";", 24, 25)]),
            token("}", 26, 27),
        ],
    );
    let condition = node(
        "parenthesized_expression",
        "condition",
        3,
        6,
        0,
        3,
        vec![token("(", 3, 4), token("identifier", 4, 5), token(")", 5, 6)],
    );
    let branch = node("if_statement", "", 0, 27, 0, 0, vec![token("if", 0, 2), condition, block]);
    node("program", "", 0, 27, 0, 0, vec![branch])
}

// program > variable_declaration > variable_declarator > string > string_fragment,
// for `var k = "<literal>";` on the row given.
fn assignment_tree(source: &str, row: u32) -> Node {
    let open = source.find('"').unwrap();
    let close = source.rfind('"').unwrap();
    let literal = node(
        "string",
        "value",
        open,
        close + 1,
        row,
        open as u32,
        vec![
            token("\"", open, open + 1),
            node("string_fragment", "", open + 1, close, row, open as u32 + 1, vec![]),
            token("\"", close, close + 1),
        ],
    );
    let declarator = node(
        "variable_declarator",
        "",
        4,
        close + 1,
        row,
        4,
        vec![node("identifier", "name", 4, 5, row, 4, vec![]), token("=", 6, 7), literal],
    );
    let declaration = node(
        "variable_declaration",
        "",
        0,
        source.len(),
        row,
        0,
        vec![token("var", 0, 3), declarator, token(";", close + 1, close + 2)],
    );
    node("program", "", 0, source.len(), 0, 0, vec![declaration])
}

#[test]
fn single_plain_node_scores_one() {
    let root = node("program", "", 0, 0, 0, 0, vec![]);
    assert_eq!(score(&root, &Language::JavaScript.branching_kinds()), 1);
    assert_eq!(score(&root, &Language::Python.branching_kinds()), 1);
}

#[test]
fn single_branching_node_scores_two() {
    let root = node("while_statement", "", 0, 0, 0, 0, vec![]);
    assert_eq!(score(&root, &Language::JavaScript.branching_kinds()), 2);
}

#[test]
fn root_with_one_branch_scores_three() {
    let root = node("program", "", 0, 0, 0, 0, vec![token("if_statement", 0, 0)]);
    assert_eq!(js().calculate_complexity(&root), 3);
}

#[test]
fn score_is_nodes_plus_branches() {
    let root = node(
        "program",
        "",
        0,
        0,
        0,
        0,
        vec![
            node("for_statement", "", 0, 0, 0, 0, vec![token("try_statement", 0, 0), token("x", 0, 0)]),
            token("switch_statement", 0, 0),
            token("identifier", 0, 0),
        ],
    );
    // six nodes, three of them branching
    assert_eq!(score(&root, &Language::JavaScript.branching_kinds()), 9);
    // the other grammar names its multi-way branch otherwise
    assert_eq!(score(&root, &Language::Python.branching_kinds()), 8);
}

#[test]
fn branching_kinds_differ_by_grammar() {
    let js_kinds = Language::JavaScript.branching_kinds();
    let py_kinds = Language::Python.branching_kinds();
    assert_eq!(
        js_kinds,
        vec!["if_statement", "for_statement", "while_statement", "switch_statement", "try_statement"]
    );
    assert_eq!(
        py_kinds,
        vec!["if_statement", "for_statement", "while_statement", "match_statement", "try_statement"]
    );
    assert!(kind_is_branching(&"match_statement".to_string(), &py_kinds));
    assert!(!kind_is_branching(&"match_statement".to_string(), &js_kinds));
    assert!(!kind_is_branching(&"if".to_string(), &js_kinds));
}

#[test]
fn eval_inside_if_is_reported() {
    let analyzer = js();
    let root = eval_tree();
    let report = analyzer.analyze_file(Some(&root), EVAL_SOURCE).unwrap();
    // eighteen nodes, one of them branching
    assert_eq!(report.complexity, 19);
    assert_eq!(
        report.matches,
        vec![Match {
            category: "Insecure dynamic evaluation".to_string(),
            kind: "identifier".to_string(),
            start_byte: 9,
            end_byte: 13,
            line: 1,
            text: b"eval".to_vec(),
        }]
    );
    assert!(report.warnings.is_empty());
}

#[test]
fn eval_on_a_later_row_reports_its_line() {
    let source = "\n\neval(a)";
    let call = node(
        "call_expression",
        "",
        2,
        9,
        2,
        0,
        vec![node("identifier", "function", 2, 6, 2, 0, vec![]), node("arguments", "arguments", 6, 9, 2, 4, vec![])],
    );
    let root = node("program", "", 0, 9, 0, 0, vec![node("expression_statement", "", 2, 9, 2, 0, vec![call])]);
    let report = js().analyze_file(Some(&root), source).unwrap();
    assert_eq!(report.matches.len(), 1);
    assert_eq!(report.matches[0].line, 3);
    assert_eq!(report.matches[0].text, b"eval".to_vec());
}

#[test]
fn other_callee_is_not_reported() {
    let source = "evil(a)";
    let call = node(
        "call_expression",
        "",
        0,
        7,
        0,
        0,
        vec![node("identifier", "function", 0, 4, 0, 0, vec![]), node("arguments", "arguments", 4, 7, 0, 4, vec![])],
    );
    let root = node("program", "", 0, 7, 0, 0, vec![call]);
    let report = js().analyze_file(Some(&root), source).unwrap();
    assert!(report.matches.is_empty());
    assert_eq!(report.complexity, 4);
}

#[test]
fn weak_randomness_is_reported_per_dialect() {
    let source = "Math.random()";
    let call = node(
        "call_expression",
        "",
        0,
        13,
        0,
        0,
        vec![
            node("member_expression", "function", 0, 11, 0, 0, vec![]),
            node("arguments", "arguments", 11, 13, 0, 11, vec![]),
        ],
    );
    let root = node("program", "", 0, 13, 0, 0, vec![call]);
    let report = js().analyze_file(Some(&root), source).unwrap();
    assert_eq!(report.matches.len(), 1);
    assert_eq!(report.matches[0].category, "Insecure randomness");
    assert_eq!(report.matches[0].text, b"Math.random".to_vec());

    let py_source = "random.random()";
    let py_call = node(
        "call",
        "",
        0,
        15,
        0,
        0,
        vec![node("attribute", "function", 0, 13, 0, 0, vec![]), node("argument_list", "arguments", 13, 15, 0, 13, vec![])],
    );
    let py_root = node("module", "", 0, 15, 0, 0, vec![py_call]);
    let python = CodeAnalyzer::new("python").unwrap();
    let py_report = python.analyze_file(Some(&py_root), py_source).unwrap();
    assert_eq!(py_report.matches.len(), 1);
    assert_eq!(py_report.matches[0].category, "Insecure randomness");
    assert_eq!(py_report.matches[0].text, b"random.random".to_vec());
    // the JavaScript dialect does not know this grammar's call kind
    assert!(js().analyze_file(Some(&py_root), py_source).unwrap().matches.is_empty());
}

#[test]
fn interpolated_query_is_reported() {
    let source = "var q = \"SELECT * FROM users WHERE id=\" + userId;";
    let open = 8;
    let close = 38;
    assert_eq!(&source[open..close + 1], "\"SELECT * FROM users WHERE id=\"");
    let literal = node(
        "string",
        "left",
        open,
        close + 1,
        0,
        8,
        vec![token("\"", 8, 9), token("string_fragment", 9, 38), token("\"", 38, 39)],
    );
    let sum = node(
        "binary_expression",
        "value",
        8,
        48,
        0,
        8,
        vec![literal, token("+", 40, 41), node("identifier", "right", 42, 48, 0, 42, vec![])],
    );
    let root = node("program", "", 0, 49, 0, 0, vec![node("variable_declaration", "", 0, 49, 0, 0, vec![sum])]);
    let report = js().analyze_file(Some(&root), source).unwrap();
    assert_eq!(report.matches.len(), 1);
    assert_eq!(report.matches[0].category, "Potential injectable query");
    assert_eq!(report.matches[0].kind, "string");
    assert_eq!(report.matches[0].text, b"\"SELECT * FROM users WHERE id=\"".to_vec());
    let text = String::from_utf8(report.matches[0].text.clone()).unwrap();
    let select = text.find("SELECT").unwrap();
    let from = text.find("FROM").unwrap();
    let where_at = text.find("WHERE").unwrap();
    assert!(select < from && from < where_at);
}

#[test]
fn long_base64_literal_is_a_secret() {
    let secret = "QUJDREVGR0hJSktMTU5PUFFSU1RVVldYWVowMTIzNDU2Nzg5";
    let secret44 = &secret[..44];
    assert_eq!(secret44.len(), 44);
    let source = format!("var k = \"{}\";", secret44);
    let root = assignment_tree(&source, 0);
    let report = js().analyze_file(Some(&root), &source).unwrap();
    assert_eq!(
        report.matches,
        vec![Match {
            category: "Hardcoded secret".to_string(),
            kind: "string_fragment".to_string(),
            start_byte: 9,
            end_byte: 53,
            line: 1,
            text: secret44.as_bytes().to_vec(),
        }]
    );
}

#[test]
fn short_base64_literal_is_no_secret() {
    let source = "var k = \"QUJDREVGR0\";";
    let root = assignment_tree(source, 0);
    let report = js().analyze_file(Some(&root), source).unwrap();
    assert!(report.matches.is_empty());
    assert!(report.warnings.is_empty());
}

#[test]
fn secret_length_boundary_is_forty() {
    let forty = "A".repeat(40);
    let source = format!("var k = \"{}\";", forty);
    let report = js().analyze_file(Some(&assignment_tree(&source, 0)), &source).unwrap();
    assert_eq!(report.matches.len(), 1);
    let thirty_nine = "A".repeat(39);
    let source = format!("var k = \"{}\";", thirty_nine);
    let report = js().analyze_file(Some(&assignment_tree(&source, 0)), &source).unwrap();
    assert!(report.matches.is_empty());
    let with_blank = format!("{} {}", "A".repeat(30), "B".repeat(30));
    let source = format!("var k = \"{}\";", with_blank);
    let report = js().analyze_file(Some(&assignment_tree(&source, 0)), &source).unwrap();
    assert!(report.matches.is_empty());
}

#[test]
fn empty_source_gives_baseline_report() {
    let root = node("program", "", 0, 0, 0, 0, vec![]);
    let report = js().analyze_file(Some(&root), "").unwrap();
    assert_eq!(report, AnalysisReport { complexity: 1, matches: vec![], warnings: vec![] });
}

#[test]
fn analysis_is_repeatable() {
    let analyzer = js();
    let root = eval_tree();
    let first = analyzer.analyze_file(Some(&root), EVAL_SOURCE).unwrap();
    let second = analyzer.analyze_file(Some(&root), EVAL_SOURCE).unwrap();
    assert_eq!(first, second);
    assert_eq!(format!("{:?}", first), format!("{:?}", second));
}

#[test]
fn matches_follow_rule_order_before_tree_order() {
    // the literal stands before the call in the tree, its rule after the call's rule
    let source = "\"SELECT a FROM b WHERE c\"; eval(x); eval(y)";
    let literal = node("string", "", 0, 25, 0, 0, vec![]);
    let first_call = node(
        "call_expression",
        "",
        27,
        34,
        0,
        27,
        vec![node("identifier", "function", 27, 31, 0, 27, vec![])],
    );
    let second_call = node(
        "call_expression",
        "",
        36,
        43,
        0,
        36,
        vec![node("identifier", "function", 36, 40, 0, 36, vec![])],
    );
    let root = node("program", "", 0, 43, 0, 0, vec![literal, first_call, second_call]);
    let report = js().analyze_file(Some(&root), source).unwrap();
    let seen: Vec<(String, usize)> = report.matches.iter().map(|m| (m.category.clone(), m.start_byte)).collect();
    assert_eq!(
        seen,
        vec![
            ("Insecure dynamic evaluation".to_string(), 27),
            ("Insecure dynamic evaluation".to_string(), 36),
            ("Potential injectable query".to_string(), 0),
        ]
    );
}

#[test]
fn unresolved_capture_gives_no_match() {
    let source = "(x)(y)";
    // a call whose callee is no identifier, and one without any child
    let call = node(
        "call_expression",
        "",
        0,
        6,
        0,
        0,
        vec![node("parenthesized_expression", "function", 0, 3, 0, 0, vec![]), node("arguments", "arguments", 3, 6, 0, 3, vec![])],
    );
    let bare = node("call_expression", "", 0, 6, 0, 0, vec![]);
    let root = node("program", "", 0, 6, 0, 0, vec![call, bare]);
    let rule = Rule::call_callee_equals("Insecure dynamic evaluation", "call_expression", "identifier", "eval");
    let (matches, warnings) = find_matches(&root, source, &rule);
    assert!(matches.is_empty());
    assert!(warnings.is_empty());
    assert!(resolve(&root.children[0], &rule.capture).is_none());
}

#[test]
fn role_is_part_of_the_capture() {
    let rule = Rule::call_callee_equals("c", "call_expression", "identifier", "eval");
    let call = node(
        "call_expression",
        "",
        0,
        4,
        0,
        0,
        vec![node("identifier", "other", 0, 4, 0, 0, vec![]), node("identifier", "function", 0, 4, 0, 0, vec![])],
    );
    let found = resolve(&call, &rule.capture).unwrap();
    assert_eq!(found.role, "function");
    let any_role = Capture::Child { role: String::new(), kind: "identifier".to_string() };
    assert_eq!(resolve(&call, &any_role).unwrap().role, "other");
    assert_eq!(resolve(&call, &Capture::Whole).unwrap().kind, "call_expression");
}

#[test]
fn span_outside_source_leaves_a_warning() {
    let source = "eval";
    let call = node("call_expression", "", 0, 4, 0, 0, vec![node("identifier", "function", 0, 40, 6, 0, vec![])]);
    let good = node("call_expression", "", 0, 4, 0, 0, vec![node("identifier", "function", 0, 4, 0, 0, vec![])]);
    let backwards = node("call_expression", "", 0, 4, 0, 0, vec![node("identifier", "function", 3, 2, 0, 0, vec![])]);
    let root = node("program", "", 0, 4, 0, 0, vec![call, good, backwards]);
    let rule = Rule::call_callee_equals("Insecure dynamic evaluation", "call_expression", "identifier", "eval");
    let (matches, warnings) = find_matches(&root, source, &rule);
    assert_eq!(matches.len(), 1);
    assert_eq!(matches[0].text, b"eval".to_vec());
    assert_eq!(
        warnings,
        vec![
            MalformedNodeWarning {
                category: "Insecure dynamic evaluation".to_string(),
                kind: "identifier".to_string(),
                start_byte: 0,
                end_byte: 40,
                line: 7,
            },
            MalformedNodeWarning {
                category: "Insecure dynamic evaluation".to_string(),
                kind: "identifier".to_string(),
                start_byte: 3,
                end_byte: 2,
                line: 1,
            },
        ]
    );
    let report = js().analyze_file(Some(&root), source).unwrap();
    assert_eq!(report.matches.len(), 1);
    assert_eq!(report.warnings.len(), 2);
    assert_eq!(report.complexity, 7);
}

#[test]
fn rule_without_predicate_matches_on_shape() {
    let rule = Rule {
        category: "Any literal".to_string(),
        target_kind: "string".to_string(),
        capture: Capture::Whole,
        predicate: None,
    };
    let root = node("program", "", 0, 4, 0, 0, vec![token("string", 0, 2), token("number", 2, 3), token("string", 3, 4)]);
    let (matches, _) = find_matches(&root, "abcd", &rule);
    let texts: Vec<Vec<u8>> = matches.into_iter().map(|m| m.text).collect();
    assert_eq!(texts, vec![b"ab".to_vec(), b"d".to_vec()]);
    assert_eq!(examine(&root, b"abcd", &rule), Outcome::Skipped);
}

#[test]
fn unknown_language_is_refused() {
    assert_eq!(CodeAnalyzer::new("ruby").unwrap_err(), EngineError::UnsupportedLanguage);
    assert_eq!(Language::from_tag("Python"), Err(EngineError::UnsupportedLanguage));
    assert_eq!(Language::from_tag("python"), Ok(Language::Python));
    assert_eq!(Language::from_tag("javascript"), Ok(Language::JavaScript));
    assert_eq!(CodeAnalyzer::new("python").unwrap().language, Language::Python);
}

#[test]
fn missing_tree_is_a_parse_error() {
    assert_eq!(js().analyze_file(None, "x").unwrap_err(), EngineError::Parse);
}

#[test]
fn invalid_rule_is_refused_at_construction() {
    let good = Rule::call_callee_equals("a", "call", "identifier", "eval");
    let empty_fragment = Rule::string_substring_match("b", "string", vec!["SELECT".to_string(), String::new()]);
    let no_category = Rule::call_callee_equals("", "call", "identifier", "eval");
    assert!(good.is_valid());
    assert!(!empty_fragment.is_valid());
    assert!(!no_category.is_valid());
    assert_eq!(
        Catalog::new(vec![good.clone(), empty_fragment, no_category]).unwrap_err(),
        EngineError::RuleCompilation { index: 1 }
    );
    let reversed = Rule::string_charset_length_match("c", "string", "string_fragment", vec![ByteRange { lo: 9, hi: 3 }], 1);
    let catalog = Catalog::new(vec![good.clone()]).unwrap();
    assert_eq!(catalog.len(), 1);
    assert_eq!(catalog.append(reversed).unwrap_err(), EngineError::RuleCompilation { index: 1 });
    let no_ranges = Rule::string_charset_length_match("c", "string", "string_fragment", vec![], 1);
    assert!(!no_ranges.is_valid());
    let no_fragments = Rule::string_substring_match("b", "string", vec![]);
    assert!(!no_fragments.is_valid());
    let empty_name = Rule::call_callee_equals("a", "call", "identifier", "");
    assert!(!empty_name.is_valid());
    let no_kind = Rule::call_callee_equals("a", "call", "", "eval");
    assert!(!no_kind.is_valid());
    let no_target = Rule::call_callee_equals("a", "", "identifier", "eval");
    assert!(!no_target.is_valid());
}

#[test]
fn catalog_keeps_rules_in_order() {
    let first = Rule::call_callee_equals("a", "call", "identifier", "eval");
    let second = Rule::string_substring_match("b", "string", vec!["x".to_string()]);
    let catalog = Catalog::new(vec![first.clone()]).unwrap().append(second.clone()).unwrap();
    assert_eq!(catalog.rules(), &vec![first, second]);
    assert_eq!(Catalog::new(vec![]).unwrap().len(), 0);
}

#[test]
fn builtin_catalog_has_four_categories() {
    let catalog = Catalog::builtin(Language::JavaScript);
    let categories: Vec<&str> = catalog.rules().iter().map(|r| r.category.as_str()).collect();
    assert_eq!(
        categories,
        vec![
            "Insecure dynamic evaluation",
            "Potential injectable query",
            "Hardcoded secret",
            "Insecure randomness"
        ]
    );
    let python = Catalog::builtin(Language::Python);
    assert_eq!(python.rules()[0].target_kind, "call");
    assert_eq!(catalog.rules()[0].target_kind, "call_expression");
    assert_eq!(
        catalog.rules()[0].capture,
        Capture::Child { role: "function".to_string(), kind: "identifier".to_string() }
    );
    assert_eq!(catalog.rules()[0].predicate, Some(TextPredicate::Equals("eval".to_string())));
    assert_eq!(
        catalog.rules()[1].predicate,
        Some(TextPredicate::ContainsInOrder(vec!["SELECT".to_string(), "FROM".to_string(), "WHERE".to_string()]))
    );
    assert!(catalog.rules().iter().all(|r| r.is_valid()));
    assert!(python.rules().iter().all(|r| r.is_valid()));
}

#[test]
fn empty_catalog_reports_only_the_score() {
    let catalog = Catalog::new(vec![]).unwrap();
    let report = analyze(&eval_tree(), EVAL_SOURCE, &catalog, &Language::JavaScript.branching_kinds());
    assert_eq!(report, AnalysisReport { complexity: 19, matches: vec![], warnings: vec![] });
    let none: Vec<String> = vec![];
    assert_eq!(analyze(&eval_tree(), EVAL_SOURCE, &catalog, &none).complexity, 18);
}

#[test]
fn fragments_must_occur_in_order() {
    let frags = vec!["SELECT".to_string(), "FROM".to_string(), "WHERE".to_string()];
    assert!(contains_in_order(b"SELECT a FROM b WHERE c", &frags));
    assert!(contains_in_order(b"xxSELECTFROMWHERE", &frags));
    assert!(!contains_in_order(b"WHERE a FROM b SELECT c", &frags));
    assert!(!contains_in_order(b"select a from b where c", &frags));
    assert!(!contains_in_order(b"SELECT a FROM b", &frags));
    assert!(!contains_in_order(b"", &frags));
    // fragments may not overlap
    let twice = vec!["aba".to_string(), "ba".to_string()];
    assert!(!contains_in_order(b"aba", &twice));
    assert!(contains_in_order(b"ababa", &twice));
    assert!(contains_in_order(b"anything", &vec![]));
}

#[test]
fn byte_searches_give_leftmost_place() {
    assert_eq!(find_from(b"abcabc", b"bc", 0), Some(1));
    assert_eq!(find_from(b"abcabc", b"bc", 2), Some(4));
    assert_eq!(find_from(b"abcabc", b"bc", 5), None);
    assert_eq!(find_from(b"abc", b"", 3), Some(3));
    assert_eq!(find_from(b"abc", b"", 4), None);
    assert_eq!(find_from(b"abc", b"abcd", 0), None);
    assert!(matches_at(b"abc", b"bc", 1));
    assert!(!matches_at(b"abc", b"bc", 2));
    assert!(!matches_at(b"abc", b"bc", usize::MAX));
    assert!(bytes_equal(b"abc", b"abc"));
    assert!(!bytes_equal(b"abc", b"abd"));
    assert!(!bytes_equal(b"abc", b"ab"));
    assert_eq!(slice_bytes(b"abcdef", 2, 4), b"cd".to_vec());
    assert_eq!(slice_bytes(b"abcdef", 3, 3), Vec::<u8>::new());
}

#[test]
fn byte_ranges_are_inclusive() {
    let ranges = vec![ByteRange { lo: b'a', hi: b'c' }, ByteRange { lo: b'x', hi: b'x' }];
    assert!(byte_in_ranges(b'a', &ranges));
    assert!(byte_in_ranges(b'c', &ranges));
    assert!(byte_in_ranges(b'x', &ranges));
    assert!(!byte_in_ranges(b'd', &ranges));
    assert!(bytes_in_ranges(b"abcx", &ranges));
    assert!(!bytes_in_ranges(b"abcy", &ranges));
    assert!(bytes_in_ranges(b"", &ranges));
}

#[test]
fn predicates_judge_the_sliced_text() {
    assert!(accepts(&None, b"whatever"));
    let exact = Some(TextPredicate::Equals("eval".to_string()));
    assert!(accepts(&exact, b"eval"));
    assert!(!accepts(&exact, b"evaluate"));
    assert!(!accepts(&exact, b"Eval"));
    let charset = Some(TextPredicate::CharsetMinLen { ranges: vec![ByteRange { lo: b'0', hi: b'9' }], min_len: 3 });
    assert!(accepts(&charset, b"123"));
    assert!(!accepts(&charset, b"12"));
    assert!(!accepts(&charset, b"12a"));
}

#[test]
fn leaf_has_no_children_and_no_role() {
    let leaf = Node::leaf("identifier".to_string(), 1, 2, 3, 4);
    assert_eq!(leaf, node("identifier", "", 1, 2, 3, 4, vec![]));
}

#[test]
fn checked_score_agrees_with_score() {
    let kinds = Language::JavaScript.branching_kinds();
    assert_eq!(checked_score(&eval_tree(), &kinds), Some(19));
    assert_eq!(checked_score(&node("try_statement", "", 0, 0, 0, 0, vec![]), &kinds), Some(2));
    assert_eq!(checked_score(&eval_tree(), &kinds), Some(score(&eval_tree(), &kinds)));
}

#[test]
fn errors_say_what_went_wrong() {
    assert_eq!(EngineError::UnsupportedLanguage.message(), "Unsupported language");
    assert_eq!(EngineError::Parse.message(), "Parse failed");
    assert_eq!(EngineError::RuleCompilation { index: 2 }.message(), "Invalid rule");
}
