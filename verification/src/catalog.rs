//! The ordered catalog of rules, and the built-in rules of each grammar.

use vstd::prelude::*;
use crate::rule::{
    EngineError, Rule, is_call_callee_equals, is_string_charset_length_match,
    is_string_substring_match, rule_valid,
};
use crate::text::ByteRange;

verus! {

/// The grammars that have a rule dialect.
#[derive(Debug, Clone, Copy, PartialEq, Eq)]
pub enum Language {
    Python,
    JavaScript,
}

/// The kind of a call in the grammar.
pub open spec fn call_kind(lang: Language) -> Seq<char> {
    match lang {
        Language::Python => "call"@,
        Language::JavaScript => "call_expression"@,
    }
}

/// The kind of the text inside a string literal in the grammar.
pub open spec fn string_content_kind(lang: Language) -> Seq<char> {
    match lang {
        Language::Python => "string_content"@,
        Language::JavaScript => "string_fragment"@,
    }
}

/// The kind of a dotted callee in the grammar.
pub open spec fn dotted_callee_kind(lang: Language) -> Seq<char> {
    match lang {
        Language::Python => "attribute"@,
        Language::JavaScript => "member_expression"@,
    }
}

/// The weak source of random numbers that the dialect knows.
pub open spec fn weak_random_name(lang: Language) -> Seq<char> {
    match lang {
        Language::Python => "random.random"@,
        Language::JavaScript => "Math.random"@,
    }
}

/// The kind of a multi-way branch in the grammar.
pub open spec fn switch_kind(lang: Language) -> Seq<char> {
    match lang {
        Language::Python => "match_statement"@,
        Language::JavaScript => "switch_statement"@,
    }
}

/// The byte ranges of the base64 alphabet, padding included.
pub open spec fn base64_ranges() -> Seq<ByteRange> {
    seq![
        ByteRange { lo: 65, hi: 90 },
        ByteRange { lo: 97, hi: 122 },
        ByteRange { lo: 48, hi: 57 },
        ByteRange { lo: 43, hi: 43 },
        ByteRange { lo: 47, hi: 47 },
        ByteRange { lo: 61, hi: 61 },
    ]
}

/// The grammar that goes by `tag`, if there is one.
pub open spec fn language_of_tag(tag: Seq<char>) -> Option<Language> {
    if tag == "python"@ {
        Some(Language::Python)
    } else if tag == "javascript"@ {
        Some(Language::JavaScript)
    } else {
        None
    }
}

/// Whether `kinds` are the branching kinds of `lang`: conditional, the two
/// loops, multi-way branch and exception handling.
pub open spec fn is_branching_kinds(kinds: Seq<String>, lang: Language) -> bool {
    &&& kinds.len() == 5
    &&& kinds[0]@ == "if_statement"@
    &&& kinds[1]@ == "for_statement"@
    &&& kinds[2]@ == "while_statement"@
    &&& kinds[3]@ == switch_kind(lang)
    &&& kinds[4]@ == "try_statement"@
}

/// Whether `rules` are the built-in rules of `lang`: dynamic evaluation,
/// injectable queries, hardcoded secrets and weak randomness, in this order.
pub open spec fn is_builtin(rules: Seq<Rule>, lang: Language) -> bool {
    &&& rules.len() == 4
    &&& is_call_callee_equals(
        rules[0],
        "Insecure dynamic evaluation"@,
        call_kind(lang),
        "identifier"@,
        "eval"@,
    )
    &&& is_string_substring_match(
        rules[1],
        "Potential injectable query"@,
        "string"@,
        seq!["SELECT"@, "FROM"@, "WHERE"@],
    )
    &&& is_string_charset_length_match(
        rules[2],
        "Hardcoded secret"@,
        "string"@,
        string_content_kind(lang),
        base64_ranges(),
        40,
    )
    &&& is_call_callee_equals(
        rules[3],
        "Insecure randomness"@,
        call_kind(lang),
        dotted_callee_kind(lang),
        weak_random_name(lang),
    )
}

impl Language {
    /// The grammar that goes by `tag`: `python` or `javascript`.
    pub fn from_tag(tag: &str) -> (r: Result<Language, EngineError>)
        ensures
            r == match language_of_tag(tag@) {
                Some(lang) => Ok::<Language, EngineError>(lang),
                None => Err(EngineError::UnsupportedLanguage),
            },
    {
        let owned = tag.to_owned();
        if owned == "python".to_owned() {
            Ok(Language::Python)
        } else if owned == "javascript".to_owned() {
            Ok(Language::JavaScript)
        } else {
            Err(EngineError::UnsupportedLanguage)
        }
    }

    /// The branching kinds of the grammar: conditional, the two loops,
    /// multi-way branch and exception handling.
    pub fn branching_kinds(self) -> (kinds: Vec<String>)
        ensures
            is_branching_kinds(kinds@, self),
    {
        let mut kinds: Vec<String> = Vec::new();
        kinds.push("if_statement".to_owned());
        kinds.push("for_statement".to_owned());
        kinds.push("while_statement".to_owned());
        match self {
            Language::Python => kinds.push("match_statement".to_owned()),
            Language::JavaScript => kinds.push("switch_statement".to_owned()),
        }
        kinds.push("try_statement".to_owned());
        kinds
    }
}

/// An ordered list of rules, every one of them valid.
#[derive(Debug)]
pub struct Catalog {
    rules: Vec<Rule>,
}

impl View for Catalog {
    type V = Seq<Rule>;

    closed spec fn view(&self) -> Seq<Rule> {
        self.rules@
    }
}

impl Catalog {
    #[verifier::type_invariant]
    spec fn all_valid(self) -> bool {
        forall|i: int| 0 <= i < self.rules@.len() ==> rule_valid(#[trigger] self.rules@[i])
    }

    /// A catalog of `rules`, in their order. Where a rule is not valid, the
    /// first such rule is named and no catalog is made.
    pub fn new(rules: Vec<Rule>) -> (r: Result<Catalog, EngineError>)
        ensures
            match r {
                Ok(c) => c@ == rules@ && forall|i: int|
                    0 <= i < rules@.len() ==> rule_valid(#[trigger] rules@[i]),
                Err(e) => exists|k: int|
                    0 <= k < rules@.len() && e == (EngineError::RuleCompilation { index: k as usize })
                        && !rule_valid(#[trigger] rules@[k]) && forall|j: int|
                        0 <= j < k ==> rule_valid(#[trigger] rules@[j]),
            },
    {
        let mut i: usize = 0;
        while i < rules.len()
            invariant
                i <= rules.len(),
                forall|j: int| 0 <= j < i ==> rule_valid(#[trigger] rules@[j]),
            decreases rules.len() - i,
        {
            if !rules[i].is_valid() {
                return Err(EngineError::RuleCompilation { index: i });
            }
            i += 1;
        }
        Ok(Catalog { rules })
    }

    /// The rules, in catalog order.
    pub fn rules(&self) -> (rules: &Vec<Rule>)
        ensures
            rules@ == self@,
            forall|i: int| 0 <= i < rules@.len() ==> rule_valid(#[trigger] rules@[i]),
    {
        proof {
            use_type_invariant(self);
        }
        &self.rules
    }

    /// The number of rules.
    pub fn len(&self) -> (n: usize)
        ensures
            n == self@.len(),
    {
        self.rules.len()
    }

    /// The catalog with `rule` added at its end, if `rule` is valid.
    pub fn append(self, rule: Rule) -> (r: Result<Catalog, EngineError>)
        ensures
            match r {
                Ok(c) => rule_valid(rule) && c@ == self@.push(rule),
                Err(e) => !rule_valid(rule) && e == (EngineError::RuleCompilation {
                    index: self@.len() as usize,
                }),
            },
    {
        proof {
            use_type_invariant(&self);
        }
        if !rule.is_valid() {
            return Err(EngineError::RuleCompilation { index: self.rules.len() });
        }
        let mut rules = self.rules;
        rules.push(rule);
        Ok(Catalog { rules })
    }

    /// The built-in rules of `lang`: dynamic evaluation, injectable queries,
    /// hardcoded secrets and weak randomness, in this order.
    pub fn builtin(lang: Language) -> (c: Catalog)
        ensures
            is_builtin(c@, lang),
    {
        proof {
            reveal_strlit("Insecure dynamic evaluation");
            reveal_strlit("Potential injectable query");
            reveal_strlit("Hardcoded secret");
            reveal_strlit("Insecure randomness");
            reveal_strlit("call");
            reveal_strlit("call_expression");
            reveal_strlit("identifier");
            reveal_strlit("eval");
            reveal_strlit("string");
            reveal_strlit("string_content");
            reveal_strlit("string_fragment");
            reveal_strlit("attribute");
            reveal_strlit("member_expression");
            reveal_strlit("random.random");
            reveal_strlit("Math.random");
            reveal_strlit("SELECT");
            reveal_strlit("FROM");
            reveal_strlit("WHERE");
        }
        let (call, content, dotted, random) = match lang {
            Language::Python => ("call", "string_content", "attribute", "random.random"),
            Language::JavaScript => ("call_expression", "string_fragment", "member_expression", "Math.random"),
        };
        let mut fragments: Vec<String> = Vec::new();
        fragments.push("SELECT".to_owned());
        fragments.push("FROM".to_owned());
        fragments.push("WHERE".to_owned());
        assert(Seq::new(fragments@.len(), |i: int| fragments@[i]@) =~= seq!["SELECT"@, "FROM"@, "WHERE"@]);
        let mut ranges: Vec<ByteRange> = Vec::new();
        ranges.push(ByteRange { lo: 65, hi: 90 });
        ranges.push(ByteRange { lo: 97, hi: 122 });
        ranges.push(ByteRange { lo: 48, hi: 57 });
        ranges.push(ByteRange { lo: 43, hi: 43 });
        ranges.push(ByteRange { lo: 47, hi: 47 });
        ranges.push(ByteRange { lo: 61, hi: 61 });
        assert(ranges@ =~= base64_ranges());
        let evaluation = Rule::call_callee_equals("Insecure dynamic evaluation", call, "identifier", "eval");
        let query = Rule::string_substring_match("Potential injectable query", "string", fragments);
        let secret = Rule::string_charset_length_match("Hardcoded secret", "string", content, ranges, 40);
        let randomness = Rule::call_callee_equals("Insecure randomness", call, dotted, random);
        assert(rule_valid(evaluation));
        assert(rule_valid(query));
        assert(rule_valid(secret));
        assert(rule_valid(randomness));
        let mut rules: Vec<Rule> = Vec::new();
        rules.push(evaluation);
        rules.push(query);
        rules.push(secret);
        rules.push(randomness);
        Catalog { rules }
    }
}

} // verus!
