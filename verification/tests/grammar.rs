use pseudo_bnf::diagnostic::Diagnostic;
use pseudo_bnf::grammar::{Grammar, Rule, RuleAction, RuleType};
use pseudo_bnf::loader::load_grammar;
use pseudo_bnf::oracle::check_if_can_start_rule;

fn lines(lines: &[&str]) -> Vec<String> {
    lines.iter().map(|line| line.to_string()).collect()
}

fn literal_rule(name: &str, literal: &str) -> Rule {
    Rule {
        rule_name: name.to_string(),
        rule_type: RuleType::Actions(vec![RuleAction::ConsumeToken(literal.to_string())]),
    }
}

#[test]
fn new_grammar_is_empty() {
    let g = Grammar::new();
    assert_eq!(g.len(), 0);
    assert!(!g.contains("<A>"));
    assert!(g.get("<A>").is_none());
    assert!(g.undefined_reference().is_none());
}

#[test]
fn names_are_kept_in_increasing_order() {
    let mut g = Grammar::new();
    for name in ["<M>", "<B>", "<Z>", "<<A>>", "<BA>", "<A>"] {
        g.insert(literal_rule(name, "x"));
    }
    assert_eq!(g.len(), 6);
    let names: Vec<&str> = (0..g.len()).map(|i| g.rule_name_at(i).as_str()).collect();
    assert_eq!(names, vec!["<<A>>", "<A>", "<B>", "<BA>", "<M>", "<Z>"]);
}

#[test]
fn later_rule_replaces_earlier_rule_of_the_same_name() {
    let mut g = Grammar::new();
    g.insert(literal_rule("<A>", "first"));
    g.insert(literal_rule("<B>", "other"));
    g.insert(literal_rule("<A>", "second"));
    assert_eq!(g.len(), 2);
    match &g.get("<A>").unwrap().rule_type {
        RuleType::Actions(actions) => {
            assert!(matches!(&actions[0], RuleAction::ConsumeToken(t) if t == "second"))
        }
        other => panic!("unexpected production {:?}", other),
    }
    let loaded = load_grammar(&lines(&["<A> ::= \"first\"", "<A> ::= \"second\" \"third\""])).unwrap();
    assert_eq!(loaded.len(), 1);
    match &loaded.get("<A>").unwrap().rule_type {
        RuleType::Actions(actions) => assert_eq!(actions.len(), 2),
        other => panic!("unexpected production {:?}", other),
    }
}

#[test]
fn short_line_makes_the_grammar_unusable() {
    match load_grammar(&lines(&["<A> ::= \"a\"", "<B> ::= \"b\"", "<C>", "<D>"])) {
        Err(Diagnostic::StructuralGrammarError { line }) => assert_eq!(line, 2),
        other => panic!("unexpected result {:?}", other.map(|g| g.len())),
    }
    match load_grammar(&lines(&["", "<A> ::= \"a\""])) {
        Err(Diagnostic::StructuralGrammarError { line }) => assert_eq!(line, 0),
        other => panic!("unexpected result {:?}", other.map(|g| g.len())),
    }
    assert_eq!(load_grammar(&lines(&[])).unwrap().len(), 0);
}

#[test]
fn first_undefined_reference_is_found() {
    let g = load_grammar(&lines(&[
        "<B> ::= \"b\" <MISSING-B> <MISSING-C>*\",\"",
        "<A> ::= <B> | <MISSING-A>",
        "<C> ::= <A> <B>",
    ]))
    .unwrap();
    assert_eq!(g.undefined_reference().unwrap(), "<MISSING-A>");
    let g = load_grammar(&lines(&["<B> ::= \"b\" <A> <MISSING-B> <MISSING-C>*\",\"", "<A> ::= \"a\""]))
        .unwrap();
    assert_eq!(g.undefined_reference().unwrap(), "<MISSING-B>");
    let g = load_grammar(&lines(&["<B> ::= \"b\" <A> <MISSING-C>*\",\"", "<A> ::= \"a\""])).unwrap();
    assert_eq!(g.undefined_reference().unwrap(), "<MISSING-C>");
    let g = load_grammar(&lines(&["<B> ::= \"b\" <A> <A>*\",\"", "<A> ::= <B> | <A>"])).unwrap();
    assert!(g.undefined_reference().is_none());
}

#[test]
fn start_predicate() {
    let g = load_grammar(&lines(&[
        "<S> ::= \"structure\" <N>",
        "<N> ::= <<USER-SPECIFIED-NAME>>",
        "<C> ::= <S> | <N>",
        "<R> ::= <N> \"x\"",
        "<E> ::=",
        "<U> ::= ? \"x\"",
        "<L> ::= <N>*\",\"",
    ]))
    .unwrap();
    assert!(check_if_can_start_rule(&g, "<S>", "structure").unwrap());
    assert!(!check_if_can_start_rule(&g, "<S>", "Structure").unwrap());
    assert!(!check_if_can_start_rule(&g, "<S>", "").unwrap());
    assert!(check_if_can_start_rule(&g, "<N>", "Name").unwrap());
    assert!(check_if_can_start_rule(&g, "<N>", "N-a-M-e").unwrap());
    assert!(!check_if_can_start_rule(&g, "<N>", "name").unwrap());
    assert!(!check_if_can_start_rule(&g, "<N>", "Name2").unwrap());
    assert!(!check_if_can_start_rule(&g, "<N>", "\u{c9}cole").unwrap());
    for undecidable in ["<C>", "<R>", "<E>", "<U>", "<L>"] {
        match check_if_can_start_rule(&g, undecidable, "structure") {
            Err(Diagnostic::UndecidableStartPredicate { rule_name }) => {
                assert_eq!(rule_name, undecidable)
            }
            other => panic!("unexpected verdict {:?}", other),
        }
    }
    match check_if_can_start_rule(&g, "<X>", "structure") {
        Err(Diagnostic::UndefinedRuleReference { rule_name }) => assert_eq!(rule_name, "<X>"),
        other => panic!("unexpected verdict {:?}", other),
    }
}

#[test]
fn names_are_ordered_by_code_point() {
    let mut g = Grammar::new();
    for name in ["z", "\u{e9}", "Z", "za", "\u{1F600}", "\u{FFFD}", "a\u{e9}", "az"] {
        g.insert(literal_rule(name, "x"));
    }
    let names: Vec<&str> = (0..g.len()).map(|i| g.rule_name_at(i).as_str()).collect();
    assert_eq!(
        names,
        vec!["Z", "az", "a\u{e9}", "z", "za", "\u{e9}", "\u{FFFD}", "\u{1F600}"]
    );
}
