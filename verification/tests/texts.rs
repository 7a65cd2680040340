use pseudo_bnf::diagnostic::Diagnostic;
use pseudo_bnf::grammar::{Grammar, Rule, RuleAction, RuleType};
use pseudo_bnf::interpreter::parse_program;
use pseudo_bnf::loader::{load_grammar, parse_grammar_rule};
use pseudo_bnf::text::decimal;

fn grammar_of(lines: &[&str]) -> Grammar {
    let lines: Vec<String> = lines.iter().map(|line| line.to_string()).collect();
    load_grammar(&lines).expect("the grammar loads")
}

#[test]
fn numbers_in_decimal() {
    assert_eq!(decimal(0), "0");
    assert_eq!(decimal(7), "7");
    assert_eq!(decimal(10), "10");
    assert_eq!(decimal(1234567890), "1234567890");
    assert_eq!(decimal(usize::MAX), usize::MAX.to_string());
}

#[test]
fn actions_as_text() {
    assert_eq!(RuleAction::ConsumeToken("{".to_string()).to_text(), "ConsumeToken: \"{\"");
    assert_eq!(RuleAction::RuleName("<A>".to_string()).to_text(), "RuleName: <A>");
    assert_eq!(
        RuleAction::RepeatedRuleNameWithSeparator {
            rule_name: "<A>".to_string(),
            separator: ",".to_string()
        }
        .to_text(),
        "RepeatedRuleNameWithSeparator \",\"-separated sub-rule: <A>"
    );
    assert_eq!(RuleAction::Unknown("what?".to_string()).to_text(), "Unknown: what?");
}

#[test]
fn rules_as_text() {
    let name = Rule { rule_name: "<N>".to_string(), rule_type: RuleType::UserSpecifiedName };
    assert_eq!(name.to_text(), "rule: <N> read user-specified-name\n");
    let choice = parse_grammar_rule("<C> ::= <A> | <B>").unwrap();
    assert_eq!(choice.to_text(), "rule: <C> one of the following sub-rules:\n  <A>\n  <B>\n");
    let sequence = parse_grammar_rule("<S> ::= \"s\" <A> <B>*\";\" ?").unwrap();
    assert_eq!(
        sequence.to_text(),
        "rule: <S> action sequence:\n  ConsumeToken: \"s\"\n  RuleName: <A>\n  \
         RepeatedRuleNameWithSeparator \";\"-separated sub-rule: <B>\n  Unknown: ?\n"
    );
    let empty = parse_grammar_rule("<E> ::=").unwrap();
    assert_eq!(empty.to_text(), "rule: <E> action sequence:\n");
}

#[test]
fn grammar_as_text_goes_by_name() {
    let g = grammar_of(&["<B> ::= \"b\"", "<A> ::= <<USER-SPECIFIED-NAME>>"]);
    assert_eq!(
        g.to_text(),
        "rule: <A> read user-specified-name\nrule: <B> action sequence:\n  ConsumeToken: \"b\"\n"
    );
    assert_eq!(Grammar::new().to_text(), "");
}

#[test]
fn messages() {
    assert_eq!(
        Diagnostic::StructuralGrammarError { line: 12 }.message(),
        "GRAMMAR ERROR: fewer than two words on line 12"
    );
    assert_eq!(
        Diagnostic::MalformedProduction { raw: "x?".to_string() }.message(),
        "UNKNOWN ACTION! Unknown: x?"
    );
    assert_eq!(
        Diagnostic::UndefinedRuleReference { rule_name: "<A>".to_string() }.message(),
        "GRAMMAR ERROR: undefined rule <A>"
    );
    assert_eq!(
        Diagnostic::UndecidableStartPredicate { rule_name: "<A>".to_string() }.message(),
        "SYNTAX ERROR: check_if_can_start_rule at <A>, reason: the rule must be a \
         user-specified-name or begin by consuming a token"
    );
    assert_eq!(
        Diagnostic::AmbiguousChoice { rule_name: "<A>".to_string(), matches: 20 }.message(),
        "SYNTAX ERROR: rule-choice syntax error at <A>, reason: must match exactly 1 sub-rule, \
         but matched 20"
    );
    assert_eq!(
        Diagnostic::LiteralMismatch { expected: "{".to_string(), found: Some("}".to_string()) }
            .message(),
        "SYNTAX ERROR: expected \"{\" but found \"}\"!"
    );
    assert_eq!(
        Diagnostic::LiteralMismatch { expected: "{".to_string(), found: None }.message(),
        "SYNTAX ERROR: expected \"{\" but found the end of the input!"
    );
    assert_eq!(
        Diagnostic::MalformedUserName { rule_name: "<N>".to_string(), found: Some("n".to_string()) }
            .message(),
        "SYNTAX ERROR: invalid user-specified-name for <N> at \"n\""
    );
    assert_eq!(Diagnostic::NestingTooDeep.message(), "SYNTAX ERROR: rules are nested too deep");
}

#[test]
fn diagnostics_are_copied_whole() {
    let d = Diagnostic::LiteralMismatch { expected: "a".to_string(), found: Some("b".to_string()) };
    assert_eq!(d.clone().message(), d.message());
    let d = Diagnostic::AmbiguousChoice { rule_name: "<A>".to_string(), matches: 3 };
    assert_eq!(d.clone().message(), d.message());
}

#[test]
fn trees_as_text() {
    let g = grammar_of(&[
        "<<START>> ::= \"(\" <N>*\",\" <C> \")\"",
        "<N> ::= <<USER-SPECIFIED-NAME>>",
        "<C> ::= <N> | <N>",
    ]);
    let parsed = parse_program(&g, "( A , B x )").unwrap();
    assert_eq!(
        parsed.tree.to_text(),
        "RuleActionSequence <<START>> [UserSpecifiedName <N> = \"A\", \
         UserSpecifiedName <N> = \"B\", Error <C>: SYNTAX ERROR: rule-choice syntax error at <C>, \
         reason: must match exactly 1 sub-rule, but matched 0]"
    );
    let g = grammar_of(&["<<START>> ::= \"a\""]);
    let parsed = parse_program(&g, "a").unwrap();
    assert_eq!(parsed.tree.to_text(), "RuleActionSequence <<START>> []");
}
