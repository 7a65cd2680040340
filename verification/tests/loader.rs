use pseudo_bnf::grammar::{RuleAction, RuleType};
use pseudo_bnf::loader::{action_from_token, parse_grammar_rule};

#[test]
fn quoted_token_is_a_literal() {
    match action_from_token("\"new-type\"") {
        RuleAction::ConsumeToken(text) => assert_eq!(text, "new-type"),
        other => panic!("unexpected action {:?}", other),
    }
}

#[test]
fn short_line_is_refused() {
    assert!(parse_grammar_rule("<A>").is_none());
    assert!(parse_grammar_rule("").is_none());
}

#[test]
fn two_words_make_an_empty_sequence() {
    let rule = parse_grammar_rule("<A> ::=").unwrap();
    assert_eq!(rule.rule_name, "<A>");
    match rule.rule_type {
        RuleType::Actions(actions) => assert!(actions.is_empty()),
        other => panic!("unexpected production {:?}", other),
    }
}

#[test]
fn rule_name_token_is_a_reference() {
    match action_from_token("<TYPE-NAME>") {
        RuleAction::RuleName(name) => assert_eq!(name, "<TYPE-NAME>"),
        other => panic!("unexpected action {:?}", other),
    }
    match action_from_token("<->") {
        RuleAction::RuleName(name) => assert_eq!(name, "<->"),
        other => panic!("unexpected action {:?}", other),
    }
}

#[test]
fn starred_token_is_a_repetition() {
    match action_from_token("<FIELD>*\",\"") {
        RuleAction::RepeatedRuleNameWithSeparator { rule_name, separator } => {
            assert_eq!(rule_name, "<FIELD>");
            assert_eq!(separator, ",");
        }
        other => panic!("unexpected action {:?}", other),
    }
    match action_from_token("<A>*\"\"\"") {
        RuleAction::RepeatedRuleNameWithSeparator { rule_name, separator } => {
            assert_eq!(rule_name, "<A>");
            assert_eq!(separator, "\"");
        }
        other => panic!("unexpected action {:?}", other),
    }
    match action_from_token("<A>*\"\u{e9}\"") {
        RuleAction::RepeatedRuleNameWithSeparator { separator, .. } => {
            assert_eq!(separator, "\u{e9}")
        }
        other => panic!("unexpected action {:?}", other),
    }
}

#[test]
fn other_tokens_are_malformed() {
    for token in [
        "\"\"", "\"", "\"a\"b\"", "a\"b\"", "<>", "<a>", "<A", "A>", "<A>x", "<A1>", "<A>*\",,\"",
        "<A>*\"\"", "<A>*,", "<a>*\",\"", "<A>*\"\n\"", "new-type", "<<START>>", "|",
    ] {
        match action_from_token(token) {
            RuleAction::Unknown(raw) => assert_eq!(raw, token),
            other => panic!("unexpected action {:?} for {:?}", other, token),
        }
    }
}

#[test]
fn quoted_text_may_hold_anything_but_a_quote() {
    match action_from_token("\"a b\n<c>\"") {
        RuleAction::ConsumeToken(text) => assert_eq!(text, "a b\n<c>"),
        other => panic!("unexpected action {:?}", other),
    }
}

#[test]
fn marker_alone_is_a_user_specified_name() {
    let rule = parse_grammar_rule("<N> ::= <<USER-SPECIFIED-NAME>>").unwrap();
    assert!(matches!(rule.rule_type, RuleType::UserSpecifiedName));
    let rule = parse_grammar_rule("<N> ::= <<USER-SPECIFIED-NAME>> <<USER-SPECIFIED-NAME>>").unwrap();
    match rule.rule_type {
        RuleType::Actions(actions) => {
            assert_eq!(actions.len(), 2);
            assert!(matches!(actions[0], RuleAction::Unknown(_)));
        }
        other => panic!("unexpected production {:?}", other),
    }
}

#[test]
fn bar_makes_a_choice() {
    let rule = parse_grammar_rule("<C> anything <A> | <B> | \"c\"").unwrap();
    assert_eq!(rule.rule_name, "<C>");
    match rule.rule_type {
        RuleType::RuleChoice(names) => assert_eq!(names, vec!["<A>", "<B>", "\"c\""]),
        other => panic!("unexpected production {:?}", other),
    }
    let rule = parse_grammar_rule("<C> ::= |").unwrap();
    match rule.rule_type {
        RuleType::RuleChoice(names) => assert!(names.is_empty()),
        other => panic!("unexpected production {:?}", other),
    }
}

#[test]
fn sequence_keeps_the_order() {
    let rule = parse_grammar_rule("  <S>\t::=  \"a\"   <B>  <C>*\";\"  d ").unwrap();
    match rule.rule_type {
        RuleType::Actions(actions) => {
            assert_eq!(actions.len(), 4);
            assert!(matches!(&actions[0], RuleAction::ConsumeToken(t) if t == "a"));
            assert!(matches!(&actions[1], RuleAction::RuleName(n) if n == "<B>"));
            assert!(matches!(
                &actions[2],
                RuleAction::RepeatedRuleNameWithSeparator { rule_name, separator }
                    if rule_name == "<C>" && separator == ";"
            ));
            assert!(matches!(&actions[3], RuleAction::Unknown(t) if t == "d"));
        }
        other => panic!("unexpected production {:?}", other),
    }
}
