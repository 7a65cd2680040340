use pseudo_bnf::diagnostic::Diagnostic;
use pseudo_bnf::grammar::Grammar;
use pseudo_bnf::interpreter::{
    parse_program, run_grammar, run_grammar_within, run_program, sufficient_depth,
};
use pseudo_bnf::loader::load_grammar;
use pseudo_bnf::production::RuleProduction;

fn grammar_of(lines: &[&str]) -> Grammar {
    let lines: Vec<String> = lines.iter().map(|line| line.to_string()).collect();
    load_grammar(&lines).expect("the grammar loads")
}

fn type_grammar() -> Grammar {
    grammar_of(&[
        "<<START>> ::= <NEW-TYPE>*\";\"",
        "<NEW-TYPE> ::= \"new-type\" <TYPE-NAME> <TYPE-DEFINITION>",
        "<TYPE-DEFINITION> ::= <STRUCTURE> | <ENUMERATION>",
        "<STRUCTURE> ::= \"structure\" \"{\" <STRUCTURE-FIELD-NAME>*\",\" \"}\"",
        "<ENUMERATION> ::= \"enumeration\" \"[\" <ENUMERATION-ALTERNATIVE-NAME>*\"|\" \"]\"",
        "<TYPE-NAME> ::= <<USER-SPECIFIED-NAME>>",
        "<STRUCTURE-FIELD-NAME> ::= <<USER-SPECIFIED-NAME>>",
        "<ENUMERATION-ALTERNATIVE-NAME> ::= <<USER-SPECIFIED-NAME>>",
    ])
}

fn render(node: &RuleProduction) -> String {
    match node {
        RuleProduction::RuleActionSequence { rule_name, actions } => {
            let children: Vec<String> = actions.iter().map(render).collect();
            format!("Sequence({}, [{}])", rule_name, children.join(", "))
        }
        RuleProduction::UserSpecifiedName { rule_name, user_specified_name } => {
            format!("Leaf({}, {})", rule_name, user_specified_name)
        }
        RuleProduction::Error { rule_name, .. } => format!("Error({})", rule_name),
    }
}

#[test]
fn structure_with_two_fields() {
    let g = type_grammar();
    let report = parse_program(&g, "new-type Player structure { Class , Stats }").unwrap();
    assert_eq!(
        render(&report.tree),
        "Sequence(<<START>>, [Sequence(<NEW-TYPE>, [Leaf(<TYPE-NAME>, Player), \
         Sequence(<STRUCTURE>, [Leaf(<STRUCTURE-FIELD-NAME>, Class), \
         Leaf(<STRUCTURE-FIELD-NAME>, Stats)])])])"
    );
    assert_eq!(report.residual, vec!["<<EOF>>"]);
    assert!(report.well_formed());
    assert!(report.diagnostics.is_empty());
}

#[test]
fn lower_case_field_names_are_not_names() {
    let g = type_grammar();
    let report = parse_program(&g, "new-type Player structure { class , stats }").unwrap();
    assert_eq!(
        render(&report.tree),
        "Sequence(<<START>>, [Sequence(<NEW-TYPE>, [Leaf(<TYPE-NAME>, Player), \
         Sequence(<STRUCTURE>, [Error(<STRUCTURE-FIELD-NAME>)])])])"
    );
    assert_eq!(report.residual, vec!["class", ",", "stats", "}", "<<EOF>>"]);
    assert!(!report.well_formed());
    assert_eq!(report.diagnostics.len(), 2);
    match &report.diagnostics[0] {
        Diagnostic::MalformedUserName { rule_name, found } => {
            assert_eq!(rule_name, "<STRUCTURE-FIELD-NAME>");
            assert_eq!(found.as_deref(), Some("class"));
        }
        other => panic!("unexpected diagnostic {:?}", other),
    }
    match &report.diagnostics[1] {
        Diagnostic::LiteralMismatch { expected, found } => {
            assert_eq!(expected, "}");
            assert_eq!(found.as_deref(), Some("class"));
        }
        other => panic!("unexpected diagnostic {:?}", other),
    }
}

#[test]
fn rerun_gives_the_same_tree() {
    let g = type_grammar();
    let source = "new-type A structure { B } ; new-type C enumeration [ D | E ]";
    let first = parse_program(&g, source).unwrap();
    let second = parse_program(&g, source).unwrap();
    assert!(first.well_formed());
    assert_eq!(render(&first.tree), render(&second.tree));
    assert_eq!(first.residual, second.residual);
    let mut tokens: Vec<&str> = source.split_whitespace().collect();
    tokens.push("<<EOF>>");
    let shallow = run_grammar_within(&g, &mut tokens.clone(), 5).unwrap();
    let deep = run_grammar_within(&g, &mut tokens.clone(), 5000).unwrap();
    assert_eq!(render(&shallow.tree), render(&first.tree));
    assert_eq!(render(&deep.tree), render(&first.tree));
    assert!(matches!(
        run_grammar_within(&g, &mut tokens.clone(), 4),
        Err(Diagnostic::NestingTooDeep)
    ));
}

#[test]
fn choice_with_two_starting_alternatives_is_an_error() {
    let g = grammar_of(&[
        "<<START>> ::= <ONE> | <OTHER>",
        "<ONE> ::= \"x\" \"a\"",
        "<OTHER> ::= \"x\" \"b\"",
    ]);
    let report = parse_program(&g, "x a").unwrap();
    match &report.tree {
        RuleProduction::Error { rule_name, diagnostic } => {
            assert_eq!(rule_name, "<<START>>");
            match diagnostic {
                Diagnostic::AmbiguousChoice { rule_name, matches } => {
                    assert_eq!(rule_name, "<<START>>");
                    assert_eq!(*matches, 2);
                }
                other => panic!("unexpected diagnostic {:?}", other),
            }
        }
        other => panic!("unexpected tree {:?}", other),
    }
    assert_eq!(report.residual, vec!["x", "a", "<<EOF>>"]);
}

#[test]
fn choice_with_no_starting_alternative_is_an_error() {
    let g = grammar_of(&[
        "<<START>> ::= <ONE> | <OTHER>",
        "<ONE> ::= \"x\"",
        "<OTHER> ::= \"y\"",
    ]);
    let report = parse_program(&g, "z").unwrap();
    match &report.tree {
        RuleProduction::Error { diagnostic: Diagnostic::AmbiguousChoice { matches, .. }, .. } => {
            assert_eq!(*matches, 0)
        }
        other => panic!("unexpected tree {:?}", other),
    }
}

#[test]
fn repetition_without_separator_reads_once() {
    let g = grammar_of(&["<<START>> ::= <A>*\",\"", "<A> ::= <<USER-SPECIFIED-NAME>>"]);
    let report = parse_program(&g, "One Two").unwrap();
    assert_eq!(render(&report.tree), "Sequence(<<START>>, [Leaf(<A>, One)])");
    assert_eq!(report.residual, vec!["Two", "<<EOF>>"]);
    assert!(report.diagnostics.is_empty());
}

#[test]
fn dangling_separator_is_dropped() {
    let g = grammar_of(&["<<START>> ::= <A>*\",\"", "<A> ::= <<USER-SPECIFIED-NAME>>"]);
    let report = parse_program(&g, "One , Two , three").unwrap();
    assert_eq!(render(&report.tree), "Sequence(<<START>>, [Leaf(<A>, One), Leaf(<A>, Two)])");
    assert_eq!(report.residual, vec!["three", "<<EOF>>"]);
    assert!(report.diagnostics.is_empty());
    assert!(!report.residual.contains(&","));
}

#[test]
fn separator_before_the_end_marker_is_dropped() {
    let g = grammar_of(&["<<START>> ::= <A>*\",\"", "<A> ::= <<USER-SPECIFIED-NAME>>"]);
    let report = parse_program(&g, "One ,").unwrap();
    assert_eq!(render(&report.tree), "Sequence(<<START>>, [Leaf(<A>, One)])");
    assert!(report.well_formed());
}

#[test]
fn mismatch_does_not_stop_the_sequence() {
    let g = grammar_of(&["<<START>> ::= \"a\" \"b\" <N> \"c\"", "<N> ::= <<USER-SPECIFIED-NAME>>"]);
    let report = parse_program(&g, "b Name c").unwrap();
    assert_eq!(render(&report.tree), "Sequence(<<START>>, [Leaf(<N>, Name)])");
    assert!(report.well_formed());
    assert_eq!(report.diagnostics.len(), 1);
    match &report.diagnostics[0] {
        Diagnostic::LiteralMismatch { expected, found } => {
            assert_eq!(expected, "a");
            assert_eq!(found.as_deref(), Some("b"));
        }
        other => panic!("unexpected diagnostic {:?}", other),
    }
}

#[test]
fn undefined_reference_ends_the_run() {
    let g = grammar_of(&[
        "<<START>> ::= \"a\"",
        "<NEVER-USED> ::= \"b\" <DOES-NOT-EXIST>",
    ]);
    match parse_program(&g, "a") {
        Err(Diagnostic::UndefinedRuleReference { rule_name }) => {
            assert_eq!(rule_name, "<DOES-NOT-EXIST>")
        }
        other => panic!("unexpected result {:?}", other),
    }
}

#[test]
fn undefined_alternative_ends_the_run() {
    let g = grammar_of(&["<<START>> ::= <A> | <B>", "<A> ::= \"a\""]);
    match parse_program(&g, "a") {
        Err(Diagnostic::UndefinedRuleReference { rule_name }) => assert_eq!(rule_name, "<B>"),
        other => panic!("unexpected result {:?}", other),
    }
}

#[test]
fn missing_start_rule_ends_the_run() {
    let g = grammar_of(&["<A> ::= \"a\""]);
    match parse_program(&g, "a") {
        Err(Diagnostic::UndefinedRuleReference { rule_name }) => assert_eq!(rule_name, "<<START>>"),
        other => panic!("unexpected result {:?}", other),
    }
}

#[test]
fn rules_that_invoke_each_other_without_end_are_given_up() {
    let g = grammar_of(&["<<START>> ::= <A>", "<A> ::= \"(\" <A>"]);
    match parse_program(&g, "( ( (") {
        Err(Diagnostic::NestingTooDeep) => {}
        other => panic!("unexpected result {:?}", other),
    }
    let g = grammar_of(&["<<START>> ::= <A>", "<A> ::= <B>", "<B> ::= \"x\" <A>"]);
    assert!(matches!(parse_program(&g, "x x y"), Err(Diagnostic::NestingTooDeep)));
}

#[test]
fn rules_that_invoke_each_other_behind_a_literal_end() {
    let g = grammar_of(&[
        "<<START>> ::= <A>",
        "<A> ::= <OPEN> | <NAME>",
        "<OPEN> ::= \"(\" <A> \")\"",
        "<NAME> ::= <<USER-SPECIFIED-NAME>>",
    ]);
    let parsed = parse_program(&g, "( ( ( Name ) ) )").unwrap();
    assert!(parsed.well_formed());
    assert!(parsed.diagnostics.is_empty());
    assert_eq!(
        render(&parsed.tree),
        "Sequence(<<START>>, [Sequence(<OPEN>, [Sequence(<OPEN>, [Sequence(<OPEN>, \
         [Leaf(<NAME>, Name)])])])])"
    );
}

#[test]
fn nesting_deeper_than_allowed_ends_the_run() {
    let g = grammar_of(&["<<START>> ::= <A>", "<A> ::= <<USER-SPECIFIED-NAME>>"]);
    let run = |depth: usize| {
        let mut tokens = vec!["Name", "<<EOF>>"];
        run_grammar_within(&g, &mut tokens, depth).map(|done| render(&done.tree))
    };
    assert_eq!(run(2).unwrap(), "Sequence(<<START>>, [Leaf(<A>, Name)])");
    assert_eq!(run(3).unwrap(), "Sequence(<<START>>, [Leaf(<A>, Name)])");
    assert!(matches!(run(1), Err(Diagnostic::NestingTooDeep)));
    assert!(matches!(run(0), Err(Diagnostic::NestingTooDeep)));
}

#[test]
fn sufficient_depth_counts_rules_and_tokens() {
    let g = grammar_of(&["<<START>> ::= <A>", "<A> ::= <<USER-SPECIFIED-NAME>>"]);
    assert_eq!(sufficient_depth(&g, 0), 2);
    assert_eq!(sufficient_depth(&g, 4), 10);
    assert_eq!(sufficient_depth(&g, usize::MAX), usize::MAX);
    assert_eq!(sufficient_depth(&g, usize::MAX / 2), usize::MAX);
    assert_eq!(sufficient_depth(&Grammar::new(), usize::MAX), 0);
    assert_eq!(sufficient_depth(&Grammar::new(), 7), 0);
}

#[test]
fn malformed_production_does_nothing() {
    let g = grammar_of(&["<<START>> ::= \"a\" what? \"b\""]);
    let report = parse_program(&g, "a b").unwrap();
    assert!(report.well_formed());
    assert_eq!(render(&report.tree), "Sequence(<<START>>, [])");
    assert_eq!(report.diagnostics.len(), 1);
    match &report.diagnostics[0] {
        Diagnostic::MalformedProduction { raw } => assert_eq!(raw, "what?"),
        other => panic!("unexpected diagnostic {:?}", other),
    }
}

#[test]
fn undecidable_alternative_is_recorded_and_does_not_start() {
    let g = grammar_of(&[
        "<<START>> ::= <A> | <B>",
        "<A> ::= \"a\"",
        "<B> ::= <A> \"b\"",
    ]);
    let report = parse_program(&g, "a").unwrap();
    assert!(report.well_formed());
    assert_eq!(render(&report.tree), "Sequence(<A>, [])");
    assert_eq!(report.diagnostics.len(), 1);
    match &report.diagnostics[0] {
        Diagnostic::UndecidableStartPredicate { rule_name } => assert_eq!(rule_name, "<B>"),
        other => panic!("unexpected diagnostic {:?}", other),
    }
}

#[test]
fn run_grammar_consumes_from_the_front() {
    let g = grammar_of(&["<<START>> ::= \"a\" \"b\""]);
    let mut tokens = vec!["a", "b", "c"];
    let done = run_grammar(&g, &mut tokens).unwrap();
    assert_eq!(tokens, vec!["c"]);
    assert!(done.diagnostics.is_empty());
    let mut none: Vec<&str> = Vec::new();
    let done = run_grammar(&g, &mut none).unwrap();
    assert_eq!(done.diagnostics.len(), 2);
    match &done.diagnostics[0] {
        Diagnostic::LiteralMismatch { expected, found } => {
            assert_eq!(expected, "a");
            assert!(found.is_none());
        }
        other => panic!("unexpected diagnostic {:?}", other),
    }
}

#[test]
fn run_program_appends_the_end_marker() {
    let g = grammar_of(&["<<START>> ::= \"a\""]);
    let report = run_program(&g, vec!["a"]).unwrap();
    assert_eq!(report.residual, vec!["<<EOF>>"]);
    let report = run_program(&g, vec!["a", "b c"]).unwrap();
    assert_eq!(report.residual, vec!["b c", "<<EOF>>"]);
}
