use pseudo_bnf::declaration::{
    join, Arm, Field, ParserBody, ParserFunction, Statement, TypeDeclaration,
};
use pseudo_bnf::diagnostic::Diagnostic;
use pseudo_bnf::generator::{
    generate, generate_check_if_can_start_rule, grammar_to_rust_parsers, grammar_to_rust_types,
    literal_condition, parser_function, rust_prelude, type_declaration,
};
use pseudo_bnf::grammar::Grammar;
use pseudo_bnf::loader::{load_grammar, parse_grammar_rule};
use pseudo_bnf::naming::{to_field_name, to_parser_name, to_type_name};

fn grammar_of(lines: &[&str]) -> Grammar {
    let lines: Vec<String> = lines.iter().map(|line| line.to_string()).collect();
    load_grammar(&lines).expect("the grammar loads")
}

fn torpel_grammar() -> Grammar {
    grammar_of(&[
        "<<START>> ::= <NEW-TYPE>*\";\"",
        "<NEW-TYPE> ::= \"new-type\" <TYPE-NAME> <TYPE-DEFINITION>",
        "<TYPE-DEFINITION> ::= <STRUCTURE> | <ENUMERATION>",
        "<STRUCTURE> ::= \"structure\" \"{\" <STRUCTURE-FIELD-NAME>*\",\" \"}\"",
        "<ENUMERATION> ::= \"enumeration\" \"[\" <ENUMERATION-ALTERNATIVE-NAME>*\"|\" \"]\"",
        "<TYPE-NAME> ::= <<USER-SPECIFIED-NAME>>",
        "<STRUCTURE-FIELD-NAME> ::= <<USER-SPECIFIED-NAME>>",
        "<ENUMERATION-ALTERNATIVE-NAME> ::= <<USER-SPECIFIED-NAME>>",
    ])
}

const EXPECTED_TORPEL_SOURCE: &str = r#"use regex::Regex;

fn torpel_consume_token(token: &str, input: &mut Vec<&str>) {
  if input[0] == token {
    input.remove(0).to_string();
  } else {
    panic!("unexpected token: expected \"{}\" at {:?}", token, input)
  }
}

fn torpel_is_valid_user_specified_name(token: &str) -> bool {
  lazy_static! {
    static ref RE: Regex = Regex::new("^[A-Z][a-zA-Z-]*$").unwrap();
  }
  return RE.is_match(token);
}

fn torpel_read_user_specified_name(input: &mut Vec<&str>) -> String {
  if torpel_is_valid_user_specified_name(input[0]) {
    return input.remove(0).to_string();
  } else {
    panic!("unexpected token: expected user specified name at {:?}", input)
  }
}





#[derive(Debug)]
pub struct Start {
  new_type: Vec<NewType>,
}

pub type EnumerationAlternativeName = String;

#[derive(Debug)]
pub struct Enumeration {
  enumeration_alternative_name: Vec<EnumerationAlternativeName>,
}

#[derive(Debug)]
pub struct NewType {
  type_name: TypeName,
  type_definition: TypeDefinition,
}

pub type StructureFieldName = String;

#[derive(Debug)]
pub struct Structure {
  structure_field_name: Vec<StructureFieldName>,
}

#[derive(Debug)]
pub enum TypeDefinition {
  Structure(Structure),
  Enumeration(Enumeration),
}

pub type TypeName = String;





pub fn parse_start(input: &mut Vec<&str>) -> Start {
  let mut new_type = vec![];
  new_type.push(parse_new_type(input));
  while input[0] == ";" {
    torpel_consume_token(";", input);
    if input[0] == "new-type" {
      new_type.push(parse_new_type(input));
    } else {
      break;
    }
  }
  return Start { new_type };
}

pub fn parse_enumeration_alternative_name(input: &mut Vec<&str>) -> EnumerationAlternativeName {
  return torpel_read_user_specified_name(input);
}

pub fn parse_enumeration(input: &mut Vec<&str>) -> Enumeration {
  torpel_consume_token("enumeration", input);
  torpel_consume_token("[", input);
  let mut enumeration_alternative_name = vec![];
  enumeration_alternative_name.push(parse_enumeration_alternative_name(input));
  while input[0] == "|" {
    torpel_consume_token("|", input);
    if torpel_is_valid_user_specified_name(input[0]) {
      enumeration_alternative_name.push(parse_enumeration_alternative_name(input));
    } else {
      break;
    }
  }
  torpel_consume_token("]", input);
  return Enumeration { enumeration_alternative_name };
}

pub fn parse_new_type(input: &mut Vec<&str>) -> NewType {
  torpel_consume_token("new-type", input);
  let type_name = parse_type_name(input);
  let type_definition = parse_type_definition(input);
  return NewType { type_name, type_definition };
}

pub fn parse_structure_field_name(input: &mut Vec<&str>) -> StructureFieldName {
  return torpel_read_user_specified_name(input);
}

pub fn parse_structure(input: &mut Vec<&str>) -> Structure {
  torpel_consume_token("structure", input);
  torpel_consume_token("{", input);
  let mut structure_field_name = vec![];
  structure_field_name.push(parse_structure_field_name(input));
  while input[0] == "," {
    torpel_consume_token(",", input);
    if torpel_is_valid_user_specified_name(input[0]) {
      structure_field_name.push(parse_structure_field_name(input));
    } else {
      break;
    }
  }
  torpel_consume_token("}", input);
  return Structure { structure_field_name };
}

pub fn parse_type_definition(input: &mut Vec<&str>) -> TypeDefinition {
  if input[0] == "structure" {
    return TypeDefinition::Structure(parse_structure(input));
  }
  if input[0] == "enumeration" {
    return TypeDefinition::Enumeration(parse_enumeration(input));
  }
  panic!("unexpected token: expected a valid sub-rule at {:?}", input)
}

pub fn parse_type_name(input: &mut Vec<&str>) -> TypeName {
  return torpel_read_user_specified_name(input);
}
"#;

#[test]
fn torpel_source_is_generated_line_by_line() {
    let source = generate(&torpel_grammar()).unwrap();
    assert!(source.diagnostics.is_empty());
    let expected: Vec<&str> = EXPECTED_TORPEL_SOURCE.lines().collect();
    assert_eq!(source.lines.len(), expected.len());
    for (at, line) in source.lines.iter().enumerate() {
        assert_eq!(line, expected[at], "line {}", at + 1);
    }
}

#[test]
fn prelude_is_the_head_of_the_source() {
    let prelude = rust_prelude();
    let expected: Vec<&str> = EXPECTED_TORPEL_SOURCE.lines().take(24).collect();
    assert_eq!(prelude, expected);
}

#[test]
fn names_are_converted() {
    assert_eq!(to_type_name("<NEW-TYPE>"), "NewType");
    assert_eq!(to_type_name("<<START>>"), "Start");
    assert_eq!(to_type_name("<STRUCTURE-FIELD-NAME>"), "StructureFieldName");
    assert_eq!(to_field_name("<NEW-TYPE>"), "new_type");
    assert_eq!(to_field_name("<ENUMERATION-ALTERNATIVE-NAME>"), "enumeration_alternative_name");
    assert_eq!(to_parser_name("<NEW-TYPE>"), "parse_new_type");
    assert_eq!(to_parser_name("<<START>>"), "parse_start");
    assert_eq!(to_type_name("<FIELDS>"), "Field");
}

#[test]
fn join_puts_the_separator_between() {
    assert_eq!(join(&vec![], ", "), "");
    assert_eq!(join(&vec!["a".to_string()], ", "), "a");
    assert_eq!(join(&vec!["a".to_string(), "b".to_string(), "c".to_string()], ", "), "a, b, c");
}

#[test]
fn start_conditions() {
    let g = torpel_grammar();
    assert_eq!(
        generate_check_if_can_start_rule(&g, "<STRUCTURE>").unwrap(),
        "input[0] == \"structure\""
    );
    assert_eq!(
        generate_check_if_can_start_rule(&g, "<TYPE-NAME>").unwrap(),
        "torpel_is_valid_user_specified_name(input[0])"
    );
    match generate_check_if_can_start_rule(&g, "<TYPE-DEFINITION>") {
        Err(Diagnostic::UndecidableStartPredicate { rule_name }) => {
            assert_eq!(rule_name, "<TYPE-DEFINITION>")
        }
        other => panic!("unexpected result {:?}", other),
    }
    match generate_check_if_can_start_rule(&g, "<NOWHERE>") {
        Err(Diagnostic::UndefinedRuleReference { rule_name }) => assert_eq!(rule_name, "<NOWHERE>"),
        other => panic!("unexpected result {:?}", other),
    }
    assert_eq!(literal_condition("\"x\""), "input[0] == \"x\"");
    let g = grammar_of(&["<Q> ::= \"\\\\\" <Q>", "<E> ::="]);
    assert_eq!(generate_check_if_can_start_rule(&g, "<Q>").unwrap(), "input[0] == \"\\\\\\\\\"");
    assert!(matches!(
        generate_check_if_can_start_rule(&g, "<E>"),
        Err(Diagnostic::UndecidableStartPredicate { .. })
    ));
}

#[test]
fn record_is_written_out() {
    let declaration = TypeDeclaration::Record {
        name: "Pair".to_string(),
        fields: vec![
            Field { name: "left".to_string(), item_type: "Left".to_string(), repeated: false },
            Field { name: "right".to_string(), item_type: "Right".to_string(), repeated: true },
        ],
    };
    assert_eq!(
        declaration.render(),
        vec!["", "#[derive(Debug)]", "pub struct Pair {", "  left: Left,", "  right: Vec<Right>,", "}"]
    );
    let empty = TypeDeclaration::Record { name: "Unit".to_string(), fields: vec![] };
    assert_eq!(empty.render(), vec!["", "#[derive(Debug)]", "pub struct Unit {", "}"]);
}

#[test]
fn alias_and_union_are_written_out() {
    let alias = TypeDeclaration::Alias { name: "Name".to_string() };
    assert_eq!(alias.render(), vec!["", "pub type Name = String;"]);
    let union = TypeDeclaration::Union {
        name: "Either".to_string(),
        variants: vec!["Left".to_string(), "Right".to_string()],
    };
    assert_eq!(
        union.render(),
        vec!["", "#[derive(Debug)]", "pub enum Either {", "  Left(Left),", "  Right(Right),", "}"]
    );
}

#[test]
fn parser_functions_are_written_out() {
    let read = ParserFunction {
        name: "parse_name".to_string(),
        result_type: "Name".to_string(),
        body: ParserBody::ReadName,
    };
    assert_eq!(
        read.render(),
        vec![
            "",
            "pub fn parse_name(input: &mut Vec<&str>) -> Name {",
            "  return torpel_read_user_specified_name(input);",
            "}"
        ]
    );
    let sequence = ParserFunction {
        name: "parse_pair".to_string(),
        result_type: "Pair".to_string(),
        body: ParserBody::Sequence {
            statements: vec![
                Statement::Consume { literal: "\"(\"".to_string() },
                Statement::Call { field: "left".to_string(), parser: "parse_left".to_string() },
                Statement::Repeat {
                    field: "right".to_string(),
                    parser: "parse_right".to_string(),
                    separator: "\",\"".to_string(),
                    condition: "input[0] == \"r\"".to_string(),
                },
            ],
        },
    };
    assert_eq!(
        sequence.render(),
        vec![
            "",
            "pub fn parse_pair(input: &mut Vec<&str>) -> Pair {",
            "  torpel_consume_token(\"(\", input);",
            "  let left = parse_left(input);",
            "  let mut right = vec![];",
            "  right.push(parse_right(input));",
            "  while input[0] == \",\" {",
            "    torpel_consume_token(\",\", input);",
            "    if input[0] == \"r\" {",
            "      right.push(parse_right(input));",
            "    } else {",
            "      break;",
            "    }",
            "  }",
            "  return Pair { left, right };",
            "}"
        ]
    );
    let nothing = ParserFunction {
        name: "parse_unit".to_string(),
        result_type: "Unit".to_string(),
        body: ParserBody::Sequence { statements: vec![] },
    };
    assert_eq!(
        nothing.render(),
        vec!["", "pub fn parse_unit(input: &mut Vec<&str>) -> Unit {", "  return Unit {  };", "}"]
    );
    let dispatch = ParserFunction {
        name: "parse_either".to_string(),
        result_type: "Either".to_string(),
        body: ParserBody::Dispatch {
            arms: vec![Arm {
                condition: "input[0] == \"l\"".to_string(),
                variant: "Left".to_string(),
                parser: "parse_left".to_string(),
            }],
        },
    };
    assert_eq!(
        dispatch.render(),
        vec![
            "",
            "pub fn parse_either(input: &mut Vec<&str>) -> Either {",
            "  if input[0] == \"l\" {",
            "    return Either::Left(parse_left(input));",
            "  }",
            "  panic!(\"unexpected token: expected a valid sub-rule at {:?}\", input)",
            "}"
        ]
    );
}

#[test]
fn alternatives_with_one_start_condition_stop_their_rule_only() {
    let g = grammar_of(&[
        "<CHOICE> ::= <ONE> | <OTHER>",
        "<ONE> ::= \"x\" \"a\"",
        "<OTHER> ::= \"x\" \"b\"",
    ]);
    let parsers = grammar_to_rust_parsers(&g).unwrap();
    assert_eq!(parsers.len(), 3);
    match &parsers[0] {
        Err(Diagnostic::AmbiguousChoice { rule_name, matches }) => {
            assert_eq!(rule_name, "<CHOICE>");
            assert_eq!(*matches, 2);
        }
        other => panic!("unexpected section {:?}", other),
    }
    assert_eq!(parsers[1].as_ref().unwrap().name, "parse_one");
    assert_eq!(parsers[2].as_ref().unwrap().name, "parse_other");
    let types = grammar_to_rust_types(&g).unwrap();
    assert!(types.iter().all(|section| section.is_ok()));
    let source = generate(&g).unwrap();
    assert_eq!(source.diagnostics.len(), 1);
    assert!(!source.lines.iter().any(|line| line.contains("parse_choice")));
    assert!(source.lines.iter().any(|line| line.starts_with("pub fn parse_one(")));
    assert!(source.lines.iter().any(|line| line.starts_with("pub fn parse_other(")));
    assert!(source.lines.iter().any(|line| line == "pub enum Choice {"));
}

#[test]
fn two_name_alternatives_have_one_start_condition() {
    let g = grammar_of(&[
        "<CHOICE> ::= <ONE> | <OTHER>",
        "<ONE> ::= <<USER-SPECIFIED-NAME>>",
        "<OTHER> ::= <<USER-SPECIFIED-NAME>>",
    ]);
    let rule = parse_grammar_rule("<CHOICE> ::= <ONE> | <OTHER>").unwrap();
    assert!(matches!(parser_function(&g, &rule), Err(Diagnostic::AmbiguousChoice { .. })));
}

#[test]
fn undecidable_alternative_stops_its_rule() {
    let g = grammar_of(&["<CHOICE> ::= <ONE> | <CHOICE>", "<ONE> ::= \"x\""]);
    let parsers = grammar_to_rust_parsers(&g).unwrap();
    match &parsers[0] {
        Err(Diagnostic::UndecidableStartPredicate { rule_name }) => {
            assert_eq!(rule_name, "<CHOICE>")
        }
        other => panic!("unexpected section {:?}", other),
    }
    assert!(parsers[1].is_ok());
}

#[test]
fn malformed_production_stops_its_rule() {
    let g = grammar_of(&["<A> ::= \"a\" oops <B>", "<B> ::= \"b\""]);
    let rule = parse_grammar_rule("<A> ::= \"a\" oops <B>").unwrap();
    match type_declaration(&rule) {
        Err(Diagnostic::MalformedProduction { raw }) => assert_eq!(raw, "oops"),
        other => panic!("unexpected declaration {:?}", other),
    }
    match parser_function(&g, &rule) {
        Err(Diagnostic::MalformedProduction { raw }) => assert_eq!(raw, "oops"),
        other => panic!("unexpected function {:?}", other),
    }
    let source = generate(&g).unwrap();
    assert_eq!(source.diagnostics.len(), 2);
    assert!(source.lines.iter().any(|line| line == "pub struct B {"));
    assert!(!source.lines.iter().any(|line| line == "pub struct A {"));
}

#[test]
fn undefined_reference_leaves_no_source() {
    let g = grammar_of(&["<A> ::= \"a\"", "<B> ::= \"b\" <DOES-NOT-EXIST>"]);
    match generate(&g) {
        Err(Diagnostic::UndefinedRuleReference { rule_name }) => {
            assert_eq!(rule_name, "<DOES-NOT-EXIST>")
        }
        other => panic!("unexpected result {:?}", other),
    }
    assert!(grammar_to_rust_parsers(&g).is_err());
    match grammar_to_rust_types(&g) {
        Err(Diagnostic::UndefinedRuleReference { rule_name }) => {
            assert_eq!(rule_name, "<DOES-NOT-EXIST>")
        }
        other => panic!("unexpected result {:?}", other),
    }
}

#[test]
fn sections_come_in_increasing_order_of_rule_name() {
    let g = grammar_of(&["<B> ::= \"b\"", "<A> ::= \"a\"", "<<C>> ::= \"c\"", "<AB> ::= \"d\""]);
    let parsers = grammar_to_rust_parsers(&g).unwrap();
    let names: Vec<&str> =
        parsers.iter().map(|section| section.as_ref().unwrap().name.as_str()).collect();
    assert_eq!(names, vec!["parse_c", "parse_a", "parse_ab", "parse_b"]);
}

#[test]
fn repetition_of_an_undecidable_rule_stops_its_rule() {
    let g = grammar_of(&[
        "<L> ::= \"(\" <C>*\",\" \")\"",
        "<C> ::= <A> | <B>",
        "<A> ::= \"a\"",
        "<B> ::= \"b\"",
    ]);
    let parsers = grammar_to_rust_parsers(&g).unwrap();
    assert!(parsers[0].is_ok());
    assert!(parsers[1].is_ok());
    assert!(parsers[2].is_ok());
    match &parsers[3] {
        Err(Diagnostic::UndecidableStartPredicate { rule_name }) => assert_eq!(rule_name, "<C>"),
        other => panic!("unexpected section {:?}", other),
    }
    let types = grammar_to_rust_types(&g).unwrap();
    match types[3].as_ref().unwrap() {
        TypeDeclaration::Record { name, fields } => {
            assert_eq!(name, "L");
            assert_eq!(fields.len(), 1);
            assert_eq!(fields[0].name, "c");
            assert_eq!(fields[0].item_type, "C");
            assert!(fields[0].repeated);
        }
        other => panic!("unexpected declaration {:?}", other),
    }
}
