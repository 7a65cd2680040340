use pseudo_bnf::diagnostic::Diagnostic;
use pseudo_bnf::interpreter::parse_program;
use pseudo_bnf::loader::load_grammar;
use pseudo_bnf::production::RuleProduction;
use pseudo_bnf::torpel::{
    parse_enumeration, parse_enumeration_alternative_name, parse_new_type, parse_start,
    parse_structure, parse_structure_field_name, parse_type_definition, parse_type_name,
    torpel_consume_token, torpel_is_valid_user_specified_name, torpel_read_user_specified_name,
    TypeDefinition,
};

fn words(source: &str) -> Vec<&str> {
    let mut input: Vec<&str> = source.split_whitespace().collect();
    input.push("<<EOF>>");
    input
}

#[test]
fn name_shape() {
    assert!(torpel_is_valid_user_specified_name("Player"));
    assert!(torpel_is_valid_user_specified_name("P"));
    assert!(torpel_is_valid_user_specified_name("Seal-Clubber"));
    assert!(torpel_is_valid_user_specified_name("A-"));
    assert!(!torpel_is_valid_user_specified_name(""));
    assert!(!torpel_is_valid_user_specified_name("player"));
    assert!(!torpel_is_valid_user_specified_name("-A"));
    assert!(!torpel_is_valid_user_specified_name("Player1"));
    assert!(!torpel_is_valid_user_specified_name("Pla_yer"));
    assert!(!torpel_is_valid_user_specified_name("<<EOF>>"));
    assert!(!torpel_is_valid_user_specified_name("Ab c"));
    assert!(!torpel_is_valid_user_specified_name("Ab\n"));
}

#[test]
fn consume_token_takes_the_expected_token() {
    let mut input = vec!["a", "b"];
    assert!(torpel_consume_token("a", &mut input).is_ok());
    assert_eq!(input, vec!["b"]);
    match torpel_consume_token("a", &mut input) {
        Err(Diagnostic::LiteralMismatch { expected, found }) => {
            assert_eq!(expected, "a");
            assert_eq!(found.as_deref(), Some("b"));
        }
        other => panic!("unexpected result {:?}", other),
    }
    assert_eq!(input, vec!["b"]);
    let mut none: Vec<&str> = Vec::new();
    match torpel_consume_token("a", &mut none) {
        Err(Diagnostic::LiteralMismatch { found, .. }) => assert!(found.is_none()),
        other => panic!("unexpected result {:?}", other),
    }
}

#[test]
fn read_name_takes_a_name() {
    let mut input = vec!["Name", "rest"];
    assert_eq!(torpel_read_user_specified_name("<N>", &mut input).unwrap(), "Name");
    assert_eq!(input, vec!["rest"]);
    match torpel_read_user_specified_name("<N>", &mut input) {
        Err(Diagnostic::MalformedUserName { rule_name, found }) => {
            assert_eq!(rule_name, "<N>");
            assert_eq!(found.as_deref(), Some("rest"));
        }
        other => panic!("unexpected result {:?}", other),
    }
    assert_eq!(input, vec!["rest"]);
}

#[test]
fn the_three_name_rules() {
    let mut input = vec!["A", "B", "C", "d"];
    assert_eq!(parse_type_name(&mut input).unwrap(), "A");
    assert_eq!(parse_structure_field_name(&mut input).unwrap(), "B");
    assert_eq!(parse_enumeration_alternative_name(&mut input).unwrap(), "C");
    match parse_type_name(&mut input) {
        Err(Diagnostic::MalformedUserName { rule_name, .. }) => assert_eq!(rule_name, "<TYPE-NAME>"),
        other => panic!("unexpected result {:?}", other),
    }
    match parse_structure_field_name(&mut input) {
        Err(Diagnostic::MalformedUserName { rule_name, .. }) => {
            assert_eq!(rule_name, "<STRUCTURE-FIELD-NAME>")
        }
        other => panic!("unexpected result {:?}", other),
    }
    match parse_enumeration_alternative_name(&mut input) {
        Err(Diagnostic::MalformedUserName { rule_name, .. }) => {
            assert_eq!(rule_name, "<ENUMERATION-ALTERNATIVE-NAME>")
        }
        other => panic!("unexpected result {:?}", other),
    }
}

#[test]
fn structure_with_fields() {
    let mut input = words("structure { Class , Stats }");
    let structure = parse_structure(&mut input).unwrap();
    assert_eq!(structure.structure_field_name, vec!["Class", "Stats"]);
    assert_eq!(input, vec!["<<EOF>>"]);
}

#[test]
fn structure_with_dangling_comma() {
    let mut input = words("structure { Class , }");
    let structure = parse_structure(&mut input).unwrap();
    assert_eq!(structure.structure_field_name, vec!["Class"]);
    assert_eq!(input, vec!["<<EOF>>"]);
}

#[test]
fn structure_stops_at_the_first_misfit() {
    let mut input = words("structure { class , Stats }");
    match parse_structure(&mut input) {
        Err(Diagnostic::MalformedUserName { found, .. }) => {
            assert_eq!(found.as_deref(), Some("class"))
        }
        other => panic!("unexpected result {:?}", other),
    }
    assert_eq!(input, vec!["class", ",", "Stats", "}", "<<EOF>>"]);
    let mut input = words("structure { Class Stats }");
    match parse_structure(&mut input) {
        Err(Diagnostic::LiteralMismatch { expected, found }) => {
            assert_eq!(expected, "}");
            assert_eq!(found.as_deref(), Some("Stats"));
        }
        other => panic!("unexpected result {:?}", other),
    }
    assert_eq!(input, vec!["Stats", "}", "<<EOF>>"]);
}

#[test]
fn enumeration_with_alternatives() {
    let mut input = words("enumeration [ Seal-Clubber | Turtle-Tamer | Pastamancer ] tail");
    let enumeration = parse_enumeration(&mut input).unwrap();
    assert_eq!(
        enumeration.enumeration_alternative_name,
        vec!["Seal-Clubber", "Turtle-Tamer", "Pastamancer"]
    );
    assert_eq!(input, vec!["tail", "<<EOF>>"]);
}

#[test]
fn type_definition_goes_by_the_keyword() {
    let mut input = words("structure { A }");
    assert!(matches!(parse_type_definition(&mut input), Ok(TypeDefinition::Structure(_))));
    let mut input = words("enumeration [ A ]");
    assert!(matches!(parse_type_definition(&mut input), Ok(TypeDefinition::Enumeration(_))));
    let mut input = words("union { A }");
    match parse_type_definition(&mut input) {
        Err(Diagnostic::AmbiguousChoice { rule_name, matches }) => {
            assert_eq!(rule_name, "<TYPE-DEFINITION>");
            assert_eq!(matches, 0);
        }
        other => panic!("unexpected result {:?}", other),
    }
    assert_eq!(input.len(), 5);
}

#[test]
fn new_type_reads_name_and_definition() {
    let mut input = words("new-type Player structure { Class , Stats }");
    let new_type = parse_new_type(&mut input).unwrap();
    assert_eq!(new_type.name, "Player");
    match new_type.type_definition {
        TypeDefinition::Structure(s) => assert_eq!(s.structure_field_name, vec!["Class", "Stats"]),
        other => panic!("unexpected definition {:?}", other),
    }
    assert_eq!(input, vec!["<<EOF>>"]);
}

#[test]
fn program_with_two_types() {
    let mut input =
        words("new-type Player structure { Class , Stats } ; new-type Class enumeration [ A | B ]");
    let start = parse_start(&mut input).unwrap();
    assert_eq!(start.new_type.len(), 2);
    assert_eq!(start.new_type[0].name, "Player");
    assert_eq!(start.new_type[1].name, "Class");
    assert_eq!(input, vec!["<<EOF>>"]);
}

#[test]
fn program_with_dangling_semicolon() {
    let mut input = words("new-type Player structure { Class } ; rest");
    let start = parse_start(&mut input).unwrap();
    assert_eq!(start.new_type.len(), 1);
    assert_eq!(input, vec!["rest", "<<EOF>>"]);
}

#[test]
fn program_stops_at_the_first_misfit() {
    let mut input = words("new-type Player structure { Class } ; new-type lower structure { A }");
    match parse_start(&mut input) {
        Err(Diagnostic::MalformedUserName { rule_name, found }) => {
            assert_eq!(rule_name, "<TYPE-NAME>");
            assert_eq!(found.as_deref(), Some("lower"));
        }
        other => panic!("unexpected result {:?}", other),
    }
    assert_eq!(input, vec!["lower", "structure", "{", "A", "}", "<<EOF>>"]);
    let mut none: Vec<&str> = Vec::new();
    match parse_start(&mut none) {
        Err(Diagnostic::LiteralMismatch { expected, found }) => {
            assert_eq!(expected, "new-type");
            assert!(found.is_none());
        }
        other => panic!("unexpected result {:?}", other),
    }
}

fn names(node: &RuleProduction, out: &mut Vec<String>) {
    match node {
        RuleProduction::RuleActionSequence { actions, .. } => {
            for action in actions {
                names(action, out);
            }
        }
        RuleProduction::UserSpecifiedName { user_specified_name, .. } => {
            out.push(user_specified_name.clone())
        }
        RuleProduction::Error { .. } => panic!("unexpected error node"),
    }
}

#[test]
fn parser_and_interpreter_read_a_program_alike() {
    let notation: Vec<String> = [
        "<<START>> ::= <NEW-TYPE>*\";\"",
        "<NEW-TYPE> ::= \"new-type\" <TYPE-NAME> <TYPE-DEFINITION>",
        "<TYPE-DEFINITION> ::= <STRUCTURE> | <ENUMERATION>",
        "<STRUCTURE> ::= \"structure\" \"{\" <STRUCTURE-FIELD-NAME>*\",\" \"}\"",
        "<ENUMERATION> ::= \"enumeration\" \"[\" <ENUMERATION-ALTERNATIVE-NAME>*\"|\" \"]\"",
        "<TYPE-NAME> ::= <<USER-SPECIFIED-NAME>>",
        "<STRUCTURE-FIELD-NAME> ::= <<USER-SPECIFIED-NAME>>",
        "<ENUMERATION-ALTERNATIVE-NAME> ::= <<USER-SPECIFIED-NAME>>",
    ]
    .iter()
    .map(|line| line.to_string())
    .collect();
    let grammar = load_grammar(&notation).unwrap();
    let source = "new-type Player structure { Class , Stats , } ; \
                  new-type Class enumeration [ Seal-Clubber | Turtle-Tamer ] ; tail";
    let mut input = words(source);
    let start = parse_start(&mut input).unwrap();
    let report = parse_program(&grammar, source).unwrap();
    assert_eq!(report.residual, input);
    assert!(report.diagnostics.is_empty());
    let mut interpreted = Vec::new();
    names(&report.tree, &mut interpreted);
    let mut parsed = Vec::new();
    for new_type in start.new_type.iter() {
        parsed.push(new_type.name.clone());
        match &new_type.type_definition {
            TypeDefinition::Structure(s) => parsed.extend(s.structure_field_name.iter().cloned()),
            TypeDefinition::Enumeration(e) => {
                parsed.extend(e.enumeration_alternative_name.iter().cloned())
            }
        }
    }
    assert_eq!(interpreted, parsed);
    assert_eq!(parsed, vec!["Player", "Class", "Stats", "Class", "Seal-Clubber", "Turtle-Tamer"]);
}
