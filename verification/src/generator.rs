//! The generator: walks the grammar as the interpreter does, and instead of
//! consuming tokens says what the target-language source is to hold: a type
//! and a parser function for each rule.

use vstd::prelude::*;
use vstd::hash_set::StringHashSet;
use vstd::string::StringExecFns;
use crate::declaration::{
    Arm, ArmSpec, Field, FieldSpec, ParserBody, ParserBodySpec, ParserFunction, ParserFunctionSpec,
    Statement, StatementSpec, TypeDeclaration, TypeDeclarationSpec, arm_views, field_views,
    parser_lines, statement_views, type_lines,
};
use crate::diagnostic::{Diagnostic, DiagnosticSpec, diagnostic_views};
use crate::grammar::{
    ActionSpec, Grammar, GrammarSpec, Rule, RuleAction, RuleSpec, RuleType, RuleTypeSpec,
    action_views, first_undefined, production_resolved, resolved,
};
use crate::naming::{
    field_name_of, parser_name_of, to_field_name, to_parser_name, to_type_name, type_name_of,
};
use crate::text::{debug_quoted, put, put_all, quote, string_views};

verus! {

/// The condition under which a user-specified name can start.
pub const NAME_CONDITION: &'static str = "torpel_is_valid_user_specified_name(input[0])";

/// The condition under which a sequence can start that begins with a
/// literal; `quoted` is the literal as the target language writes it.
pub open spec fn literal_condition_of(quoted: Seq<char>) -> Seq<char> {
    "input[0] == "@ + quoted
}

/// The source text of the condition under which the rule `rule_name` can
/// start, where one token decides that.
pub open spec fn start_condition_of(g: GrammarSpec, rule_name: Seq<char>) -> Result<
    Seq<char>,
    DiagnosticSpec,
> {
    match g[rule_name].rule_type {
        RuleTypeSpec::UserSpecifiedName => Ok(NAME_CONDITION@),
        RuleTypeSpec::RuleChoice(_) => Err(DiagnosticSpec::UndecidableStartPredicate { rule_name }),
        RuleTypeSpec::Actions(actions) => if actions.len() > 0 {
            match actions[0] {
                ActionSpec::ConsumeToken(token) => Ok(literal_condition_of(debug_quoted(token))),
                _ => Err(DiagnosticSpec::UndecidableStartPredicate { rule_name }),
            }
        } else {
            Err(DiagnosticSpec::UndecidableStartPredicate { rule_name })
        },
    }
}

/// The field that an action contributes to a record, if it contributes one.
pub open spec fn field_of(action: ActionSpec) -> Option<FieldSpec> {
    match action {
        ActionSpec::RuleName(rule_name) => Some(
            FieldSpec {
                name: field_name_of(rule_name),
                item_type: type_name_of(rule_name),
                repeated: false,
            },
        ),
        ActionSpec::RepeatedRuleNameWithSeparator { rule_name, separator } => Some(
            FieldSpec {
                name: field_name_of(rule_name),
                item_type: type_name_of(rule_name),
                repeated: true,
            },
        ),
        _ => None,
    }
}

/// The fields of the record of an action sequence, in order. The first
/// malformed action, from the left, makes the record impossible.
pub open spec fn fields_of(actions: Seq<ActionSpec>) -> Result<Seq<FieldSpec>, DiagnosticSpec>
    decreases actions.len(),
{
    if actions.len() == 0 {
        Ok(Seq::empty())
    } else {
        match fields_of(actions.drop_last()) {
            Err(diagnostic) => Err(diagnostic),
            Ok(front) => match actions.last() {
                ActionSpec::Unknown(raw) => Err(DiagnosticSpec::MalformedProduction { raw }),
                action => match field_of(action) {
                    Some(field) => Ok(front.push(field)),
                    None => Ok(front),
                },
            },
        }
    }
}

/// The type that stands for a rule.
pub open spec fn type_declaration_of(rule: RuleSpec) -> Result<TypeDeclarationSpec, DiagnosticSpec> {
    let name = type_name_of(rule.rule_name);
    match rule.rule_type {
        RuleTypeSpec::UserSpecifiedName => Ok(TypeDeclarationSpec::Alias { name }),
        RuleTypeSpec::Actions(actions) => match fields_of(actions) {
            Err(diagnostic) => Err(diagnostic),
            Ok(fields) => Ok(TypeDeclarationSpec::Record { name, fields }),
        },
        RuleTypeSpec::RuleChoice(sub_rule_names) => Ok(
            TypeDeclarationSpec::Union {
                name,
                variants: sub_rule_names.map_values(|sub: Seq<char>| type_name_of(sub)),
            },
        ),
    }
}

/// The statement that parses one action.
pub open spec fn statement_of(g: GrammarSpec, action: ActionSpec) -> Result<
    StatementSpec,
    DiagnosticSpec,
> {
    match action {
        ActionSpec::ConsumeToken(token) => Ok(
            StatementSpec::Consume { literal: debug_quoted(token) },
        ),
        ActionSpec::RuleName(rule_name) => Ok(
            StatementSpec::Call {
                field: field_name_of(rule_name),
                parser: parser_name_of(rule_name),
            },
        ),
        ActionSpec::RepeatedRuleNameWithSeparator { rule_name, separator } =>
            match start_condition_of(g, rule_name) {
                Err(diagnostic) => Err(diagnostic),
                Ok(condition) => Ok(
                    StatementSpec::Repeat {
                        field: field_name_of(rule_name),
                        parser: parser_name_of(rule_name),
                        separator: debug_quoted(separator),
                        condition,
                    },
                ),
            },
        ActionSpec::Unknown(raw) => Err(DiagnosticSpec::MalformedProduction { raw }),
    }
}

/// The statements that parse an action sequence, in order. The first action
/// from the left that has no statement makes the function impossible.
pub open spec fn statements_of(g: GrammarSpec, actions: Seq<ActionSpec>) -> Result<
    Seq<StatementSpec>,
    DiagnosticSpec,
>
    decreases actions.len(),
{
    if actions.len() == 0 {
        Ok(Seq::empty())
    } else {
        match statements_of(g, actions.drop_last()) {
            Err(diagnostic) => Err(diagnostic),
            Ok(front) => match statement_of(g, actions.last()) {
                Err(diagnostic) => Err(diagnostic),
                Ok(statement) => Ok(front.push(statement)),
            },
        }
    }
}

/// The conditions of the arms, in order.
pub open spec fn arm_conditions(arms: Seq<ArmSpec>) -> Seq<Seq<char>> {
    arms.map_values(|arm: ArmSpec| arm.condition)
}

/// The arms that parse a choice, in order. An alternative whose start is
/// not decidable makes the function impossible, and so does one whose
/// condition has the very text of an earlier alternative's: whatever the
/// tokens are, the two could not be told apart by the text of the test.
pub open spec fn arms_of(g: GrammarSpec, rule_name: Seq<char>, alternatives: Seq<Seq<char>>) -> Result<
    Seq<ArmSpec>,
    DiagnosticSpec,
>
    decreases alternatives.len(),
{
    if alternatives.len() == 0 {
        Ok(Seq::empty())
    } else {
        match arms_of(g, rule_name, alternatives.drop_last()) {
            Err(diagnostic) => Err(diagnostic),
            Ok(front) => match start_condition_of(g, alternatives.last()) {
                Err(diagnostic) => Err(diagnostic),
                Ok(condition) => if arm_conditions(front).contains(condition) {
                    Err(DiagnosticSpec::AmbiguousChoice { rule_name, matches: 2 })
                } else {
                    Ok(
                        front.push(
                            ArmSpec {
                                condition,
                                variant: type_name_of(alternatives.last()),
                                parser: parser_name_of(alternatives.last()),
                            },
                        ),
                    )
                },
            },
        }
    }
}

/// The body of the function that parses a rule.
pub open spec fn parser_body_of(g: GrammarSpec, rule: RuleSpec) -> Result<
    ParserBodySpec,
    DiagnosticSpec,
> {
    match rule.rule_type {
        RuleTypeSpec::UserSpecifiedName => Ok(ParserBodySpec::ReadName),
        RuleTypeSpec::Actions(actions) => match statements_of(g, actions) {
            Err(diagnostic) => Err(diagnostic),
            Ok(statements) => Ok(ParserBodySpec::Sequence { statements }),
        },
        RuleTypeSpec::RuleChoice(sub_rule_names) => match arms_of(
            g,
            rule.rule_name,
            sub_rule_names,
        ) {
            Err(diagnostic) => Err(diagnostic),
            Ok(arms) => Ok(ParserBodySpec::Dispatch { arms }),
        },
    }
}

/// The function that parses a rule.
pub open spec fn parser_function_of(g: GrammarSpec, rule: RuleSpec) -> Result<
    ParserFunctionSpec,
    DiagnosticSpec,
> {
    match parser_body_of(g, rule) {
        Err(diagnostic) => Err(diagnostic),
        Ok(body) => Ok(
            ParserFunctionSpec {
                name: parser_name_of(rule.rule_name),
                result_type: type_name_of(rule.rule_name),
                body,
            },
        ),
    }
}

/// The value of a type declaration that may have failed.
pub open spec fn declared(section: Result<TypeDeclaration, Diagnostic>) -> Result<
    TypeDeclarationSpec,
    DiagnosticSpec,
> {
    match section {
        Ok(declaration) => Ok(declaration@),
        Err(diagnostic) => Err(diagnostic@),
    }
}

/// The value of a parser function that may have failed.
pub open spec fn defined(section: Result<ParserFunction, Diagnostic>) -> Result<
    ParserFunctionSpec,
    DiagnosticSpec,
> {
    match section {
        Ok(function) => Ok(function@),
        Err(diagnostic) => Err(diagnostic@),
    }
}

/// The condition under which a sequence can start that begins with the
/// literal that `quoted` writes.
pub fn literal_condition(quoted: &str) -> (condition: String)
    ensures
        condition@ == literal_condition_of(quoted@),
{
    let mut condition = String::from_str("input[0] == ");
    condition.append(quoted);
    condition
}

/// The source text of the condition under which the rule `rule_name` can
/// start. A rule whose start one token does not decide has none, and
/// neither has a rule that the grammar does not define.
pub fn generate_check_if_can_start_rule(grammar: &Grammar, rule_name: &str) -> (condition: Result<
    String,
    Diagnostic,
>)
    ensures
        match condition {
            Ok(text) => grammar@.contains_key(rule_name@) && start_condition_of(
                grammar@,
                rule_name@,
            ) == Ok::<Seq<char>, DiagnosticSpec>(text@),
            Err(diagnostic) => if grammar@.contains_key(rule_name@) {
                start_condition_of(grammar@, rule_name@) == Err::<Seq<char>, DiagnosticSpec>(
                    diagnostic@,
                )
            } else {
                diagnostic@ == DiagnosticSpec::UndefinedRuleReference { rule_name: rule_name@ }
            },
        },
{
    match grammar.get(rule_name) {
        None => Err(Diagnostic::UndefinedRuleReference { rule_name: rule_name.to_owned() }),
        Some(rule) => match &rule.rule_type {
            RuleType::Actions(actions) => {
                if actions.len() > 0 {
                    match &actions[0] {
                        RuleAction::ConsumeToken(consume_token) => {
                            let quoted = quote(consume_token.as_str());
                            Ok(literal_condition(quoted.as_str()))
                        },
                        _ => Err(
                            Diagnostic::UndecidableStartPredicate {
                                rule_name: rule_name.to_owned(),
                            },
                        ),
                    }
                } else {
                    Err(Diagnostic::UndecidableStartPredicate { rule_name: rule_name.to_owned() })
                }
            },
            RuleType::UserSpecifiedName => Ok(String::from_str(NAME_CONDITION)),
            RuleType::RuleChoice(_) => Err(
                Diagnostic::UndecidableStartPredicate { rule_name: rule_name.to_owned() },
            ),
        },
    }
}

/// The type that stands for `rule`.
pub fn type_declaration(rule: &Rule) -> (declaration: Result<TypeDeclaration, Diagnostic>)
    ensures
        declared(declaration) == type_declaration_of(rule@),
{
    let name = to_type_name(rule.rule_name.as_str());
    match &rule.rule_type {
        RuleType::UserSpecifiedName => Ok(TypeDeclaration::Alias { name }),
        RuleType::Actions(actions) => {
            let ghost steps = action_views(actions@);
            let mut fields: Vec<Field> = Vec::new();
            let mut failure: Option<Diagnostic> = None;
            let mut at: usize = 0;
            proof {
                assert(field_views(fields@) =~= Seq::<FieldSpec>::empty());
            }
            while at < actions.len()
                invariant
                    at <= actions@.len(),
                    steps == action_views(actions@),
                    match failure {
                        Some(diagnostic) => fields_of(steps.take(at as int)) == Err::<
                            Seq<FieldSpec>,
                            DiagnosticSpec,
                        >(diagnostic@),
                        None => fields_of(steps.take(at as int)) == Ok::<
                            Seq<FieldSpec>,
                            DiagnosticSpec,
                        >(field_views(fields@)),
                    },
                decreases actions@.len() - at,
            {
                proof {
                    assert(steps.take(at + 1).drop_last() =~= steps.take(at as int));
                }
                if failure.is_none() {
                    let ghost before = fields@;
                    match &actions[at] {
                        RuleAction::ConsumeToken(_) => {},
                        RuleAction::RepeatedRuleNameWithSeparator { rule_name, separator } => {
                            let field = Field {
                                name: to_field_name(rule_name.as_str()),
                                item_type: to_type_name(rule_name.as_str()),
                                repeated: true,
                            };
                            fields.push(field);
                            assert(field_views(fields@) =~= field_views(before).push(field@));
                        },
                        RuleAction::RuleName(rule_name) => {
                            let field = Field {
                                name: to_field_name(rule_name.as_str()),
                                item_type: to_type_name(rule_name.as_str()),
                                repeated: false,
                            };
                            fields.push(field);
                            assert(field_views(fields@) =~= field_views(before).push(field@));
                        },
                        RuleAction::Unknown(raw) => {
                            failure = Some(Diagnostic::MalformedProduction { raw: raw.clone() });
                        },
                    }
                }
                at += 1;
            }
            proof {
                assert(steps.take(at as int) =~= steps);
            }
            match failure {
                Some(diagnostic) => Err(diagnostic),
                None => Ok(TypeDeclaration::Record { name, fields }),
            }
        },
        RuleType::RuleChoice(sub_rule_names) => {
            let mut variants: Vec<String> = Vec::new();
            let mut at: usize = 0;
            while at < sub_rule_names.len()
                invariant
                    at <= sub_rule_names@.len(),
                    variants@.len() == at,
                    forall|k: int|
                        0 <= k < at ==> (#[trigger] variants@[k])@ == type_name_of(
                            sub_rule_names@[k]@,
                        ),
                decreases sub_rule_names@.len() - at,
            {
                variants.push(to_type_name(sub_rule_names[at].as_str()));
                at += 1;
            }
            assert(string_views(variants@) =~= string_views(sub_rule_names@).map_values(
                |sub: Seq<char>| type_name_of(sub),
            ));
            Ok(TypeDeclaration::Union { name, variants })
        },
    }
}

/// The function that parses `rule`.
pub fn parser_function(grammar: &Grammar, rule: &Rule) -> (function: Result<
    ParserFunction,
    Diagnostic,
>)
    requires
        production_resolved(grammar@, rule@.rule_type),
    ensures
        defined(function) == parser_function_of(grammar@, rule@),
{
    let ghost g = grammar@;
    let body = match &rule.rule_type {
        RuleType::UserSpecifiedName => ParserBody::ReadName,
        RuleType::Actions(actions) => {
            let ghost steps = action_views(actions@);
            let mut statements: Vec<Statement> = Vec::new();
            let mut failure: Option<Diagnostic> = None;
            let mut at: usize = 0;
            proof {
                assert(statement_views(statements@) =~= Seq::<StatementSpec>::empty());
            }
            while at < actions.len()
                invariant
                    at <= actions@.len(),
                    g == grammar@,
                    steps == action_views(actions@),
                    production_resolved(g, RuleTypeSpec::Actions(steps)),
                    match failure {
                        Some(diagnostic) => statements_of(g, steps.take(at as int)) == Err::<
                            Seq<StatementSpec>,
                            DiagnosticSpec,
                        >(diagnostic@),
                        None => statements_of(g, steps.take(at as int)) == Ok::<
                            Seq<StatementSpec>,
                            DiagnosticSpec,
                        >(statement_views(statements@)),
                    },
                decreases actions@.len() - at,
            {
                proof {
                    assert(steps.take(at + 1).drop_last() =~= steps.take(at as int));
                }
                if failure.is_none() {
                    let ghost before = statements@;
                    match &actions[at] {
                        RuleAction::ConsumeToken(token) => {
                            let statement = Statement::Consume { literal: quote(token.as_str()) };
                            statements.push(statement);
                            assert(statement_views(statements@) =~= statement_views(before).push(
                                statement@,
                            ));
                        },
                        RuleAction::RepeatedRuleNameWithSeparator { rule_name, separator } => {
                            match generate_check_if_can_start_rule(grammar, rule_name.as_str()) {
                                Ok(condition) => {
                                    let statement = Statement::Repeat {
                                        field: to_field_name(rule_name.as_str()),
                                        parser: to_parser_name(rule_name.as_str()),
                                        separator: quote(separator.as_str()),
                                        condition,
                                    };
                                    statements.push(statement);
                                    assert(statement_views(statements@) =~= statement_views(
                                        before,
                                    ).push(statement@));
                                },
                                Err(diagnostic) => {
                                    failure = Some(diagnostic);
                                },
                            }
                        },
                        RuleAction::RuleName(rule_name) => {
                            let statement = Statement::Call {
                                field: to_field_name(rule_name.as_str()),
                                parser: to_parser_name(rule_name.as_str()),
                            };
                            statements.push(statement);
                            assert(statement_views(statements@) =~= statement_views(before).push(
                                statement@,
                            ));
                        },
                        RuleAction::Unknown(raw) => {
                            failure = Some(Diagnostic::MalformedProduction { raw: raw.clone() });
                        },
                    }
                }
                at += 1;
            }
            proof {
                assert(steps.take(at as int) =~= steps);
            }
            match failure {
                Some(diagnostic) => {
                    return Err(diagnostic);
                },
                None => ParserBody::Sequence { statements },
            }
        },
        RuleType::RuleChoice(sub_rule_names) => {
            let ghost alternatives = string_views(sub_rule_names@);
            let mut checks = StringHashSet::new();
            let mut arms: Vec<Arm> = Vec::new();
            let mut failure: Option<Diagnostic> = None;
            let mut at: usize = 0;
            proof {
                assert(arm_views(arms@) =~= Seq::<ArmSpec>::empty());
            }
            while at < sub_rule_names.len()
                invariant
                    at <= sub_rule_names@.len(),
                    g == grammar@,
                    alternatives == string_views(sub_rule_names@),
                    production_resolved(g, RuleTypeSpec::RuleChoice(alternatives)),
                    failure is None ==> forall|text: Seq<char>|
                        checks@.contains(text) <==> arm_conditions(arm_views(arms@)).contains(text),
                    match failure {
                        Some(diagnostic) => arms_of(g, rule@.rule_name, alternatives.take(at as int))
                            == Err::<Seq<ArmSpec>, DiagnosticSpec>(diagnostic@),
                        None => arms_of(g, rule@.rule_name, alternatives.take(at as int)) == Ok::<
                            Seq<ArmSpec>,
                            DiagnosticSpec,
                        >(arm_views(arms@)),
                    },
                decreases sub_rule_names@.len() - at,
            {
                proof {
                    assert(alternatives.take(at + 1).drop_last() =~= alternatives.take(at as int));
                }
                if failure.is_none() {
                    let rn = sub_rule_names[at].as_str();
                    match generate_check_if_can_start_rule(grammar, rn) {
                        Err(diagnostic) => {
                            failure = Some(diagnostic);
                        },
                        Ok(condition) => {
                            if checks.contains(condition.as_str()) {
                                failure = Some(
                                    Diagnostic::AmbiguousChoice {
                                        rule_name: rule.rule_name.clone(),
                                        matches: 2,
                                    },
                                );
                            } else {
                                let ghost before = arms@;
                                let ghost seen = arm_conditions(arm_views(before));
                                checks.insert(condition.clone());
                                let arm = Arm {
                                    condition,
                                    variant: to_type_name(rn),
                                    parser: to_parser_name(rn),
                                };
                                arms.push(arm);
                                proof {
                                    assert(arm_views(arms@) =~= arm_views(before).push(arm@));
                                    assert(arm_conditions(arm_views(arms@)) =~= seen.push(
                                        arm@.condition,
                                    ));
                                    assert forall|text: Seq<char>|
                                        checks@.contains(text) <==> seen.push(
                                            arm@.condition,
                                        ).contains(text) by {
                                        if seen.contains(text) {
                                            let k = choose|k: int|
                                                0 <= k < seen.len() && seen[k] == text;
                                            assert(seen.push(arm@.condition)[k] == text);
                                        }
                                        if text == arm@.condition {
                                            assert(seen.push(arm@.condition)[seen.len() as int]
                                                == text);
                                        }
                                    }
                                }
                            }
                        },
                    }
                }
                at += 1;
            }
            proof {
                assert(alternatives.take(at as int) =~= alternatives);
            }
            match failure {
                Some(diagnostic) => {
                    return Err(diagnostic);
                },
                None => ParserBody::Dispatch { arms },
            }
        },
    };
    Ok(
        ParserFunction {
            name: to_parser_name(rule.rule_name.as_str()),
            result_type: to_type_name(rule.rule_name.as_str()),
            body,
        },
    )
}

/// The types that stand for the rules of the grammar, one for each rule in
/// increasing order of name. A rule that has no type has a diagnostic in
/// its place, which leaves the others as they are. A reference to a rule
/// that the grammar does not define leaves nothing at all.
pub fn grammar_to_rust_types(grammar: &Grammar) -> (generated: Result<
    Vec<Result<TypeDeclaration, Diagnostic>>,
    Diagnostic,
>)
    requires
        grammar.wf(),
    ensures
        match generated {
            Ok(sections) => {
                &&& resolved(grammar@)
                &&& first_undefined(grammar@, grammar.rule_names()) is None
                &&& sections@.len() == grammar.rule_names().len()
                &&& forall|i: int|
                    0 <= i < sections@.len() ==> declared(#[trigger] sections@[i])
                        == type_declaration_of(grammar@[grammar.rule_names()[i]])
            },
            Err(diagnostic) => {
                &&& first_undefined(grammar@, grammar.rule_names()) matches Some(rule_name)
                &&& diagnostic@ == DiagnosticSpec::UndefinedRuleReference { rule_name }
            },
        },
{
    match grammar.undefined_reference() {
        Some(rule_name) => {
            return Err(Diagnostic::UndefinedRuleReference { rule_name });
        },
        None => {},
    }
    let mut sections: Vec<Result<TypeDeclaration, Diagnostic>> = Vec::new();
    let mut at: usize = 0;
    proof {
        grammar.lemma_rule_names();
    }
    while at < grammar.len()
        invariant
            grammar.wf(),
            at <= grammar.rule_names().len(),
            sections@.len() == at,
            forall|i: int|
                0 <= i < grammar.rule_names().len() ==> grammar@.contains_key(
                    #[trigger] grammar.rule_names()[i],
                ),
            forall|i: int|
                0 <= i < at ==> declared(#[trigger] sections@[i]) == type_declaration_of(
                    grammar@[grammar.rule_names()[i]],
                ),
        decreases grammar.rule_names().len() - at,
    {
        match grammar.get(grammar.rule_name_at(at).as_str()) {
            Some(rule) => {
                sections.push(type_declaration(rule));
            },
            None => {
                assert(grammar@.contains_key(grammar.rule_names()[at as int]));
                assert(false);
            },
        }
        at += 1;
    }
    Ok(sections)
}

/// The functions that parse the rules of the grammar, one for each rule in
/// increasing order of name. A rule that has no function has a diagnostic
/// in its place, which leaves the others as they are. A reference to a rule
/// that the grammar does not define leaves nothing at all.
pub fn grammar_to_rust_parsers(grammar: &Grammar) -> (generated: Result<
    Vec<Result<ParserFunction, Diagnostic>>,
    Diagnostic,
>)
    requires
        grammar.wf(),
    ensures
        match generated {
            Ok(sections) => {
                &&& resolved(grammar@)
                &&& first_undefined(grammar@, grammar.rule_names()) is None
                &&& sections@.len() == grammar.rule_names().len()
                &&& forall|i: int|
                    0 <= i < sections@.len() ==> defined(#[trigger] sections@[i])
                        == parser_function_of(grammar@, grammar@[grammar.rule_names()[i]])
            },
            Err(diagnostic) => {
                &&& first_undefined(grammar@, grammar.rule_names()) matches Some(rule_name)
                &&& diagnostic@ == DiagnosticSpec::UndefinedRuleReference { rule_name }
            },
        },
{
    match grammar.undefined_reference() {
        Some(rule_name) => {
            return Err(Diagnostic::UndefinedRuleReference { rule_name });
        },
        None => {},
    }
    let mut sections: Vec<Result<ParserFunction, Diagnostic>> = Vec::new();
    let mut at: usize = 0;
    proof {
        grammar.lemma_rule_names();
    }
    while at < grammar.len()
        invariant
            grammar.wf(),
            resolved(grammar@),
            at <= grammar.rule_names().len(),
            sections@.len() == at,
            forall|i: int|
                0 <= i < grammar.rule_names().len() ==> grammar@.contains_key(
                    #[trigger] grammar.rule_names()[i],
                ),
            forall|i: int|
                0 <= i < at ==> defined(#[trigger] sections@[i]) == parser_function_of(
                    grammar@,
                    grammar@[grammar.rule_names()[i]],
                ),
        decreases grammar.rule_names().len() - at,
    {
        match grammar.get(grammar.rule_name_at(at).as_str()) {
            Some(rule) => {
                sections.push(parser_function(grammar, rule));
            },
            None => {
                assert(grammar@.contains_key(grammar.rule_names()[at as int]));
                assert(false);
            },
        }
        at += 1;
    }
    Ok(sections)
}

/// The lines that every generated source begins with: the helpers that the
/// parser functions call.
pub open spec fn prelude_lines() -> Seq<Seq<char>> {
    seq![
        "use regex::Regex;"@,
        ""@,
        "fn torpel_consume_token(token: &str, input: &mut Vec<&str>) {"@,
        "  if input[0] == token {"@,
        "    input.remove(0).to_string();"@,
        "  } else {"@,
        "    panic!(\"unexpected token: expected \\\"{}\\\" at {:?}\", token, input)"@,
        "  }"@,
        "}"@,
        ""@,
        "fn torpel_is_valid_user_specified_name(token: &str) -> bool {"@,
        "  lazy_static! {"@,
        "    static ref RE: Regex = Regex::new(\"^[A-Z][a-zA-Z-]*$\").unwrap();"@,
        "  }"@,
        "  return RE.is_match(token);"@,
        "}"@,
        ""@,
        "fn torpel_read_user_specified_name(input: &mut Vec<&str>) -> String {"@,
        "  if torpel_is_valid_user_specified_name(input[0]) {"@,
        "    return input.remove(0).to_string();"@,
        "  } else {"@,
        "    panic!(\"unexpected token: expected user specified name at {:?}\", input)"@,
        "  }"@,
        "}"@,
    ]
}

/// The helpers that the parser functions call, as lines of source text.
pub fn rust_prelude() -> (lines: Vec<String>)
    ensures
        string_views(lines@) == prelude_lines(),
{
    let mut lines: Vec<String> = Vec::new();
    put(&mut lines, String::from_str("use regex::Regex;"));
    put(&mut lines, String::from_str(""));
    put(
        &mut lines,
        String::from_str(
            "fn torpel_consume_token(token: &str, input: &mut Vec<&str>) {",
        ),
    );
    put(&mut lines, String::from_str("  if input[0] == token {"));
    put(&mut lines, String::from_str("    input.remove(0).to_string();"));
    put(&mut lines, String::from_str("  } else {"));
    put(
        &mut lines,
        String::from_str(
            "    panic!(\"unexpected token: expected \\\"{}\\\" at {:?}\", token, input)",
        ),
    );
    put(&mut lines, String::from_str("  }"));
    put(&mut lines, String::from_str("}"));
    put(&mut lines, String::from_str(""));
    put(
        &mut lines,
        String::from_str(
            "fn torpel_is_valid_user_specified_name(token: &str) -> bool {",
        ),
    );
    put(&mut lines, String::from_str("  lazy_static! {"));
    put(
        &mut lines,
        String::from_str(
            "    static ref RE: Regex = Regex::new(\"^[A-Z][a-zA-Z-]*$\").unwrap();",
        ),
    );
    put(&mut lines, String::from_str("  }"));
    put(&mut lines, String::from_str("  return RE.is_match(token);"));
    put(&mut lines, String::from_str("}"));
    put(&mut lines, String::from_str(""));
    put(
        &mut lines,
        String::from_str(
            "fn torpel_read_user_specified_name(input: &mut Vec<&str>) -> String {",
        ),
    );
    put(&mut lines, String::from_str("  if torpel_is_valid_user_specified_name(input[0]) {"));
    put(&mut lines, String::from_str("    return input.remove(0).to_string();"));
    put(&mut lines, String::from_str("  } else {"));
    put(
        &mut lines,
        String::from_str(
            "    panic!(\"unexpected token: expected user specified name at {:?}\", input)",
        ),
    );
    put(&mut lines, String::from_str("  }"));
    put(&mut lines, String::from_str("}"));
    lines
}

/// The lines of the types that came about, in order.
pub open spec fn rendered_types(sections: Seq<Result<TypeDeclarationSpec, DiagnosticSpec>>) -> Seq<
    Seq<char>,
>
    decreases sections.len(),
{
    if sections.len() == 0 {
        Seq::empty()
    } else {
        let front = rendered_types(sections.drop_last());
        match sections.last() {
            Ok(declaration) => front + type_lines(declaration),
            Err(_) => front,
        }
    }
}

/// The lines of the parser functions that came about, in order.
pub open spec fn rendered_parsers(sections: Seq<Result<ParserFunctionSpec, DiagnosticSpec>>) -> Seq<
    Seq<char>,
>
    decreases sections.len(),
{
    if sections.len() == 0 {
        Seq::empty()
    } else {
        let front = rendered_parsers(sections.drop_last());
        match sections.last() {
            Ok(function) => front + parser_lines(function),
            Err(_) => front,
        }
    }
}

/// The diagnostics of the sections that did not come about, in order.
pub open spec fn refused<T>(sections: Seq<Result<T, DiagnosticSpec>>) -> Seq<DiagnosticSpec>
    decreases sections.len(),
{
    if sections.len() == 0 {
        Seq::empty()
    } else {
        let front = refused(sections.drop_last());
        match sections.last() {
            Ok(_) => front,
            Err(diagnostic) => front.push(diagnostic),
        }
    }
}

/// The type of each of the rules `names`, in order.
pub open spec fn type_sections(g: GrammarSpec, names: Seq<Seq<char>>) -> Seq<
    Result<TypeDeclarationSpec, DiagnosticSpec>,
> {
    names.map_values(|name: Seq<char>| type_declaration_of(g[name]))
}

/// The parser function of each of the rules `names`, in order.
pub open spec fn parser_sections(g: GrammarSpec, names: Seq<Seq<char>>) -> Seq<
    Result<ParserFunctionSpec, DiagnosticSpec>,
> {
    names.map_values(|name: Seq<char>| parser_function_of(g, g[name]))
}

/// Four empty lines.
pub open spec fn gap() -> Seq<Seq<char>> {
    seq![""@, ""@, ""@, ""@]
}

/// A source text with the diagnostics of what it leaves out.
pub struct SourceSpec {
    pub lines: Seq<Seq<char>>,
    pub diagnostics: Seq<DiagnosticSpec>,
}

/// The source that is generated from a grammar: the helpers, then the types
/// of all rules, then their parser functions, each group behind four empty
/// lines and in increasing order of rule name. A rule whose type or function
/// is impossible is left out of that group and has its diagnostic recorded,
/// those of the types first. A reference to a rule that the grammar does
/// not define leaves no source at all.
pub open spec fn source_of(g: GrammarSpec, names: Seq<Seq<char>>) -> Result<
    SourceSpec,
    DiagnosticSpec,
> {
    match first_undefined(g, names) {
        Some(rule_name) => Err(DiagnosticSpec::UndefinedRuleReference { rule_name }),
        None => Ok(
            SourceSpec {
                lines: prelude_lines() + gap() + rendered_types(type_sections(g, names)) + gap()
                    + rendered_parsers(parser_sections(g, names)),
                diagnostics: refused(type_sections(g, names)) + refused(
                    parser_sections(g, names),
                ),
            },
        ),
    }
}

/// A generated source text with the diagnostics of what it leaves out.
#[derive(Debug)]
pub struct GeneratedSource {
    pub lines: Vec<String>,
    pub diagnostics: Vec<Diagnostic>,
}

impl View for GeneratedSource {
    type V = SourceSpec;

    open spec fn view(&self) -> SourceSpec {
        SourceSpec {
            lines: string_views(self.lines@),
            diagnostics: diagnostic_views(self.diagnostics@),
        }
    }
}

/// Four empty lines.
fn put_gap(lines: &mut Vec<String>)
    ensures
        string_views(final(lines)@) == string_views(old(lines)@) + gap(),
{
    put(lines, String::from_str(""));
    put(lines, String::from_str(""));
    put(lines, String::from_str(""));
    put(lines, String::from_str(""));
}

/// Generates the source of a parser for the grammar.
pub fn generate(grammar: &Grammar) -> (generated: Result<GeneratedSource, Diagnostic>)
    requires
        grammar.wf(),
    ensures
        match generated {
            Ok(source) => source_of(grammar@, grammar.rule_names()) == Ok::<
                SourceSpec,
                DiagnosticSpec,
            >(source@),
            Err(diagnostic) => source_of(grammar@, grammar.rule_names()) == Err::<
                SourceSpec,
                DiagnosticSpec,
            >(diagnostic@),
        },
{
    let parsers = match grammar_to_rust_parsers(grammar) {
        Ok(parsers) => parsers,
        Err(diagnostic) => {
            return Err(diagnostic);
        },
    };
    let types = match grammar_to_rust_types(grammar) {
        Ok(types) => types,
        Err(diagnostic) => {
            return Err(diagnostic);
        },
    };
    let ghost g = grammar@;
    let ghost names = grammar.rule_names();
    let ghost type_values = type_sections(g, names);
    let ghost parser_values = parser_sections(g, names);
    let mut lines = rust_prelude();
    let mut diagnostics: Vec<Diagnostic> = Vec::new();
    put_gap(&mut lines);
    let ghost head = string_views(lines@);
    let mut at: usize = 0;
    while at < types.len()
        invariant
            at <= types@.len(),
            types@.len() == names.len(),
            type_values == type_sections(g, names),
            forall|i: int|
                0 <= i < types@.len() ==> declared(#[trigger] types@[i]) == type_declaration_of(
                    g[names[i]],
                ),
            string_views(lines@) == head + rendered_types(type_values.take(at as int)),
            diagnostic_views(diagnostics@) == refused(type_values.take(at as int)),
        decreases types@.len() - at,
    {
        proof {
            assert(type_values.take(at + 1).drop_last() =~= type_values.take(at as int));
        }
        match &types[at] {
            Ok(declaration) => {
                put_all(&mut lines, declaration.render());
            },
            Err(diagnostic) => {
                let ghost before = diagnostics@;
                diagnostics.push(diagnostic.clone());
            },
        }
        at += 1;
    }
    proof {
        assert(type_values.take(at as int) =~= type_values);
    }
    put_gap(&mut lines);
    let ghost head = string_views(lines@);
    let ghost noted = diagnostic_views(diagnostics@);
    let mut at: usize = 0;
    while at < parsers.len()
        invariant
            at <= parsers@.len(),
            parsers@.len() == names.len(),
            parser_values == parser_sections(g, names),
            forall|i: int|
                0 <= i < parsers@.len() ==> defined(#[trigger] parsers@[i]) == parser_function_of(
                    g,
                    g[names[i]],
                ),
            string_views(lines@) == head + rendered_parsers(parser_values.take(at as int)),
            diagnostic_views(diagnostics@) == noted + refused(parser_values.take(at as int)),
        decreases parsers@.len() - at,
    {
        proof {
            assert(parser_values.take(at + 1).drop_last() =~= parser_values.take(at as int));
        }
        match &parsers[at] {
            Ok(function) => {
                put_all(&mut lines, function.render());
            },
            Err(diagnostic) => {
                let ghost before = diagnostics@;
                diagnostics.push(diagnostic.clone());
                assert(diagnostic_views(diagnostics@) =~= diagnostic_views(before).push(
                    diagnostic@,
                ));
            },
        }
        at += 1;
    }
    proof {
        assert(parser_values.take(at as int) =~= parser_values);
    }
    Ok(GeneratedSource { lines, diagnostics })
}

} // verus!
