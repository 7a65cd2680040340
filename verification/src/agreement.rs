//! The parser of [`crate::torpel`] and the interpreter agree: a program
//! that the parser takes is taken by the interpreter on the Torpel grammar
//! too, token by token, without a diagnostic.

use vstd::prelude::*;
use crate::diagnostic::DiagnosticSpec;
use crate::grammar::{ActionSpec, GrammarSpec, RuleSpec, RuleTypeSpec};
use crate::interpreter::{
    Outcome, START_RULE, repeat_spec, run_action_spec, run_actions_spec, run_rule_spec,
    starting_alternatives, undecided_alternatives,
};
use crate::oracle::{can_start, start_decidable};
use crate::production::{ActionTrace, RuleTrace};
use crate::shapes::is_user_specified_name;
use crate::text::lookahead;
use crate::torpel::{
    ENUMERATION_ALTERNATIVE_NAME, NewTypeSpec, STRUCTURE_FIELD_NAME, StartSpec, TYPE_DEFINITION,
    TYPE_NAME, TypeDefinitionSpec, bracketed_names_spec, lemma_new_type_shortens,
    more_names_spec, more_types_spec, new_type_spec, start_spec, type_definition_spec,
};

verus! {

pub const NEW_TYPE: &'static str = "<NEW-TYPE>";

pub const STRUCTURE: &'static str = "<STRUCTURE>";

pub const ENUMERATION: &'static str = "<ENUMERATION>";

/// A rule for a user-specified name.
pub open spec fn name_rule(rule_name: Seq<char>) -> RuleSpec {
    RuleSpec { rule_name, rule_type: RuleTypeSpec::UserSpecifiedName }
}

/// A rule for a list of names between a keyword and brackets.
pub open spec fn bracketed_rule(
    rule_name: Seq<char>,
    keyword: Seq<char>,
    opening: Seq<char>,
    item: Seq<char>,
    separator: Seq<char>,
    closing: Seq<char>,
) -> RuleSpec {
    RuleSpec {
        rule_name,
        rule_type: RuleTypeSpec::Actions(
            seq![
                ActionSpec::ConsumeToken(keyword),
                ActionSpec::ConsumeToken(opening),
                ActionSpec::RepeatedRuleNameWithSeparator { rule_name: item, separator },
                ActionSpec::ConsumeToken(closing),
            ],
        ),
    }
}

/// The rule of a type declaration.
pub open spec fn new_type_rule() -> RuleSpec {
    RuleSpec {
        rule_name: NEW_TYPE@,
        rule_type: RuleTypeSpec::Actions(
            seq![
                ActionSpec::ConsumeToken("new-type"@),
                ActionSpec::RuleName(TYPE_NAME@),
                ActionSpec::RuleName(TYPE_DEFINITION@),
            ],
        ),
    }
}

/// The Torpel grammar as a rule table.
pub open spec fn torpel_grammar() -> GrammarSpec {
    map![
        START_RULE@ => RuleSpec {
            rule_name: START_RULE@,
            rule_type: RuleTypeSpec::Actions(
                seq![
                    ActionSpec::RepeatedRuleNameWithSeparator {
                        rule_name: NEW_TYPE@,
                        separator: ";"@,
                    },
                ],
            ),
        },
        NEW_TYPE@ => new_type_rule(),
        TYPE_DEFINITION@ => RuleSpec {
            rule_name: TYPE_DEFINITION@,
            rule_type: RuleTypeSpec::RuleChoice(seq![STRUCTURE@, ENUMERATION@]),
        },
        STRUCTURE@ => bracketed_rule(
            STRUCTURE@,
            "structure"@,
            "{"@,
            STRUCTURE_FIELD_NAME@,
            ","@,
            "}"@,
        ),
        ENUMERATION@ => bracketed_rule(
            ENUMERATION@,
            "enumeration"@,
            "["@,
            ENUMERATION_ALTERNATIVE_NAME@,
            "|"@,
            "]"@,
        ),
        TYPE_NAME@ => name_rule(TYPE_NAME@),
        STRUCTURE_FIELD_NAME@ => name_rule(STRUCTURE_FIELD_NAME@),
        ENUMERATION_ALTERNATIVE_NAME@ => name_rule(ENUMERATION_ALTERNATIVE_NAME@),
    ]
}

/// What the interpreter produces for a list of names.
pub open spec fn name_traces(rule_name: Seq<char>, names: Seq<Seq<char>>) -> Seq<RuleTrace> {
    names.map_values(
        |name: Seq<char>| RuleTrace::UserSpecifiedName { rule_name, user_specified_name: name },
    )
}

/// What the interpreter produces for a list of names between a keyword and
/// brackets.
pub open spec fn bracketed_trace(
    rule_name: Seq<char>,
    keyword: Seq<char>,
    opening: Seq<char>,
    item: Seq<char>,
    closing: Seq<char>,
    names: Seq<Seq<char>>,
) -> RuleTrace {
    RuleTrace::RuleActionSequence {
        rule_name,
        actions: seq![
            ActionTrace::Consume(keyword),
            ActionTrace::Consume(opening),
            ActionTrace::Rules(name_traces(item, names)),
            ActionTrace::Consume(closing),
        ],
    }
}

/// What the interpreter produces for a type definition.
pub open spec fn type_definition_trace(definition: TypeDefinitionSpec) -> RuleTrace {
    match definition {
        TypeDefinitionSpec::Structure(structure) => bracketed_trace(
            STRUCTURE@,
            "structure"@,
            "{"@,
            STRUCTURE_FIELD_NAME@,
            "}"@,
            structure.structure_field_name,
        ),
        TypeDefinitionSpec::Enumeration(enumeration) => bracketed_trace(
            ENUMERATION@,
            "enumeration"@,
            "["@,
            ENUMERATION_ALTERNATIVE_NAME@,
            "]"@,
            enumeration.enumeration_alternative_name,
        ),
    }
}

/// What the interpreter produces for a type declaration.
pub open spec fn new_type_trace(new_type: NewTypeSpec) -> RuleTrace {
    RuleTrace::RuleActionSequence {
        rule_name: NEW_TYPE@,
        actions: seq![
            ActionTrace::Consume("new-type"@),
            ActionTrace::Rules(
                seq![
                    RuleTrace::UserSpecifiedName {
                        rule_name: TYPE_NAME@,
                        user_specified_name: new_type.name,
                    },
                ],
            ),
            ActionTrace::Rules(seq![type_definition_trace(new_type.type_definition)]),
        ],
    }
}

/// What the interpreter produces for type declarations.
pub open spec fn new_type_traces(types: Seq<NewTypeSpec>) -> Seq<RuleTrace> {
    types.map_values(|new_type: NewTypeSpec| new_type_trace(new_type))
}

/// What the interpreter produces for a program.
pub open spec fn start_trace(start: StartSpec) -> RuleTrace {
    RuleTrace::RuleActionSequence {
        rule_name: START_RULE@,
        actions: seq![ActionTrace::Rules(new_type_traces(start.new_type))],
    }
}

/// A step that ends with `value` and `rest` and records nothing.
pub open spec fn clean<T>(value: T, rest: Seq<Seq<char>>) -> Option<Outcome<T>> {
    Some(Outcome { value, rest, log: Seq::empty() })
}

/// The rules of the Torpel grammar, each under its name.
pub proof fn lemma_torpel_grammar()
    ensures
        torpel_grammar()[START_RULE@].rule_name == START_RULE@,
        torpel_grammar()[START_RULE@].rule_type == RuleTypeSpec::Actions(
            seq![
                ActionSpec::RepeatedRuleNameWithSeparator { rule_name: NEW_TYPE@, separator: ";"@ },
            ],
        ),
        torpel_grammar()[NEW_TYPE@] == new_type_rule(),
        torpel_grammar()[TYPE_DEFINITION@] == (RuleSpec {
            rule_name: TYPE_DEFINITION@,
            rule_type: RuleTypeSpec::RuleChoice(seq![STRUCTURE@, ENUMERATION@]),
        }),
        torpel_grammar()[STRUCTURE@] == bracketed_rule(
            STRUCTURE@,
            "structure"@,
            "{"@,
            STRUCTURE_FIELD_NAME@,
            ","@,
            "}"@,
        ),
        torpel_grammar()[ENUMERATION@] == bracketed_rule(
            ENUMERATION@,
            "enumeration"@,
            "["@,
            ENUMERATION_ALTERNATIVE_NAME@,
            "|"@,
            "]"@,
        ),
        torpel_grammar()[TYPE_NAME@] == name_rule(TYPE_NAME@),
        torpel_grammar()[STRUCTURE_FIELD_NAME@] == name_rule(STRUCTURE_FIELD_NAME@),
        torpel_grammar()[ENUMERATION_ALTERNATIVE_NAME@] == name_rule(ENUMERATION_ALTERNATIVE_NAME@),
        "structure"@ != "enumeration"@,
{
    reveal_strlit("<<START>>");
    reveal_strlit("<NEW-TYPE>");
    reveal_strlit("<TYPE-DEFINITION>");
    reveal_strlit("<STRUCTURE>");
    reveal_strlit("<ENUMERATION>");
    reveal_strlit("<TYPE-NAME>");
    reveal_strlit("<STRUCTURE-FIELD-NAME>");
    reveal_strlit("<ENUMERATION-ALTERNATIVE-NAME>");
    reveal_strlit("structure");
    reveal_strlit("enumeration");
    assert("structure"@.len() == 9);
    assert(NEW_TYPE@.len() == 10);
    assert(TYPE_DEFINITION@.len() == 17);
    assert(STRUCTURE@.len() == 11);
    assert(ENUMERATION@.len() == 13);
    assert(STRUCTURE@[1] != TYPE_NAME@[1]);
}

/// The names that follow the first of a list are read alike by the parser
/// and by the interpreter.
pub proof fn lemma_more_names_agree(
    g: GrammarSpec,
    rule_name: Seq<char>,
    separator: Seq<char>,
    tokens: Seq<Seq<char>>,
    depth: nat,
)
    requires
        depth >= 1,
        g[rule_name] == name_rule(rule_name),
    ensures
        repeat_spec(g, rule_name, separator, tokens, depth) == clean(
            name_traces(rule_name, more_names_spec(separator, tokens).0),
            more_names_spec(separator, tokens).1,
        ),
    decreases tokens.len(),
{
    let none = Seq::<Seq<char>>::empty();
    assert(name_traces(rule_name, none) =~= Seq::<RuleTrace>::empty());
    if lookahead(tokens) == Some(separator) {
        let after = tokens.skip(1);
        if after.len() > 0 && is_user_specified_name(after[0]) {
            let behind = after.skip(1);
            lemma_more_names_agree(g, rule_name, separator, behind, depth);
            let more = more_names_spec(separator, behind);
            let one = RuleTrace::UserSpecifiedName { rule_name, user_specified_name: after[0] };
            assert(run_rule_spec(g, rule_name, after, depth) == clean(one, behind));
            assert(name_traces(rule_name, seq![after[0]] + more.0) =~= seq![one] + name_traces(
                rule_name,
                more.0,
            ));
        }
    }
}

/// A list of names between a keyword and brackets is read alike by the
/// parser and by the interpreter.
pub proof fn lemma_bracketed_agree(
    g: GrammarSpec,
    rule_name: Seq<char>,
    keyword: Seq<char>,
    opening: Seq<char>,
    item: Seq<char>,
    separator: Seq<char>,
    closing: Seq<char>,
    tokens: Seq<Seq<char>>,
    depth: nat,
)
    requires
        depth >= 2,
        g[rule_name] == bracketed_rule(rule_name, keyword, opening, item, separator, closing),
        g[item] == name_rule(item),
        bracketed_names_spec(keyword, opening, item, separator, closing, tokens) is Ok,
    ensures
        run_rule_spec(g, rule_name, tokens, depth) == clean(
            bracketed_trace(
                rule_name,
                keyword,
                opening,
                item,
                closing,
                bracketed_names_spec(keyword, opening, item, separator, closing, tokens)->Ok_0.0,
            ),
            bracketed_names_spec(keyword, opening, item, separator, closing, tokens)->Ok_0.1,
        ),
{
    let inner = (depth - 1) as nat;
    let repetition = ActionSpec::RepeatedRuleNameWithSeparator { rule_name: item, separator };
    let four = seq![
        ActionSpec::ConsumeToken(keyword),
        ActionSpec::ConsumeToken(opening),
        repetition,
        ActionSpec::ConsumeToken(closing),
    ];
    let three = seq![
        ActionSpec::ConsumeToken(keyword),
        ActionSpec::ConsumeToken(opening),
        repetition,
    ];
    let two = seq![ActionSpec::ConsumeToken(keyword), ActionSpec::ConsumeToken(opening)];
    let one = seq![ActionSpec::ConsumeToken(keyword)];
    assert(four.drop_last() =~= three);
    assert(three.drop_last() =~= two);
    assert(two.drop_last() =~= one);
    let after_keyword = tokens.skip(1);
    let after_opening = after_keyword.skip(1);
    let first = after_opening[0];
    let after_first = after_opening.skip(1);
    let more = more_names_spec(separator, after_first);
    let names = seq![first] + more.0;
    let rest = more.1.skip(1);
    assert(run_action_spec(g, one.last(), tokens, inner) == clean(
        ActionTrace::Consume(keyword),
        after_keyword,
    ));
    assert(run_action_spec(g, two.last(), after_keyword, inner) == clean(
        ActionTrace::Consume(opening),
        after_opening,
    ));
    assert(run_action_spec(g, four.last(), more.1, inner) == clean(
        ActionTrace::Consume(closing),
        rest,
    ));
    assert(run_actions_spec(g, one, tokens, inner) == clean(
        seq![ActionTrace::Consume(keyword)],
        after_keyword,
    )) by {
        assert(run_actions_spec(g, one.drop_last(), tokens, inner) == clean(
            Seq::<ActionTrace>::empty(),
            tokens,
        ));
    }
    assert(run_actions_spec(g, two, tokens, inner) == clean(
        seq![ActionTrace::Consume(keyword), ActionTrace::Consume(opening)],
        after_opening,
    )) by {
        assert(seq![ActionTrace::Consume(keyword)].push(ActionTrace::Consume(opening))
            =~= seq![ActionTrace::Consume(keyword), ActionTrace::Consume(opening)]);
    }
    lemma_more_names_agree(g, item, separator, after_first, inner);
    let listed = ActionTrace::Rules(name_traces(item, names));
    assert(run_action_spec(g, repetition, after_opening, inner) == clean(listed, more.1)) by {
        let head = RuleTrace::UserSpecifiedName { rule_name: item, user_specified_name: first };
        assert(name_traces(item, names) =~= seq![head] + name_traces(item, more.0));
    }
    assert(run_actions_spec(g, three, tokens, inner) == clean(
        seq![ActionTrace::Consume(keyword), ActionTrace::Consume(opening), listed],
        more.1,
    )) by {
        assert(seq![ActionTrace::Consume(keyword), ActionTrace::Consume(opening)].push(listed)
            =~= seq![ActionTrace::Consume(keyword), ActionTrace::Consume(opening), listed]);
    }
    assert(run_actions_spec(g, four, tokens, inner) == clean(
        seq![
            ActionTrace::Consume(keyword),
            ActionTrace::Consume(opening),
            listed,
            ActionTrace::Consume(closing),
        ],
        rest,
    )) by {
        assert(seq![ActionTrace::Consume(keyword), ActionTrace::Consume(opening), listed].push(
            ActionTrace::Consume(closing),
        ) =~= seq![
            ActionTrace::Consume(keyword),
            ActionTrace::Consume(opening),
            listed,
            ActionTrace::Consume(closing),
        ]);
    }
}

/// A type definition is read alike by the parser and by the interpreter.
pub proof fn lemma_type_definition_agrees(tokens: Seq<Seq<char>>, depth: nat)
    requires
        depth >= 3,
        type_definition_spec(tokens) is Ok,
    ensures
        run_rule_spec(torpel_grammar(), TYPE_DEFINITION@, tokens, depth) == clean(
            type_definition_trace(type_definition_spec(tokens)->Ok_0.0),
            type_definition_spec(tokens)->Ok_0.1,
        ),
{
    lemma_torpel_grammar();
    let g = torpel_grammar();
    let inner = (depth - 1) as nat;
    let token = tokens[0];
    reveal_with_fuel(starting_alternatives, 3);
    reveal_with_fuel(undecided_alternatives, 3);
    if token == "structure"@ {
        lemma_bracketed_agree(
            g,
            STRUCTURE@,
            "structure"@,
            "{"@,
            STRUCTURE_FIELD_NAME@,
            ","@,
            "}"@,
            tokens,
            inner,
        );
    } else {
        lemma_bracketed_agree(
            g,
            ENUMERATION@,
            "enumeration"@,
            "["@,
            ENUMERATION_ALTERNATIVE_NAME@,
            "|"@,
            "]"@,
            tokens,
            inner,
        );
    }
}

/// A type declaration is read alike by the parser and by the interpreter.
pub proof fn lemma_new_type_agrees(tokens: Seq<Seq<char>>, depth: nat)
    requires
        depth >= 4,
        new_type_spec(tokens) is Ok,
    ensures
        run_rule_spec(torpel_grammar(), NEW_TYPE@, tokens, depth) == clean(
            new_type_trace(new_type_spec(tokens)->Ok_0.0),
            new_type_spec(tokens)->Ok_0.1,
        ),
{
    lemma_torpel_grammar();
    let g = torpel_grammar();
    let inner = (depth - 1) as nat;
    let keyword = ActionSpec::ConsumeToken("new-type"@);
    let named = ActionSpec::RuleName(TYPE_NAME@);
    let defined = ActionSpec::RuleName(TYPE_DEFINITION@);
    let three = seq![keyword, named, defined];
    let two = seq![keyword, named];
    let one = seq![keyword];
    assert(three.drop_last() =~= two);
    assert(two.drop_last() =~= one);
    let after_keyword = tokens.skip(1);
    let after_name = after_keyword.skip(1);
    let parsed = new_type_spec(tokens)->Ok_0;
    let name = RuleTrace::UserSpecifiedName {
        rule_name: TYPE_NAME@,
        user_specified_name: parsed.0.name,
    };
    let definition = type_definition_trace(parsed.0.type_definition);
    lemma_type_definition_agrees(after_name, inner);
    assert(run_action_spec(g, keyword, tokens, inner) == clean(
        ActionTrace::Consume("new-type"@),
        after_keyword,
    ));
    assert(run_action_spec(g, named, after_keyword, inner) == clean(
        ActionTrace::Rules(seq![name]),
        after_name,
    ));
    assert(run_action_spec(g, defined, after_name, inner) == clean(
        ActionTrace::Rules(seq![definition]),
        parsed.1,
    ));
    assert(run_actions_spec(g, one, tokens, inner) == clean(
        seq![ActionTrace::Consume("new-type"@)],
        after_keyword,
    )) by {
        assert(run_actions_spec(g, one.drop_last(), tokens, inner) == clean(
            Seq::<ActionTrace>::empty(),
            tokens,
        ));
    }
    assert(run_actions_spec(g, two, tokens, inner) == clean(
        seq![ActionTrace::Consume("new-type"@), ActionTrace::Rules(seq![name])],
        after_name,
    )) by {
        assert(seq![ActionTrace::Consume("new-type"@)].push(ActionTrace::Rules(seq![name]))
            =~= seq![ActionTrace::Consume("new-type"@), ActionTrace::Rules(seq![name])]);
    }
    assert(run_actions_spec(g, three, tokens, inner) == clean(
        seq![
            ActionTrace::Consume("new-type"@),
            ActionTrace::Rules(seq![name]),
            ActionTrace::Rules(seq![definition]),
        ],
        parsed.1,
    )) by {
        assert(seq![ActionTrace::Consume("new-type"@), ActionTrace::Rules(seq![name])].push(
            ActionTrace::Rules(seq![definition]),
        ) =~= seq![
            ActionTrace::Consume("new-type"@),
            ActionTrace::Rules(seq![name]),
            ActionTrace::Rules(seq![definition]),
        ]);
    }
}

/// The type declarations that follow the first are read alike by the parser
/// and by the interpreter.
pub proof fn lemma_more_types_agree(tokens: Seq<Seq<char>>, depth: nat)
    requires
        depth >= 4,
        more_types_spec(tokens) is Ok,
    ensures
        repeat_spec(torpel_grammar(), NEW_TYPE@, ";"@, tokens, depth) == clean(
            new_type_traces(more_types_spec(tokens)->Ok_0.0),
            more_types_spec(tokens)->Ok_0.1,
        ),
    decreases tokens.len(),
{
    lemma_torpel_grammar();
    assert(new_type_traces(Seq::<NewTypeSpec>::empty()) =~= Seq::<RuleTrace>::empty());
    if lookahead(tokens) == Some(";"@) {
        let after = tokens.skip(1);
        if lookahead(after) == Some("new-type"@) {
            let parsed = new_type_spec(after)->Ok_0;
            lemma_new_type_agrees(after, depth);
            lemma_new_type_shortens(after);
            lemma_more_types_agree(parsed.1, depth);
            let more = more_types_spec(parsed.1)->Ok_0;
            assert(new_type_traces(seq![parsed.0] + more.0) =~= seq![new_type_trace(parsed.0)]
                + new_type_traces(more.0));
        }
    }
}

/// A program that the parser takes is taken by the interpreter on the
/// Torpel grammar in the same way: the same tokens are consumed, the
/// productions hold the same names in the same places, and no diagnostic
/// is recorded.
pub proof fn lemma_torpel_agrees(tokens: Seq<Seq<char>>, depth: nat)
    requires
        depth >= 5,
        start_spec(tokens) is Ok,
    ensures
        run_rule_spec(torpel_grammar(), START_RULE@, tokens, depth) == clean(
            start_trace(start_spec(tokens)->Ok_0.0),
            start_spec(tokens)->Ok_0.1,
        ),
{
    lemma_torpel_grammar();
    let g = torpel_grammar();
    let inner = (depth - 1) as nat;
    let repetition = ActionSpec::RepeatedRuleNameWithSeparator {
        rule_name: NEW_TYPE@,
        separator: ";"@,
    };
    let one = seq![repetition];
    let first = new_type_spec(tokens)->Ok_0;
    let more = more_types_spec(first.1)->Ok_0;
    let listed = ActionTrace::Rules(new_type_traces(seq![first.0] + more.0));
    lemma_new_type_agrees(tokens, inner);
    lemma_more_types_agree(first.1, inner);
    assert(new_type_traces(seq![first.0] + more.0) =~= seq![new_type_trace(first.0)]
        + new_type_traces(more.0));
    assert(run_action_spec(g, repetition, tokens, inner) == clean(listed, more.1));
    assert(run_actions_spec(g, one, tokens, inner) == clean(seq![listed], more.1)) by {
        assert(run_actions_spec(g, one.drop_last(), tokens, inner) == clean(
            Seq::<ActionTrace>::empty(),
            tokens,
        ));
    }
}

} // verus!
