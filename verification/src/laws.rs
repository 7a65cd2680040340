//! What holds of the interpreter and of the generator on every grammar and
//! every token stream.

use vstd::prelude::*;
use crate::declaration::ParserFunctionSpec;
use crate::diagnostic::DiagnosticSpec;
use crate::generator::{
    SourceSpec, arm_conditions, arms_of, parser_function_of, rendered_parsers, source_of,
    start_condition_of,
};
use crate::grammar::{
    ActionSpec, GrammarSpec, RuleSpec, RuleTypeSpec, first_undefined, lemma_first_undefined,
    production_resolved, resolved,
};
use crate::interpreter::{
    Outcome, START_RULE, interpret_spec, repeat_spec, run_action_spec, run_actions_spec,
    run_rule_spec, starting_alternatives,
};
use crate::text::{left_of, lemma_left_of_transitive, lookahead};
use crate::oracle::{can_start, start_decidable};
use crate::production::{ActionTrace, ParseTree, RuleTrace};

verus! {

broadcast use lemma_left_of_transitive;

/// A rule only takes tokens from the front of the stream: what it leaves is
/// the stream without some of its first tokens.
pub proof fn lemma_run_rule_shortens(
    g: GrammarSpec,
    rule_name: Seq<char>,
    tokens: Seq<Seq<char>>,
    depth: nat,
)
    ensures
        run_rule_spec(g, rule_name, tokens, depth) matches Some(done) ==> left_of(done.rest, tokens),
    decreases depth, 0nat, 0nat,
{
    if depth > 0 {
        match g[rule_name].rule_type {
            RuleTypeSpec::Actions(actions) => {
                lemma_run_actions_shorten(g, actions, tokens, (depth - 1) as nat);
            },
            RuleTypeSpec::UserSpecifiedName => {},
            RuleTypeSpec::RuleChoice(alternatives) => {
                if let Some(token) = lookahead(tokens) {
                    let starting = starting_alternatives(g, alternatives, token);
                    if starting.len() == 1 {
                        lemma_run_rule_shortens(g, starting[0], tokens, (depth - 1) as nat);
                    }
                }
            },
        }
    }
}

/// A sequence of actions only takes tokens from the front of the stream.
pub proof fn lemma_run_actions_shorten(
    g: GrammarSpec,
    actions: Seq<ActionSpec>,
    tokens: Seq<Seq<char>>,
    depth: nat,
)
    ensures
        run_actions_spec(g, actions, tokens, depth) matches Some(done) ==> left_of(
            done.rest,
            tokens,
        ),
    decreases depth, 3nat, actions.len(),
{
    if actions.len() > 0 {
        lemma_run_actions_shorten(g, actions.drop_last(), tokens, depth);
        if let Some(front) = run_actions_spec(g, actions.drop_last(), tokens, depth) {
            lemma_run_action_shortens(g, actions.last(), front.rest, depth);
        }
    }
}

/// An action only takes tokens from the front of the stream.
pub proof fn lemma_run_action_shortens(
    g: GrammarSpec,
    action: ActionSpec,
    tokens: Seq<Seq<char>>,
    depth: nat,
)
    ensures
        run_action_spec(g, action, tokens, depth) matches Some(done) ==> left_of(done.rest, tokens),
    decreases depth, 2nat, 0nat,
{
    match action {
        ActionSpec::ConsumeToken(expected) => {},
        ActionSpec::RuleName(rule_name) => {
            lemma_run_rule_shortens(g, rule_name, tokens, depth);
        },
        ActionSpec::RepeatedRuleNameWithSeparator { rule_name, separator } => {
            lemma_run_rule_shortens(g, rule_name, tokens, depth);
            if let Some(first) = run_rule_spec(g, rule_name, tokens, depth) {
                lemma_repeat_shortens(g, rule_name, separator, first.rest, depth);
            }
        },
        ActionSpec::Unknown(raw) => {},
    }
}

/// The further occurrences of a repetition only take tokens from the front
/// of the stream.
pub proof fn lemma_repeat_shortens(
    g: GrammarSpec,
    rule_name: Seq<char>,
    separator: Seq<char>,
    tokens: Seq<Seq<char>>,
    depth: nat,
)
    ensures
        repeat_spec(g, rule_name, separator, tokens, depth) matches Some(done) ==> left_of(
            done.rest,
            tokens,
        ),
    decreases depth, 1nat, tokens.len(),
{
    if lookahead(tokens) == Some(separator) {
        let after = tokens.skip(1);
        if let Some(next) = lookahead(after) {
            if can_start(g, rule_name, next) {
                lemma_run_rule_shortens(g, rule_name, after, depth);
                if let Some(one) = run_rule_spec(g, rule_name, after, depth) {
                    if one.rest.len() <= after.len() {
                        lemma_repeat_shortens(g, rule_name, separator, one.rest, depth);
                    }
                }
            }
        }
    }
}

/// A run that gets through with some depth gets through with any greater
/// depth, and comes to the same: the same production, the same tokens left,
/// the same diagnostics.
pub proof fn lemma_run_rule_depth(
    g: GrammarSpec,
    rule_name: Seq<char>,
    tokens: Seq<Seq<char>>,
    depth: nat,
    more: nat,
)
    requires
        depth <= more,
        run_rule_spec(g, rule_name, tokens, depth) is Some,
    ensures
        run_rule_spec(g, rule_name, tokens, more) == run_rule_spec(g, rule_name, tokens, depth),
    decreases depth, 0nat, 0nat,
{
    match g[rule_name].rule_type {
        RuleTypeSpec::Actions(actions) => {
            lemma_run_actions_depth(g, actions, tokens, (depth - 1) as nat, (more - 1) as nat);
        },
        RuleTypeSpec::UserSpecifiedName => {},
        RuleTypeSpec::RuleChoice(alternatives) => {
            if let Some(token) = lookahead(tokens) {
                let starting = starting_alternatives(g, alternatives, token);
                if starting.len() == 1 {
                    lemma_run_rule_depth(
                        g,
                        starting[0],
                        tokens,
                        (depth - 1) as nat,
                        (more - 1) as nat,
                    );
                }
            }
        },
    }
}

/// A sequence of actions comes to the same with any greater depth.
pub proof fn lemma_run_actions_depth(
    g: GrammarSpec,
    actions: Seq<ActionSpec>,
    tokens: Seq<Seq<char>>,
    depth: nat,
    more: nat,
)
    requires
        depth <= more,
        run_actions_spec(g, actions, tokens, depth) is Some,
    ensures
        run_actions_spec(g, actions, tokens, more) == run_actions_spec(g, actions, tokens, depth),
    decreases depth, 3nat, actions.len(),
{
    if actions.len() > 0 {
        lemma_run_actions_depth(g, actions.drop_last(), tokens, depth, more);
        let front = run_actions_spec(g, actions.drop_last(), tokens, depth)->0;
        lemma_run_action_depth(g, actions.last(), front.rest, depth, more);
    }
}

/// An action comes to the same with any greater depth.
pub proof fn lemma_run_action_depth(
    g: GrammarSpec,
    action: ActionSpec,
    tokens: Seq<Seq<char>>,
    depth: nat,
    more: nat,
)
    requires
        depth <= more,
        run_action_spec(g, action, tokens, depth) is Some,
    ensures
        run_action_spec(g, action, tokens, more) == run_action_spec(g, action, tokens, depth),
    decreases depth, 2nat, 0nat,
{
    match action {
        ActionSpec::ConsumeToken(expected) => {},
        ActionSpec::RuleName(rule_name) => {
            lemma_run_rule_depth(g, rule_name, tokens, depth, more);
        },
        ActionSpec::RepeatedRuleNameWithSeparator { rule_name, separator } => {
            lemma_run_rule_depth(g, rule_name, tokens, depth, more);
            let first = run_rule_spec(g, rule_name, tokens, depth)->0;
            lemma_repeat_depth(g, rule_name, separator, first.rest, depth, more);
        },
        ActionSpec::Unknown(raw) => {},
    }
}

/// The further occurrences of a repetition come to the same with any
/// greater depth.
pub proof fn lemma_repeat_depth(
    g: GrammarSpec,
    rule_name: Seq<char>,
    separator: Seq<char>,
    tokens: Seq<Seq<char>>,
    depth: nat,
    more: nat,
)
    requires
        depth <= more,
        repeat_spec(g, rule_name, separator, tokens, depth) is Some,
    ensures
        repeat_spec(g, rule_name, separator, tokens, more) == repeat_spec(
            g,
            rule_name,
            separator,
            tokens,
            depth,
        ),
    decreases depth, 1nat, tokens.len(),
{
    if lookahead(tokens) == Some(separator) {
        let after = tokens.skip(1);
        if let Some(next) = lookahead(after) {
            if can_start(g, rule_name, next) {
                lemma_run_rule_depth(g, rule_name, after, depth, more);
                let one = run_rule_spec(g, rule_name, after, depth)->0;
                lemma_repeat_depth(g, rule_name, separator, one.rest, depth, more);
            }
        }
    }
}

/// Reading a program a second time, with the same depth or with more, gives
/// the same parse tree, leaves the same tokens and records the same
/// diagnostics as the first time.
pub proof fn lemma_rerun_is_identical(
    g: GrammarSpec,
    rule_names: Seq<Seq<char>>,
    tokens: Seq<Seq<char>>,
    depth: nat,
    more: nat,
)
    requires
        depth <= more,
        interpret_spec(g, rule_names, tokens, depth) is Ok,
    ensures
        interpret_spec(g, rule_names, tokens, more) == interpret_spec(g, rule_names, tokens, depth),
{
    lemma_run_rule_depth(g, START_RULE@, tokens, depth, more);
}

/// A sequence of actions leaves no more than its first action does.
pub proof fn lemma_actions_after_first(
    g: GrammarSpec,
    actions: Seq<ActionSpec>,
    tokens: Seq<Seq<char>>,
    depth: nat,
)
    requires
        actions.len() >= 1,
        run_actions_spec(g, actions, tokens, depth) is Some,
    ensures
        run_action_spec(g, actions[0], tokens, depth) is Some,
        left_of(
            run_actions_spec(g, actions, tokens, depth)->0.rest,
            run_action_spec(g, actions[0], tokens, depth)->0.rest,
        ),
    decreases actions.len(),
{
    let front_actions = actions.drop_last();
    if actions.len() > 1 {
        lemma_actions_after_first(g, front_actions, tokens, depth);
        let front = run_actions_spec(g, front_actions, tokens, depth)->0;
        lemma_run_action_shortens(g, actions.last(), front.rest, depth);
    }
}

/// The start predicate keeps its word: a rule that could begin at the next
/// token takes that token when it is run.
pub proof fn lemma_start_is_progress(
    g: GrammarSpec,
    rule_name: Seq<char>,
    tokens: Seq<Seq<char>>,
    depth: nat,
)
    requires
        tokens.len() > 0,
        can_start(g, rule_name, tokens[0]),
        run_rule_spec(g, rule_name, tokens, depth) is Some,
    ensures
        left_of(run_rule_spec(g, rule_name, tokens, depth)->0.rest, tokens.skip(1)),
{
    match g[rule_name].rule_type {
        RuleTypeSpec::Actions(actions) => {
            lemma_actions_after_first(g, actions, tokens, (depth - 1) as nat);
        },
        RuleTypeSpec::UserSpecifiedName => {},
        RuleTypeSpec::RuleChoice(alternatives) => {},
    }
}

/// The generator has a start condition for a rule exactly where the start
/// predicate decides: both walk the grammar by the same rule.
pub proof fn lemma_condition_where_decidable(g: GrammarSpec, rule_name: Seq<char>)
    ensures
        (start_condition_of(g, rule_name) is Ok) == start_decidable(g[rule_name].rule_type),
        (start_condition_of(g, rule_name) is Err) ==> start_condition_of(g, rule_name) == Err::<
            Seq<char>,
            DiagnosticSpec,
        >(DiagnosticSpec::UndecidableStartPredicate { rule_name }),
{
}

/// A choice of which not exactly one alternative could begin at the next
/// token yields an error that carries the number of those that could, and
/// consumes nothing. No alternative is picked.
pub proof fn lemma_choice_counts_matches(
    g: GrammarSpec,
    rule_name: Seq<char>,
    tokens: Seq<Seq<char>>,
    depth: nat,
)
    requires
        depth > 0,
        tokens.len() > 0,
        g[rule_name].rule_type is RuleChoice,
        starting_alternatives(g, g[rule_name].rule_type->RuleChoice_0, tokens[0]).len() != 1,
    ensures
        run_rule_spec(g, rule_name, tokens, depth) matches Some(done) && done.rest == tokens
            && done.value == (RuleTrace::Error {
            rule_name: g[rule_name].rule_name,
            diagnostic: DiagnosticSpec::AmbiguousChoice {
                rule_name: g[rule_name].rule_name,
                matches: starting_alternatives(
                    g,
                    g[rule_name].rule_type->RuleChoice_0,
                    tokens[0],
                ).len(),
            },
        }),
{
}

/// Two alternatives that could both begin at the next token make two
/// matches: the choice yields an error with the count 2.
pub proof fn lemma_two_starting_alternatives(
    g: GrammarSpec,
    rule_name: Seq<char>,
    one: Seq<char>,
    other: Seq<char>,
    tokens: Seq<Seq<char>>,
    depth: nat,
)
    requires
        depth > 0,
        tokens.len() > 0,
        g[rule_name].rule_type == RuleTypeSpec::RuleChoice(seq![one, other]),
        can_start(g, one, tokens[0]),
        can_start(g, other, tokens[0]),
    ensures
        run_rule_spec(g, rule_name, tokens, depth) matches Some(done) && done.rest == tokens
            && done.value == (RuleTrace::Error {
            rule_name: g[rule_name].rule_name,
            diagnostic: DiagnosticSpec::AmbiguousChoice {
                rule_name: g[rule_name].rule_name,
                matches: 2,
            },
        }),
{
    reveal_with_fuel(starting_alternatives, 3);
}

/// A repetition whose first occurrence is not followed by the separator
/// yields that one occurrence and consumes nothing further.
pub proof fn lemma_repetition_without_separator(
    g: GrammarSpec,
    rule_name: Seq<char>,
    separator: Seq<char>,
    tokens: Seq<Seq<char>>,
    depth: nat,
)
    requires
        run_rule_spec(g, rule_name, tokens, depth) is Some,
        lookahead(run_rule_spec(g, rule_name, tokens, depth)->0.rest) != Some(separator),
    ensures
        run_action_spec(
            g,
            ActionSpec::RepeatedRuleNameWithSeparator { rule_name, separator },
            tokens,
            depth,
        ) == Some(
            Outcome {
                value: ActionTrace::Rules(seq![run_rule_spec(g, rule_name, tokens, depth)->0.value]),
                rest: run_rule_spec(g, rule_name, tokens, depth)->0.rest,
                log: run_rule_spec(g, rule_name, tokens, depth)->0.log,
            },
        ),
{
}

/// A separator behind which the rule cannot begin is consumed and dropped:
/// the repetition is over, no occurrence is added, and the tokens left are
/// those behind the separator. Where the rule's start is decidable, nothing
/// is recorded.
pub proof fn lemma_dangling_separator(
    g: GrammarSpec,
    rule_name: Seq<char>,
    separator: Seq<char>,
    tokens: Seq<Seq<char>>,
    depth: nat,
)
    requires
        lookahead(tokens) == Some(separator),
        lookahead(tokens.skip(1)) matches Some(next) ==> !can_start(g, rule_name, next),
    ensures
        repeat_spec(g, rule_name, separator, tokens, depth) matches Some(done)
            && done.value.len() == 0 && done.rest == tokens.skip(1) && (start_decidable(
            g[rule_name].rule_type,
        ) ==> done.log.len() == 0) && (forall|i: int|
            0 <= i < done.log.len() ==> #[trigger] done.log[i]
                == DiagnosticSpec::UndecidableStartPredicate { rule_name }),
{
}

/// How many separators the further occurrences of a repetition consume.
pub open spec fn separators_consumed(
    g: GrammarSpec,
    rule_name: Seq<char>,
    separator: Seq<char>,
    tokens: Seq<Seq<char>>,
    depth: nat,
) -> nat
    decreases tokens.len(),
{
    if lookahead(tokens) != Some(separator) {
        0
    } else {
        let after = tokens.skip(1);
        match lookahead(after) {
            None => 1,
            Some(next) => if can_start(g, rule_name, next) {
                match run_rule_spec(g, rule_name, after, depth) {
                    Some(one) => if one.rest.len() <= after.len() {
                        1 + separators_consumed(g, rule_name, separator, one.rest, depth)
                    } else {
                        1
                    },
                    None => 1,
                }
            } else {
                1
            },
        }
    }
}

/// Whether the further occurrences of a repetition end on a separator that
/// no occurrence follows.
pub open spec fn ends_on_separator(
    g: GrammarSpec,
    rule_name: Seq<char>,
    separator: Seq<char>,
    tokens: Seq<Seq<char>>,
    depth: nat,
) -> bool
    decreases tokens.len(),
{
    if lookahead(tokens) != Some(separator) {
        false
    } else {
        let after = tokens.skip(1);
        match lookahead(after) {
            None => true,
            Some(next) => if can_start(g, rule_name, next) {
                match run_rule_spec(g, rule_name, after, depth) {
                    Some(one) => one.rest.len() <= after.len() && ends_on_separator(
                        g,
                        rule_name,
                        separator,
                        one.rest,
                        depth,
                    ),
                    None => false,
                }
            } else {
                true
            },
        }
    }
}

/// Every separator that a repetition consumes is followed by one further
/// occurrence, but for a last separator that nothing follows: then there is
/// one occurrence fewer than the separators would call for.
pub proof fn lemma_occurrences_and_separators(
    g: GrammarSpec,
    rule_name: Seq<char>,
    separator: Seq<char>,
    tokens: Seq<Seq<char>>,
    depth: nat,
)
    requires
        repeat_spec(g, rule_name, separator, tokens, depth) is Some,
    ensures
        separators_consumed(g, rule_name, separator, tokens, depth) == repeat_spec(
            g,
            rule_name,
            separator,
            tokens,
            depth,
        )->0.value.len() + (if ends_on_separator(g, rule_name, separator, tokens, depth) {
            1nat
        } else {
            0nat
        }),
    decreases tokens.len(),
{
    if lookahead(tokens) == Some(separator) {
        let after = tokens.skip(1);
        if let Some(next) = lookahead(after) {
            if can_start(g, rule_name, next) {
                let one = run_rule_spec(g, rule_name, after, depth)->0;
                lemma_occurrences_and_separators(g, rule_name, separator, one.rest, depth);
            }
        }
    }
}

/// Where the arms of a choice come about, their conditions are the start
/// conditions of the alternatives, one for one.
pub proof fn lemma_arm_conditions(g: GrammarSpec, rule_name: Seq<char>, alternatives: Seq<Seq<char>>)
    requires
        arms_of(g, rule_name, alternatives) is Ok,
    ensures
        arms_of(g, rule_name, alternatives)->Ok_0.len() == alternatives.len(),
        forall|i: int|
            0 <= i < alternatives.len() ==> start_condition_of(g, #[trigger] alternatives[i]) == Ok::<
                Seq<char>,
                DiagnosticSpec,
            >(arms_of(g, rule_name, alternatives)->Ok_0[i].condition),
        forall|i: int, j: int|
            0 <= i < j < alternatives.len() ==> arms_of(g, rule_name, alternatives)->Ok_0[i].condition
                != arms_of(g, rule_name, alternatives)->Ok_0[j].condition,
    decreases alternatives.len(),
{
    if alternatives.len() > 0 {
        let front_names = alternatives.drop_last();
        lemma_arm_conditions(g, rule_name, front_names);
        let front = arms_of(g, rule_name, front_names)->Ok_0;
        let arms = arms_of(g, rule_name, alternatives)->Ok_0;
        assert forall|i: int| 0 <= i < alternatives.len() implies start_condition_of(
            g,
            #[trigger] alternatives[i],
        ) == Ok::<Seq<char>, DiagnosticSpec>(arms[i].condition) by {
            if i < alternatives.len() - 1 {
                assert(front_names[i] == alternatives[i]);
            }
        }
        assert forall|i: int, j: int| 0 <= i < j < alternatives.len() implies arms[i].condition
            != arms[j].condition by {
            if j == alternatives.len() - 1 {
                assert(arm_conditions(front)[i] == front[i].condition);
            }
        }
    }
}

/// Two alternatives of a choice whose start conditions have the same text
/// leave the choice without a parser function.
pub proof fn lemma_identical_conditions_refuse(
    g: GrammarSpec,
    rule: RuleSpec,
    i: int,
    j: int,
)
    requires
        rule.rule_type is RuleChoice,
        0 <= i < j < rule.rule_type->RuleChoice_0.len(),
        start_condition_of(g, rule.rule_type->RuleChoice_0[i]) == start_condition_of(
            g,
            rule.rule_type->RuleChoice_0[j],
        ),
    ensures
        parser_function_of(g, rule) is Err,
{
    let alternatives = rule.rule_type->RuleChoice_0;
    if arms_of(g, rule.rule_name, alternatives) is Ok {
        lemma_arm_conditions(g, rule.rule_name, alternatives);
    }
}

/// A rule that has no parser function adds no line to the source, and the
/// functions of the other rules stand as they would without it.
pub proof fn lemma_refused_rule_leaves_siblings(
    sections: Seq<Result<ParserFunctionSpec, DiagnosticSpec>>,
    at: int,
)
    requires
        0 <= at < sections.len(),
        sections[at] is Err,
    ensures
        rendered_parsers(sections) == rendered_parsers(sections.remove(at)),
    decreases sections.len(),
{
    if at == sections.len() - 1 {
        assert(sections.remove(at) =~= sections.drop_last());
    } else {
        lemma_refused_rule_leaves_siblings(sections.drop_last(), at);
        assert(sections.remove(at).drop_last() =~= sections.drop_last().remove(at));
    }
}

/// A grammar with a reference to a rule that it does not define, wherever
/// that reference stands, has no interpretation and no generated source:
/// either run ends with the undefined reference, whatever the tokens are.
pub proof fn lemma_undefined_reference_is_fatal(
    g: GrammarSpec,
    rule_names: Seq<Seq<char>>,
    tokens: Seq<Seq<char>>,
    depth: nat,
)
    requires
        !resolved(g),
        forall|name: Seq<char>| #[trigger] g.contains_key(name) ==> rule_names.contains(name),
    ensures
        first_undefined(g, rule_names) is Some,
        !g.contains_key(first_undefined(g, rule_names)->0),
        interpret_spec(g, rule_names, tokens, depth) == Err::<Outcome<ParseTree>, DiagnosticSpec>(
            DiagnosticSpec::UndefinedRuleReference { rule_name: first_undefined(g, rule_names)->0 },
        ),
        source_of(g, rule_names) == Err::<SourceSpec, DiagnosticSpec>(
            DiagnosticSpec::UndefinedRuleReference { rule_name: first_undefined(g, rule_names)->0 },
        ),
{
    lemma_first_undefined(g, rule_names);
    if first_undefined(g, rule_names) is None {
        assert forall|name: Seq<char>| #[trigger] g.contains_key(name) implies production_resolved(
            g,
            g[name].rule_type,
        ) by {}
    }
}

} // verus!
