//! The interpreter: runs a grammar against a token stream by recursive
//! descent. It detects what does not fit and goes on; it never goes back.

use vstd::prelude::*;
use crate::diagnostic::{Diagnostic, DiagnosticSpec, diagnostic_views};
use crate::grammar::{
    ActionSpec, Grammar, GrammarSpec, RuleAction, RuleType, RuleTypeSpec, action_target,
    action_views, first_undefined, production_resolved, resolved,
};
use crate::oracle::{can_start, check_if_can_start_rule, start_decidable};
use crate::production::{
    ActionTrace, DetailedActionProduction, DetailedRuleProduction, ParseTree, RuleProduction,
    RuleTrace, action_traces, from_detailed, lemma_detailed_rules_view,
    lemma_detailed_sequence_view, rule_traces, tree_of,
};
use crate::shapes::{is_user_specified_name, matches_user_specified_name};
use crate::text::{
    left_of, lemma_left_of_remove_first, lemma_left_of_transitive, lemma_texts_remove_first,
    lookahead, peek, same_text, split_words, string_views, texts, whitespace_words,
};

verus! {

broadcast use {lemma_left_of_transitive, lemma_left_of_remove_first};

/// The rule that a run starts from.
pub const START_RULE: &'static str = "<<START>>";

/// The token that is put behind a program to mark its end.
pub const END_MARKER: &'static str = "<<EOF>>";

/// Where a step of the run has got to: what it produced, the tokens that
/// are left, and the diagnostics that it recorded, in order.
pub struct Outcome<T> {
    pub value: T,
    pub rest: Seq<Seq<char>>,
    pub log: Seq<DiagnosticSpec>,
}

/// A step that produces `value`, consumes nothing and records nothing.
pub open spec fn unmoved<T>(value: T, tokens: Seq<Seq<char>>) -> Outcome<T> {
    Outcome { value, rest: tokens, log: Seq::empty() }
}

/// A due literal: consumed where it is the next token; where it is not, the
/// mismatch is recorded and the stream stays as it is.
pub open spec fn consume_spec(expected: Seq<char>, tokens: Seq<Seq<char>>) -> Outcome<ActionTrace> {
    if lookahead(tokens) == Some(expected) {
        Outcome { value: ActionTrace::Consume(expected), rest: tokens.skip(1), log: Seq::empty() }
    } else {
        Outcome {
            value: ActionTrace::Consume(expected),
            rest: tokens,
            log: seq![
                DiagnosticSpec::LiteralMismatch { expected, found: lookahead(tokens) },
            ],
        }
    }
}

/// A user-specified name: the next token is consumed where it has the
/// shape; where it has not, the rule yields an error and the stream stays
/// as it is.
pub open spec fn read_name_spec(rule_name: Seq<char>, tokens: Seq<Seq<char>>) -> Outcome<RuleTrace> {
    if tokens.len() > 0 && is_user_specified_name(tokens[0]) {
        Outcome {
            value: RuleTrace::UserSpecifiedName { rule_name, user_specified_name: tokens[0] },
            rest: tokens.skip(1),
            log: Seq::empty(),
        }
    } else {
        let diagnostic = DiagnosticSpec::MalformedUserName { rule_name, found: lookahead(tokens) };
        Outcome {
            value: RuleTrace::Error { rule_name, diagnostic },
            rest: tokens,
            log: seq![diagnostic],
        }
    }
}

/// The alternatives that could begin at `token`, in the order of the choice.
pub open spec fn starting_alternatives(
    g: GrammarSpec,
    alternatives: Seq<Seq<char>>,
    token: Seq<char>,
) -> Seq<Seq<char>>
    decreases alternatives.len(),
{
    if alternatives.len() == 0 {
        Seq::empty()
    } else {
        let front = starting_alternatives(g, alternatives.drop_last(), token);
        if can_start(g, alternatives.last(), token) {
            front.push(alternatives.last())
        } else {
            front
        }
    }
}

/// One diagnostic for each alternative whose start is not decidable, in the
/// order of the choice.
pub open spec fn undecided_alternatives(g: GrammarSpec, alternatives: Seq<Seq<char>>) -> Seq<
    DiagnosticSpec,
>
    decreases alternatives.len(),
{
    if alternatives.len() == 0 {
        Seq::empty()
    } else {
        let front = undecided_alternatives(g, alternatives.drop_last());
        if start_decidable(g[alternatives.last()].rule_type) {
            front
        } else {
            front.push(DiagnosticSpec::UndecidableStartPredicate { rule_name: alternatives.last() })
        }
    }
}

/// A choice that does not single out one alternative: an error that carries
/// the number of alternatives that could start.
pub open spec fn ambiguous_spec(
    rule_name: Seq<char>,
    matches: nat,
    tokens: Seq<Seq<char>>,
    undecided: Seq<DiagnosticSpec>,
) -> Outcome<RuleTrace> {
    let diagnostic = DiagnosticSpec::AmbiguousChoice { rule_name, matches };
    Outcome {
        value: RuleTrace::Error { rule_name, diagnostic },
        rest: tokens,
        log: undecided.push(diagnostic),
    }
}

/// Runs the rule `rule_name` on `tokens`, with `depth` nested rule
/// invocations allowed, this one included. `None` where that is not enough.
pub open spec fn run_rule_spec(
    g: GrammarSpec,
    rule_name: Seq<char>,
    tokens: Seq<Seq<char>>,
    depth: nat,
) -> Option<Outcome<RuleTrace>>
    decreases depth, 0nat, 0nat,
{
    if depth == 0 {
        None
    } else {
        let rule = g[rule_name];
        match rule.rule_type {
            RuleTypeSpec::Actions(actions) => match run_actions_spec(
                g,
                actions,
                tokens,
                (depth - 1) as nat,
            ) {
                Some(done) => Some(
                    Outcome {
                        value: RuleTrace::RuleActionSequence {
                            rule_name: rule.rule_name,
                            actions: done.value,
                        },
                        rest: done.rest,
                        log: done.log,
                    },
                ),
                None => None,
            },
            RuleTypeSpec::UserSpecifiedName => Some(read_name_spec(rule.rule_name, tokens)),
            RuleTypeSpec::RuleChoice(alternatives) => match lookahead(tokens) {
                None => Some(ambiguous_spec(rule.rule_name, 0, tokens, Seq::empty())),
                Some(token) => {
                    let starting = starting_alternatives(g, alternatives, token);
                    let undecided = undecided_alternatives(g, alternatives);
                    if starting.len() == 1 {
                        match run_rule_spec(g, starting[0], tokens, (depth - 1) as nat) {
                            Some(done) => Some(
                                Outcome {
                                    value: done.value,
                                    rest: done.rest,
                                    log: undecided + done.log,
                                },
                            ),
                            None => None,
                        }
                    } else {
                        Some(ambiguous_spec(rule.rule_name, starting.len(), tokens, undecided))
                    }
                },
            },
        }
    }
}

/// Runs the actions of a sequence in order, each on what the one before
/// left. A mismatch does not stop the sequence.
pub open spec fn run_actions_spec(
    g: GrammarSpec,
    actions: Seq<ActionSpec>,
    tokens: Seq<Seq<char>>,
    depth: nat,
) -> Option<Outcome<Seq<ActionTrace>>>
    decreases depth, 3nat, actions.len(),
{
    if actions.len() == 0 {
        Some(unmoved(Seq::empty(), tokens))
    } else {
        match run_actions_spec(g, actions.drop_last(), tokens, depth) {
            None => None,
            Some(front) => match run_action_spec(g, actions.last(), front.rest, depth) {
                None => None,
                Some(last) => Some(
                    Outcome {
                        value: front.value.push(last.value),
                        rest: last.rest,
                        log: front.log + last.log,
                    },
                ),
            },
        }
    }
}

/// Runs one action.
pub open spec fn run_action_spec(
    g: GrammarSpec,
    action: ActionSpec,
    tokens: Seq<Seq<char>>,
    depth: nat,
) -> Option<Outcome<ActionTrace>>
    decreases depth, 2nat, 0nat,
{
    match action {
        ActionSpec::ConsumeToken(expected) => Some(consume_spec(expected, tokens)),
        ActionSpec::RuleName(rule_name) => match run_rule_spec(g, rule_name, tokens, depth) {
            None => None,
            Some(done) => Some(
                Outcome {
                    value: ActionTrace::Rules(seq![done.value]),
                    rest: done.rest,
                    log: done.log,
                },
            ),
        },
        ActionSpec::RepeatedRuleNameWithSeparator { rule_name, separator } => match run_rule_spec(
            g,
            rule_name,
            tokens,
            depth,
        ) {
            None => None,
            Some(first) => match repeat_spec(g, rule_name, separator, first.rest, depth) {
                None => None,
                Some(more) => Some(
                    Outcome {
                        value: ActionTrace::Rules(seq![first.value] + more.value),
                        rest: more.rest,
                        log: first.log + more.log,
                    },
                ),
            },
        },
        ActionSpec::Unknown(raw) => Some(
            Outcome {
                value: ActionTrace::Unknown,
                rest: tokens,
                log: seq![DiagnosticSpec::MalformedProduction { raw }],
            },
        ),
    }
}

/// The further occurrences of a repetition, after the first. While the next
/// token is the separator it is consumed, whatever follows; then the rule is
/// run again if it could begin at the token after it, and the repetition is
/// over if it could not. The separator that was consumed last is then gone.
///
/// A rule only takes tokens from the front of the stream
/// ([`crate::laws::lemma_run_rule_shortens`]), so the test on the lengths
/// always holds; it is there to show that the repetition ends.
pub open spec fn repeat_spec(
    g: GrammarSpec,
    rule_name: Seq<char>,
    separator: Seq<char>,
    tokens: Seq<Seq<char>>,
    depth: nat,
) -> Option<Outcome<Seq<RuleTrace>>>
    decreases depth, 1nat, tokens.len(),
{
    if lookahead(tokens) != Some(separator) {
        Some(unmoved(Seq::empty(), tokens))
    } else {
        let after = tokens.skip(1);
        match lookahead(after) {
            None => Some(unmoved(Seq::empty(), after)),
            Some(next) => if can_start(g, rule_name, next) {
                match run_rule_spec(g, rule_name, after, depth) {
                    None => None,
                    Some(one) => if one.rest.len() <= after.len() {
                        match repeat_spec(g, rule_name, separator, one.rest, depth) {
                            None => None,
                            Some(more) => Some(
                                Outcome {
                                    value: seq![one.value] + more.value,
                                    rest: more.rest,
                                    log: one.log + more.log,
                                },
                            ),
                        }
                    } else {
                        None
                    },
                }
            } else if start_decidable(g[rule_name].rule_type) {
                Some(unmoved(Seq::empty(), after))
            } else {
                Some(
                    Outcome {
                        value: Seq::empty(),
                        rest: after,
                        log: seq![DiagnosticSpec::UndecidableStartPredicate { rule_name }],
                    },
                )
            },
        }
    }
}

/// What an executable step left behind agrees with `outcome`: it produced
/// `value`, left `rest`, and added the outcome's diagnostics to the log.
pub open spec fn agrees<T>(
    outcome: Option<Outcome<T>>,
    value: T,
    rest: Seq<Seq<char>>,
    log_before: Seq<DiagnosticSpec>,
    log_after: Seq<DiagnosticSpec>,
) -> bool {
    &&& outcome is Some
    &&& outcome->0.value == value
    &&& outcome->0.rest == rest
    &&& log_after == log_before + outcome->0.log
}

/// Once a prefix of a sequence runs out of depth, the whole sequence does.
pub proof fn lemma_run_actions_prefix(
    g: GrammarSpec,
    actions: Seq<ActionSpec>,
    tokens: Seq<Seq<char>>,
    depth: nat,
    n: int,
)
    requires
        0 <= n <= actions.len(),
        run_actions_spec(g, actions.take(n), tokens, depth) is None,
    ensures
        run_actions_spec(g, actions, tokens, depth) is None,
    decreases actions.len(),
{
    if n < actions.len() {
        assert(actions.drop_last().take(n) =~= actions.take(n));
        lemma_run_actions_prefix(g, actions.drop_last(), tokens, depth, n);
    } else {
        assert(actions.take(n) =~= actions);
    }
}

/// Consumes the literal `expected` where it is the next token; where it is
/// not, records the mismatch and leaves the stream as it is.
pub fn consume<'a>(expected: &str, tokens: &mut Vec<&'a str>, log: &mut Vec<Diagnostic>)
    ensures
        texts(final(tokens)@) == consume_spec(expected@, texts(old(tokens)@)).rest,
        diagnostic_views(final(log)@) == diagnostic_views(old(log)@) + consume_spec(
            expected@,
            texts(old(tokens)@),
        ).log,
        left_of(final(tokens)@, old(tokens)@),
{
    if tokens.len() > 0 && same_text(tokens[0], expected) {
        proof {
            lemma_texts_remove_first(tokens@);
        }
        tokens.remove(0);
    } else {
        let found = peek(tokens);
        let diagnostic = Diagnostic::LiteralMismatch { expected: expected.to_owned(), found };
        log.push(diagnostic);
    }
}

/// Runs one action of a sequence. `None` where the rule invocations nest
/// deeper than `depth`.
#[verifier::loop_isolation(false)]
pub fn run_action<'a>(
    grammar: &Grammar,
    action: &RuleAction,
    tokens: &mut Vec<&'a str>,
    log: &mut Vec<Diagnostic>,
    depth: usize,
) -> (production: Option<DetailedActionProduction>)
    requires
        grammar.wf(),
        resolved(grammar@),
        action_target(action@) matches Some(name) ==> grammar@.contains_key(name),
    ensures
        left_of(final(tokens)@, old(tokens)@),
        match production {
            Some(produced) => agrees(
                run_action_spec(grammar@, action@, texts(old(tokens)@), depth as nat),
                produced@,
                texts(final(tokens)@),
                diagnostic_views(old(log)@),
                diagnostic_views(final(log)@),
            ),
            None => run_action_spec(grammar@, action@, texts(old(tokens)@), depth as nat) is None,
        },
    decreases depth, 2nat, 0nat,
{
    let ghost g = grammar@;
    let ghost start_tokens = texts(tokens@);
    let ghost start_log = diagnostic_views(log@);
    match action {
        RuleAction::RepeatedRuleNameWithSeparator { rule_name, separator } => {
            let first = match run_rule(grammar, rule_name.as_str(), tokens, log, depth) {
                Some(first) => first,
                None => {
                    return None;
                },
            };
            let ghost first_outcome = run_rule_spec(g, rule_name@, start_tokens, depth as nat)->0;
            let ghost loop_tokens = texts(tokens@);
            let ghost loop_log = diagnostic_views(log@);
            let ghost whole = repeat_spec(g, rule_name@, separator@, loop_tokens, depth as nat);
            let ghost mut added: Seq<DiagnosticSpec> = Seq::empty();
            let mut rules: Vec<DetailedRuleProduction> = Vec::new();
            rules.push(first);
            let mut going = true;
            proof {
                assert(loop_log + added =~= loop_log);
            }
            while going && tokens.len() > 0 && same_text(tokens[0], separator.as_str())
                invariant
                    grammar.wf(),
                    resolved(grammar@),
                    g == grammar@,
                    g.contains_key(rule_name@),
                    left_of(tokens@, old(tokens)@),
                    rules@.len() >= 1,
                    rules@[0]@ == first_outcome.value,
                    whole == repeat_spec(g, rule_name@, separator@, loop_tokens, depth as nat),
                    diagnostic_views(log@) == loop_log + added,
                    going ==> match repeat_spec(
                        g,
                        rule_name@,
                        separator@,
                        texts(tokens@),
                        depth as nat,
                    ) {
                        None => whole is None,
                        Some(more) => whole == Some(
                            Outcome {
                                value: rule_traces(rules@).skip(1) + more.value,
                                rest: more.rest,
                                log: added + more.log,
                            },
                        ),
                    },
                    !going ==> whole == Some(
                        Outcome {
                            value: rule_traces(rules@).skip(1),
                            rest: texts(tokens@),
                            log: added,
                        },
                    ),
                decreases tokens@.len() + (if going { 1nat } else { 0nat }),
            {
                let ghost before = texts(tokens@);
                let ghost seen = rule_traces(rules@).skip(1);
                proof {
                    lemma_texts_remove_first(tokens@);
                }
                tokens.remove(0);
                let ghost after = texts(tokens@);
                if tokens.len() == 0 {
                    going = false;
                } else {
                    proof {
                        lemma_texts_remove_first(tokens@);
                    }
                    match check_if_can_start_rule(grammar, rule_name.as_str(), tokens[0]) {
                        Ok(true) => {
                            match run_rule(grammar, rule_name.as_str(), tokens, log, depth) {
                                Some(one) => {
                                    let ghost one_outcome = run_rule_spec(
                                        g,
                                        rule_name@,
                                        after,
                                        depth as nat,
                                    )->0;
                                    rules.push(one);
                                    proof {
                                        assert(rule_traces(rules@).skip(1) =~= seen.push(one@));
                                        let added_before = added;
                                        added = added + one_outcome.log;
                                        match repeat_spec(
                                            g,
                                            rule_name@,
                                            separator@,
                                            texts(tokens@),
                                            depth as nat,
                                        ) {
                                            None => {},
                                            Some(more) => {
                                                assert(seen + (seq![one@] + more.value)
                                                    =~= seen.push(one@) + more.value);
                                                assert(added_before + (one_outcome.log + more.log)
                                                    =~= added + more.log);
                                            },
                                        }
                                    }
                                },
                                None => {
                                    return None;
                                },
                            }
                        },
                        Ok(false) => {
                            going = false;
                        },
                        Err(diagnostic) => {
                            going = false;
                            log.push(diagnostic);
                            proof {
                                let added_before = added;
                                added = added.push(diagnostic@);
                                assert(added_before + seq![diagnostic@] =~= added);
                            }
                        },
                    }
                }
            }
            proof {
                lemma_detailed_rules_view(rules);
                assert(seq![first_outcome.value] + rule_traces(rules@).skip(1) =~= rule_traces(
                    rules@,
                ));
                assert(start_log + (first_outcome.log + added) =~= loop_log + added);
            }
            Some(DetailedActionProduction::Rules(rules))
        },
        RuleAction::RuleName(rule_name) => {
            match run_rule(grammar, rule_name.as_str(), tokens, log, depth) {
                Some(rp) => {
                    let mut rules: Vec<DetailedRuleProduction> = Vec::new();
                    rules.push(rp);
                    proof {
                        lemma_detailed_rules_view(rules);
                        assert(rule_traces(rules@) =~= seq![rp@]);
                    }
                    Some(DetailedActionProduction::Rules(rules))
                },
                None => None,
            }
        },
        RuleAction::ConsumeToken(consume_token) => {
            consume(consume_token.as_str(), tokens, log);
            Some(DetailedActionProduction::Consume(consume_token.clone()))
        },
        RuleAction::Unknown(raw) => {
            let diagnostic = Diagnostic::MalformedProduction { raw: raw.clone() };
            let ghost before = log@;
            log.push(diagnostic);
            assert(diagnostic_views(log@) =~= diagnostic_views(before) + seq![diagnostic@]);
            Some(DetailedActionProduction::Unknown)
        },
    }
}

/// Runs the rule `rule_name`, with `depth` nested rule invocations allowed,
/// this one included. `None` where that is not enough.
#[verifier::loop_isolation(false)]
pub fn run_rule<'a>(
    grammar: &Grammar,
    rule_name: &str,
    tokens: &mut Vec<&'a str>,
    log: &mut Vec<Diagnostic>,
    depth: usize,
) -> (production: Option<DetailedRuleProduction>)
    requires
        grammar.wf(),
        resolved(grammar@),
        grammar@.contains_key(rule_name@),
    ensures
        left_of(final(tokens)@, old(tokens)@),
        match production {
            Some(produced) => agrees(
                run_rule_spec(grammar@, rule_name@, texts(old(tokens)@), depth as nat),
                produced@,
                texts(final(tokens)@),
                diagnostic_views(old(log)@),
                diagnostic_views(final(log)@),
            ),
            None => run_rule_spec(grammar@, rule_name@, texts(old(tokens)@), depth as nat) is None,
        },
    decreases depth, 0nat, 0nat,
{
    if depth == 0 {
        return None;
    }
    let ghost g = grammar@;
    let ghost start_tokens = texts(tokens@);
    let ghost start_log = diagnostic_views(log@);
    proof {
        grammar.lemma_rule_names();
    }
    let rule = match grammar.get(rule_name) {
        Some(rule) => rule,
        None => {
            return None;
        },
    };
    match &rule.rule_type {
        RuleType::Actions(rule_actions) => {
            let ghost steps = action_views(rule_actions@);
            let mut actions: Vec<DetailedActionProduction> = Vec::new();
            let mut at: usize = 0;
            proof {
                assert(action_traces(actions@) =~= Seq::<ActionTrace>::empty());
            }
            while at < rule_actions.len()
                invariant
                    grammar.wf(),
                    resolved(grammar@),
                    g == grammar@,
                    depth > 0,
                    production_resolved(g, RuleTypeSpec::Actions(steps)),
                    steps == action_views(rule_actions@),
                    at <= rule_actions@.len(),
                    left_of(tokens@, old(tokens)@),
                    agrees(
                        run_actions_spec(g, steps.take(at as int), start_tokens, (depth - 1) as nat),
                        action_traces(actions@),
                        texts(tokens@),
                        start_log,
                        diagnostic_views(log@),
                    ),
                decreases rule_actions@.len() - at,
            {
                let ghost front = run_actions_spec(
                    g,
                    steps.take(at as int),
                    start_tokens,
                    (depth - 1) as nat,
                )->0;
                proof {
                    assert(steps.take(at + 1).drop_last() =~= steps.take(at as int));
                }
                match run_action(grammar, &rule_actions[at], tokens, log, depth - 1) {
                    Some(ap) => {
                        let ghost last = run_action_spec(
                            g,
                            steps[at as int],
                            front.rest,
                            (depth - 1) as nat,
                        )->0;
                        let ghost before = actions@;
                        actions.push(ap);
                        proof {
                            assert(action_traces(actions@) =~= action_traces(before).push(ap@));
                            assert(start_log + (front.log + last.log) =~= (start_log + front.log)
                                + last.log);
                        }
                    },
                    None => {
                        proof {
                            lemma_run_actions_prefix(
                                g,
                                steps,
                                start_tokens,
                                (depth - 1) as nat,
                                at + 1,
                            );
                        }
                        return None;
                    },
                }
                at += 1;
            }
            proof {
                assert(steps.take(at as int) =~= steps);
                lemma_detailed_sequence_view(rule.rule_name, actions);
            }
            Some(
                DetailedRuleProduction::RuleActionSequence {
                    rule_name: rule.rule_name.clone(),
                    actions,
                },
            )
        },
        RuleType::UserSpecifiedName => {
            if tokens.len() > 0 && matches_user_specified_name(tokens[0]) {
                proof {
                    lemma_texts_remove_first(tokens@);
                }
                let name = tokens.remove(0);
                Some(
                    DetailedRuleProduction::UserSpecifiedName {
                        rule_name: rule.rule_name.clone(),
                        user_specified_name: name.to_owned(),
                    },
                )
            } else {
                proof {
                    if tokens@.len() > 0 {
                        lemma_texts_remove_first(tokens@);
                    }
                }
                let found = peek(tokens);
                let diagnostic = Diagnostic::MalformedUserName {
                    rule_name: rule.rule_name.clone(),
                    found,
                };
                let ghost before = log@;
                log.push(diagnostic.clone());
                proof {
                    assert(diagnostic_views(log@) =~= diagnostic_views(before) + seq![diagnostic@]);
                }
                Some(DetailedRuleProduction::Error { rule_name: rule.rule_name.clone(), diagnostic })
            }
        },
        RuleType::RuleChoice(sub_rule_names) => {
            if tokens.len() == 0 {
                let diagnostic = Diagnostic::AmbiguousChoice {
                    rule_name: rule.rule_name.clone(),
                    matches: 0,
                };
                let ghost before = log@;
                log.push(diagnostic.clone());
                proof {
                    assert(diagnostic_views(log@) =~= diagnostic_views(before) + Seq::<
                        DiagnosticSpec,
                    >::empty().push(diagnostic@));
                }
                return Some(
                    DetailedRuleProduction::Error { rule_name: rule.rule_name.clone(), diagnostic },
                );
            }
            let token: &str = tokens[0];
            let ghost alternatives = string_views(sub_rule_names@);
            let mut count_matches: usize = 0;
            let mut match_index: usize = 0;
            let mut at: usize = 0;
            proof {
                lemma_texts_remove_first(tokens@);
            }
            while at < sub_rule_names.len()
                invariant
                    g == grammar@,
                    alternatives == string_views(sub_rule_names@),
                    production_resolved(g, RuleTypeSpec::RuleChoice(alternatives)),
                    at <= sub_rule_names@.len(),
                    count_matches <= at,
                    count_matches == starting_alternatives(
                        g,
                        alternatives.take(at as int),
                        token@,
                    ).len(),
                    count_matches > 0 ==> match_index < at && starting_alternatives(
                        g,
                        alternatives.take(at as int),
                        token@,
                    ).last() == sub_rule_names@[match_index as int]@,
                    diagnostic_views(log@) == start_log + undecided_alternatives(
                        g,
                        alternatives.take(at as int),
                    ),
                decreases sub_rule_names@.len() - at,
            {
                proof {
                    assert(alternatives.take(at + 1).drop_last() =~= alternatives.take(at as int));
                }
                match check_if_can_start_rule(grammar, sub_rule_names[at].as_str(), token) {
                    Ok(matches) => {
                        if matches {
                            count_matches += 1;
                            match_index = at;
                        }
                    },
                    Err(diagnostic) => {
                        let ghost before = log@;
                        log.push(diagnostic);
                        proof {
                            assert(diagnostic_views(log@) =~= diagnostic_views(before).push(
                                diagnostic@,
                            ));
                        }
                    },
                }
                at += 1;
            }
            proof {
                assert(alternatives.take(at as int) =~= alternatives);
            }
            let ghost undecided = undecided_alternatives(g, alternatives);
            if count_matches == 1 {
                match run_rule(grammar, sub_rule_names[match_index].as_str(), tokens, log, depth - 1) {
                    Some(produced) => {
                        proof {
                            let done = run_rule_spec(
                                g,
                                alternatives[match_index as int],
                                start_tokens,
                                (depth - 1) as nat,
                            )->0;
                            assert(start_log + (undecided + done.log) =~= (start_log + undecided)
                                + done.log);
                        }
                        Some(produced)
                    },
                    None => None,
                }
            } else {
                let diagnostic = Diagnostic::AmbiguousChoice {
                    rule_name: rule.rule_name.clone(),
                    matches: count_matches,
                };
                let ghost before = log@;
                log.push(diagnostic.clone());
                proof {
                    assert(diagnostic_views(log@) =~= diagnostic_views(before).push(diagnostic@));
                }
                Some(DetailedRuleProduction::Error { rule_name: rule.rule_name.clone(), diagnostic })
            }
        },
    }
}

/// What a run of a grammar from its start rule comes to. Any reference to
/// a rule that the grammar does not define ends the run before it begins,
/// whether or not the program would have reached it; so does a missing
/// start rule. Otherwise the start rule is run and the parse tree read off
/// what it produced.
pub open spec fn interpret_spec(
    g: GrammarSpec,
    rule_names: Seq<Seq<char>>,
    tokens: Seq<Seq<char>>,
    depth: nat,
) -> Result<Outcome<ParseTree>, DiagnosticSpec> {
    match first_undefined(g, rule_names) {
        Some(rule_name) => Err(DiagnosticSpec::UndefinedRuleReference { rule_name }),
        None => if !g.contains_key(START_RULE@) {
            Err(DiagnosticSpec::UndefinedRuleReference { rule_name: START_RULE@ })
        } else {
            match run_rule_spec(g, START_RULE@, tokens, depth) {
                None => Err(DiagnosticSpec::NestingTooDeep),
                Some(done) => Ok(
                    Outcome { value: tree_of(done.value), rest: done.rest, log: done.log },
                ),
            }
        },
    }
}

/// The depth that suffices for every run of `rules` rules on `tokens`
/// tokens that ends at all: the number of pairs of a rule and a number of
/// tokens left ([`crate::nesting::lemma_sufficient_depth`]).
pub open spec fn sufficient_depth_for(rules: nat, tokens: nat) -> nat {
    rules * (tokens + 1)
}

/// The depth that a run is allowed: the depth that suffices, cut down to
/// what a `usize` holds.
pub open spec fn depth_allowed(rules: nat, tokens: nat) -> nat {
    if sufficient_depth_for(rules, tokens) <= usize::MAX {
        sufficient_depth_for(rules, tokens)
    } else {
        usize::MAX as nat
    }
}

/// What a run of a grammar from its start rule comes to with the depth that
/// it is allowed.
pub open spec fn interpretation(
    g: GrammarSpec,
    rule_names: Seq<Seq<char>>,
    tokens: Seq<Seq<char>>,
) -> Result<Outcome<ParseTree>, DiagnosticSpec> {
    interpret_spec(g, rule_names, tokens, depth_allowed(rule_names.len(), tokens.len()))
}

/// The result of a run: the parse tree and what was recorded on the way.
#[derive(Debug)]
pub struct Interpretation {
    pub tree: RuleProduction,
    pub diagnostics: Vec<Diagnostic>,
}

/// What a run that left `rest` came to, as a value.
pub open spec fn run_value(result: Result<Interpretation, Diagnostic>, rest: Seq<Seq<char>>) -> Result<
    Outcome<ParseTree>,
    DiagnosticSpec,
> {
    match result {
        Ok(done) => Ok(
            Outcome { value: done.tree@, rest, log: diagnostic_views(done.diagnostics@) },
        ),
        Err(diagnostic) => Err(diagnostic@),
    }
}

/// The depth that a run of the grammar on `tokens` tokens is allowed.
pub fn sufficient_depth(grammar: &Grammar, tokens: usize) -> (depth: usize)
    requires
        grammar.wf(),
    ensures
        depth == depth_allowed(grammar.rule_names().len(), tokens as nat),
{
    let rules = grammar.len();
    if rules == 0 {
        return 0;
    }
    match tokens.checked_add(1) {
        None => {
            assert(sufficient_depth_for(rules as nat, tokens as nat) > usize::MAX) by (nonlinear_arith)
                requires
                    rules >= 1,
                    tokens + 1 > usize::MAX,
            ;
            usize::MAX
        },
        Some(width) => match rules.checked_mul(width) {
            None => usize::MAX,
            Some(depth) => depth,
        },
    }
}

/// Runs the grammar from its start rule on `tokens`, which it consumes from
/// the front, with `max_depth` nested rule invocations allowed.
pub fn run_grammar_within<'a>(
    grammar: &Grammar,
    tokens: &mut Vec<&'a str>,
    max_depth: usize,
) -> (result: Result<Interpretation, Diagnostic>)
    requires
        grammar.wf(),
    ensures
        left_of(final(tokens)@, old(tokens)@),
        run_value(result, texts(final(tokens)@)) == interpret_spec(
            grammar@,
            grammar.rule_names(),
            texts(old(tokens)@),
            max_depth as nat,
        ),
        result matches Err(diagnostic) && !(diagnostic is NestingTooDeep) ==> final(tokens)@ == old(
            tokens,
        )@,
{
    match grammar.undefined_reference() {
        Some(rule_name) => {
            return Err(Diagnostic::UndefinedRuleReference { rule_name });
        },
        None => {},
    }
    if !grammar.contains(START_RULE) {
        return Err(Diagnostic::UndefinedRuleReference { rule_name: START_RULE.to_owned() });
    }
    let mut diagnostics: Vec<Diagnostic> = Vec::new();
    match run_rule(grammar, START_RULE, tokens, &mut diagnostics, max_depth) {
        Some(details) => {
            Ok(Interpretation { tree: from_detailed(details), diagnostics })
        },
        None => Err(Diagnostic::NestingTooDeep),
    }
}

/// Runs the grammar from its start rule on `tokens`, which it consumes from
/// the front. The run is given up as nested too deep only where the rules
/// would invoke each other without end
/// ([`crate::nesting::lemma_too_deep_is_endless`]).
pub fn run_grammar<'a>(grammar: &Grammar, tokens: &mut Vec<&'a str>) -> (result: Result<
    Interpretation,
    Diagnostic,
>)
    requires
        grammar.wf(),
    ensures
        left_of(final(tokens)@, old(tokens)@),
        run_value(result, texts(final(tokens)@)) == interpretation(
            grammar@,
            grammar.rule_names(),
            texts(old(tokens)@),
        ),
        result matches Err(diagnostic) && !(diagnostic is NestingTooDeep) ==> final(tokens)@ == old(
            tokens,
        )@,
{
    let depth = sufficient_depth(grammar, tokens.len());
    run_grammar_within(grammar, tokens, depth)
}

/// What reading a program came to: the parse tree, what was recorded on the
/// way, and the tokens that were left, the end marker among them.
#[derive(Debug)]
pub struct ParseReport<'a> {
    pub tree: RuleProduction,
    pub diagnostics: Vec<Diagnostic>,
    pub residual: Vec<&'a str>,
}

/// What reading a program came to, as a value.
pub open spec fn report_value(result: Result<ParseReport<'_>, Diagnostic>) -> Result<
    Outcome<ParseTree>,
    DiagnosticSpec,
> {
    match result {
        Ok(report) => Ok(
            Outcome {
                value: report.tree@,
                rest: texts(report.residual@),
                log: diagnostic_views(report.diagnostics@),
            },
        ),
        Err(diagnostic) => Err(diagnostic@),
    }
}

impl<'a> ParseReport<'a> {
    /// The program is well-formed: the run left the end marker and nothing
    /// else.
    pub open spec fn is_well_formed(&self) -> bool {
        texts(self.residual@) == seq![END_MARKER@]
    }

    /// Whether the run left the end marker and nothing else.
    pub fn well_formed(&self) -> (yes: bool)
        ensures
            yes == self.is_well_formed(),
    {
        let yes = self.residual.len() == 1 && same_text(self.residual[0], END_MARKER);
        proof {
            if yes {
                assert(texts(self.residual@) =~= seq![END_MARKER@]);
            } else if texts(self.residual@) == seq![END_MARKER@] {
                assert(texts(self.residual@).len() == 1);
                assert(texts(self.residual@)[0] == END_MARKER@);
            }
        }
        yes
    }
}

/// Reads a program that is given as its tokens: puts the end marker behind
/// them and runs the grammar from its start rule.
pub fn run_program<'a>(grammar: &Grammar, tokens: Vec<&'a str>) -> (result: Result<
    ParseReport<'a>,
    Diagnostic,
>)
    requires
        grammar.wf(),
    ensures
        report_value(result) == interpretation(
            grammar@,
            grammar.rule_names(),
            texts(tokens@).push(END_MARKER@),
        ),
{
    let mut tokens = tokens;
    let ghost given = tokens@;
    tokens.push(END_MARKER);
    assert(texts(tokens@) =~= texts(given).push(END_MARKER@));
    match run_grammar(grammar, &mut tokens) {
        Ok(done) => Ok(
            ParseReport { tree: done.tree, diagnostics: done.diagnostics, residual: tokens },
        ),
        Err(diagnostic) => Err(diagnostic),
    }
}

/// Reads a program from its text: splits it into words at white space and
/// reads those.
pub fn parse_program<'a>(grammar: &Grammar, source: &'a str) -> (result: Result<
    ParseReport<'a>,
    Diagnostic,
>)
    requires
        grammar.wf(),
    ensures
        report_value(result) == interpretation(
            grammar@,
            grammar.rule_names(),
            whitespace_words(source@).push(END_MARKER@),
        ),
{
    run_program(grammar, split_words(source))
}

} // verus!
