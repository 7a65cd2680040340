//! The start predicate: whether a rule could begin at a given token, decided
//! by that one token alone.

use vstd::prelude::*;
use crate::diagnostic::{Diagnostic, DiagnosticSpec};
use crate::grammar::{ActionSpec, Grammar, GrammarSpec, RuleAction, RuleType, RuleTypeSpec};
use crate::shapes::{is_user_specified_name, matches_user_specified_name};
use crate::text::same_text;

verus! {

/// Whether one token decides the start of a production: it does for a
/// user-specified name and for an action sequence that begins with a
/// literal. A choice, and a sequence that is empty or begins otherwise,
/// cannot be decided.
pub open spec fn start_decidable(rule_type: RuleTypeSpec) -> bool {
    match rule_type {
        RuleTypeSpec::UserSpecifiedName => true,
        RuleTypeSpec::RuleChoice(_) => false,
        RuleTypeSpec::Actions(actions) => actions.len() > 0 && actions[0] is ConsumeToken,
    }
}

/// Whether a production could begin at `token`. Where the start is not
/// decidable the answer is no.
pub open spec fn starts_at(rule_type: RuleTypeSpec, token: Seq<char>) -> bool {
    match rule_type {
        RuleTypeSpec::UserSpecifiedName => is_user_specified_name(token),
        RuleTypeSpec::RuleChoice(_) => false,
        RuleTypeSpec::Actions(actions) => actions.len() > 0 && actions[0]
            == ActionSpec::ConsumeToken(token),
    }
}

/// Whether the rule `rule_name` of `g` could begin at `token`.
pub open spec fn can_start(g: GrammarSpec, rule_name: Seq<char>, token: Seq<char>) -> bool {
    starts_at(g[rule_name].rule_type, token)
}

/// Decides whether the rule `rule_name` could begin at `token`. A rule
/// whose start is not decidable is reported as such, and one that the
/// grammar does not define as undefined.
pub fn check_if_can_start_rule(grammar: &Grammar, rule_name: &str, token: &str) -> (verdict: Result<
    bool,
    Diagnostic,
>)
    ensures
        match verdict {
            Ok(starts) => {
                &&& grammar@.contains_key(rule_name@)
                &&& start_decidable(grammar@[rule_name@].rule_type)
                &&& starts == can_start(grammar@, rule_name@, token@)
            },
            Err(diagnostic) => if grammar@.contains_key(rule_name@) {
                &&& !start_decidable(grammar@[rule_name@].rule_type)
                &&& diagnostic@ == DiagnosticSpec::UndecidableStartPredicate {
                    rule_name: rule_name@,
                }
            } else {
                diagnostic@ == DiagnosticSpec::UndefinedRuleReference { rule_name: rule_name@ }
            },
        },
{
    match grammar.get(rule_name) {
        None => Err(Diagnostic::UndefinedRuleReference { rule_name: rule_name.to_owned() }),
        Some(rule) => match &rule.rule_type {
            RuleType::Actions(actions) => {
                if actions.len() > 0 {
                    match &actions[0] {
                        RuleAction::ConsumeToken(consume_token) => Ok(
                            same_text(consume_token.as_str(), token),
                        ),
                        _ => Err(
                            Diagnostic::UndecidableStartPredicate {
                                rule_name: rule_name.to_owned(),
                            },
                        ),
                    }
                } else {
                    Err(Diagnostic::UndecidableStartPredicate { rule_name: rule_name.to_owned() })
                }
            },
            RuleType::UserSpecifiedName => Ok(matches_user_specified_name(token)),
            RuleType::RuleChoice(_) => Err(
                Diagnostic::UndecidableStartPredicate { rule_name: rule_name.to_owned() },
            ),
        },
    }
}

} // verus!
