//! Reading a grammar from its notation: one rule per line, each line a rule
//! name, a separator word and the production.

use vstd::prelude::*;
use crate::diagnostic::{Diagnostic, DiagnosticSpec};
use crate::grammar::{
    ActionSpec, Grammar, GrammarSpec, Rule, RuleAction, RuleSpec, RuleType, RuleTypeSpec,
    action_views,
};
use crate::shapes::{
    capture_quoted, capture_repetition, is_rule_name, matches_rule_name, quoted_text,
    repetition_parts,
};
use crate::text::{same_text, split_words, string_views, texts, whitespace_words};

verus! {

/// The production that stands for a name chosen by the program's author.
pub const USER_SPECIFIED_NAME: &'static str = "<<USER-SPECIFIED-NAME>>";

/// The word that separates the alternatives of a choice.
pub const ALTERNATIVE_BAR: &'static str = "|";

/// The action that one production token stands for. The shapes are tried in
/// this order: quoted literal, rule name, repetition.
pub open spec fn action_of(token: Seq<char>) -> ActionSpec {
    if quoted_text(token) is Some {
        ActionSpec::ConsumeToken(quoted_text(token)->0)
    } else if is_rule_name(token) {
        ActionSpec::RuleName(token)
    } else {
        match repetition_parts(token) {
            Some((rule_name, separator)) => ActionSpec::RepeatedRuleNameWithSeparator {
                rule_name,
                separator,
            },
            None => ActionSpec::Unknown(token),
        }
    }
}

/// The production that the words right of the separator stand for.
pub open spec fn production_of(right_hand: Seq<Seq<char>>) -> RuleTypeSpec {
    if right_hand == seq![USER_SPECIFIED_NAME@] {
        RuleTypeSpec::UserSpecifiedName
    } else if right_hand.contains(ALTERNATIVE_BAR@) {
        RuleTypeSpec::RuleChoice(right_hand.filter(|word: Seq<char>| word != ALTERNATIVE_BAR@))
    } else {
        RuleTypeSpec::Actions(right_hand.map_values(|word: Seq<char>| action_of(word)))
    }
}

/// The rule that the words of a line stand for, where there are at least
/// two. The second word is skipped unread.
pub open spec fn rule_of_words(words: Seq<Seq<char>>) -> Option<RuleSpec> {
    if words.len() >= 2 {
        Some(RuleSpec { rule_name: words[0], rule_type: production_of(words.skip(2)) })
    } else {
        None
    }
}

/// The rule that a line stands for.
pub open spec fn rule_of_line(line: Seq<char>) -> Option<RuleSpec> {
    rule_of_words(whitespace_words(line))
}

/// The table that the lines build up, a later rule replacing an earlier one
/// of the same name.
pub open spec fn table_of(lines: Seq<Seq<char>>) -> GrammarSpec
    decreases lines.len(),
{
    if lines.len() == 0 {
        Map::empty()
    } else {
        let front = table_of(lines.drop_last());
        match rule_of_line(lines.last()) {
            Some(rule) => front.insert(rule.rule_name, rule),
            None => front,
        }
    }
}

/// Classifies one production token.
pub fn action_from_token(token: &str) -> (action: RuleAction)
    ensures
        action@ == action_of(token@),
{
    match capture_quoted(token) {
        Some(consume_token) => RuleAction::ConsumeToken(consume_token),
        None => {
            if matches_rule_name(token) {
                RuleAction::RuleName(token.to_owned())
            } else {
                match capture_repetition(token) {
                    Some((rule_name, separator)) => RuleAction::RepeatedRuleNameWithSeparator {
                        rule_name,
                        separator,
                    },
                    None => RuleAction::Unknown(token.to_owned()),
                }
            }
        },
    }
}

/// Builds the rule that the words of one line stand for; `None` where the
/// line has fewer than two words.
pub fn rule_from_words(words: &Vec<&str>) -> (rule: Option<Rule>)
    ensures
        match rule {
            Some(rule) => rule_of_words(texts(words@)) == Some(rule@),
            None => rule_of_words(texts(words@)) is None,
        },
{
    if words.len() < 2 {
        return None;
    }
    let ghost right_hand = texts(words@).skip(2);
    let rule_name = words[0].to_owned();
    if words.len() == 3 && same_text(words[2], USER_SPECIFIED_NAME) {
        assert(right_hand =~= seq![USER_SPECIFIED_NAME@]);
        return Some(Rule { rule_name, rule_type: RuleType::UserSpecifiedName });
    }
    assert(right_hand != seq![USER_SPECIFIED_NAME@]) by {
        if right_hand == seq![USER_SPECIFIED_NAME@] {
            assert(right_hand[0] == USER_SPECIFIED_NAME@);
        }
    }
    let mut has_bar = false;
    let mut at: usize = 2;
    while at < words.len()
        invariant
            2 <= at <= words@.len(),
            right_hand == texts(words@).skip(2),
            has_bar == exists|k: int| 0 <= k < at - 2 && right_hand[k] == ALTERNATIVE_BAR@,
        decreases words@.len() - at,
    {
        if same_text(words[at], ALTERNATIVE_BAR) {
            assert(right_hand[at - 2] == ALTERNATIVE_BAR@);
            has_bar = true;
        }
        at += 1;
    }
    if has_bar {
        let ghost keep = |word: Seq<char>| word != ALTERNATIVE_BAR@;
        let mut sub_rule_names: Vec<String> = Vec::new();
        let mut at: usize = 2;
        proof {
            reveal(Seq::filter);
        }
        while at < words.len()
            invariant
                2 <= at <= words@.len(),
                right_hand == texts(words@).skip(2),
                keep == |word: Seq<char>| word != ALTERNATIVE_BAR@,
                string_views(sub_rule_names@) == right_hand.take(at - 2).filter(keep),
            decreases words@.len() - at,
        {
            proof {
                reveal(Seq::filter);
                assert(right_hand.take(at - 1).drop_last() =~= right_hand.take(at - 2));
            }
            if !same_text(words[at], ALTERNATIVE_BAR) {
                sub_rule_names.push(words[at].to_owned());
            }
            at += 1;
        }
        proof {
            assert(right_hand.take(at - 2) =~= right_hand);
        }
        return Some(Rule { rule_name, rule_type: RuleType::RuleChoice(sub_rule_names) });
    }
    let mut actions: Vec<RuleAction> = Vec::new();
    let mut at: usize = 2;
    while at < words.len()
        invariant
            2 <= at <= words@.len(),
            right_hand == texts(words@).skip(2),
            actions@.len() == at - 2,
            forall|k: int| 0 <= k < at - 2 ==> (#[trigger] actions@[k])@ == action_of(right_hand[k]),
        decreases words@.len() - at,
    {
        actions.push(action_from_token(words[at]));
        at += 1;
    }
    assert(action_views(actions@) =~= right_hand.map_values(|word: Seq<char>| action_of(word)));
    Some(Rule { rule_name, rule_type: RuleType::Actions(actions) })
}

/// Reads one line of the notation; `None` where the line has fewer than two
/// words.
pub fn parse_grammar_rule(line: &str) -> (rule: Option<Rule>)
    ensures
        match rule {
            Some(rule) => rule_of_line(line@) == Some(rule@),
            None => rule_of_line(line@) is None,
        },
{
    let words = split_words(line);
    rule_from_words(&words)
}

/// Reads a grammar, one rule per line. The first line with fewer than two
/// words makes the grammar unusable and is reported by its position.
pub fn load_grammar(lines: &Vec<String>) -> (loaded: Result<Grammar, Diagnostic>)
    ensures
        match loaded {
            Ok(grammar) => {
                &&& grammar.wf()
                &&& grammar@ == table_of(string_views(lines@))
                &&& forall|i: int| 0 <= i < lines@.len() ==> rule_of_line(#[trigger] lines@[i]@) is Some
            },
            Err(diagnostic) => exists|bad: int|
                {
                    &&& 0 <= bad < lines@.len()
                    &&& diagnostic@ == DiagnosticSpec::StructuralGrammarError { line: bad as nat }
                    &&& rule_of_line(lines@[bad]@) is None
                    &&& forall|i: int| 0 <= i < bad ==> rule_of_line(#[trigger] lines@[i]@) is Some
                },
        },
{
    let mut grammar = Grammar::new();
    let mut at: usize = 0;
    while at < lines.len()
        invariant
            at <= lines@.len(),
            grammar.wf(),
            grammar@ == table_of(string_views(lines@).take(at as int)),
            forall|i: int| 0 <= i < at ==> rule_of_line(#[trigger] lines@[i]@) is Some,
        decreases lines@.len() - at,
    {
        proof {
            let all = string_views(lines@);
            assert(all.take(at + 1).drop_last() =~= all.take(at as int));
        }
        match parse_grammar_rule(lines[at].as_str()) {
            Some(rule) => {
                grammar.insert(rule);
            },
            None => {
                return Err(Diagnostic::StructuralGrammarError { line: at });
            },
        }
        at += 1;
    }
    proof {
        assert(string_views(lines@).take(at as int) =~= string_views(lines@));
    }
    Ok(grammar)
}

} // verus!
