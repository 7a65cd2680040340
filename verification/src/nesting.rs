//! How deep the rule invocations of a run can nest. A run is a function of
//! the rule and of the tokens that are left, so a rule that comes up again
//! inside its own invocation, with the same tokens left, would come up
//! without end. A run that ends therefore never nests deeper than there are
//! pairs of a rule and a number of tokens left.

use vstd::prelude::*;
use vstd::set_lib::{lemma_int_range, lemma_len_subset, set_int_range};
use crate::grammar::{
    ActionSpec, GrammarSpec, RuleTypeSpec, action_target, names_defined, resolved, targets_defined,
};
use crate::diagnostic::DiagnosticSpec;
use crate::grammar::{lemma_first_undefined, production_resolved};
use crate::interpreter::{
    Outcome, START_RULE, interpret_spec, interpretation, repeat_spec, run_action_spec,
    run_actions_spec, run_rule_spec, starting_alternatives, sufficient_depth_for,
};
use crate::production::ParseTree;
use crate::laws::{
    lemma_repeat_depth, lemma_repeat_shortens, lemma_run_action_depth, lemma_run_action_shortens,
    lemma_run_actions_depth, lemma_run_actions_shorten, lemma_run_rule_depth,
    lemma_run_rule_shortens,
};
use crate::oracle::can_start;
use crate::text::{left_of, lemma_left_of_transitive, lookahead};

verus! {

broadcast use lemma_left_of_transitive;

/// The rule `rule_name` gets through on `tokens` with `depth + 1` nested
/// invocations and not with fewer: its deepest nesting is `depth + 1`.
pub open spec fn nests(g: GrammarSpec, rule_name: Seq<char>, tokens: Seq<Seq<char>>, depth: nat) -> bool {
    &&& run_rule_spec(g, rule_name, tokens, depth + 1) is Some
    &&& run_rule_spec(g, rule_name, tokens, depth) is None
}

/// An invocation of a rule inside a run: the rule and the tokens that are
/// left when it is invoked.
pub struct Invocation {
    pub rule_name: Seq<char>,
    pub tokens: Seq<Seq<char>>,
}

/// An invocation of a rule of `g` on what is left of `tokens`, whose
/// deepest nesting is `depth + 1`.
pub open spec fn nests_within(
    g: GrammarSpec,
    tokens: Seq<Seq<char>>,
    invocation: Invocation,
    depth: nat,
) -> bool {
    &&& g.contains_key(invocation.rule_name)
    &&& left_of(invocation.tokens, tokens)
    &&& nests(g, invocation.rule_name, invocation.tokens, depth)
}

/// The alternatives that could begin at a token are alternatives.
pub proof fn lemma_starting_are_alternatives(
    g: GrammarSpec,
    alternatives: Seq<Seq<char>>,
    token: Seq<char>,
)
    ensures
        forall|i: int|
            0 <= i < starting_alternatives(g, alternatives, token).len() ==> alternatives.contains(
                #[trigger] starting_alternatives(g, alternatives, token)[i],
            ),
    decreases alternatives.len(),
{
    if alternatives.len() > 0 {
        let front = alternatives.drop_last();
        lemma_starting_are_alternatives(g, front, token);
        let starting = starting_alternatives(g, alternatives, token);
        assert forall|i: int| 0 <= i < starting.len() implies alternatives.contains(
            #[trigger] starting[i],
        ) by {
            if i < starting_alternatives(g, front, token).len() {
                let k = choose|k: int| 0 <= k < front.len() && front[k] == starting[i];
                assert(alternatives[k] == starting[i]);
            } else {
                assert(alternatives[alternatives.len() - 1] == starting[i]);
            }
        }
    }
}

/// Further occurrences that get through with `depth + 1` and not with
/// `depth` hold an invocation whose deepest nesting is `depth + 1`.
proof fn lemma_repeat_callee(
    g: GrammarSpec,
    rule_name: Seq<char>,
    separator: Seq<char>,
    tokens: Seq<Seq<char>>,
    depth: nat,
)
    requires
        g.contains_key(rule_name),
        repeat_spec(g, rule_name, separator, tokens, depth + 1) is Some,
        repeat_spec(g, rule_name, separator, tokens, depth) is None,
    ensures
        exists|inner: Invocation| #[trigger] nests_within(g, tokens, inner, depth),
    decreases tokens.len(),
{
    let more = depth + 1;
    let after = tokens.skip(1);
    let one = run_rule_spec(g, rule_name, after, more)->0;
    if run_rule_spec(g, rule_name, after, depth) is None {
        let inner = Invocation { rule_name, tokens: after };
        assert(nests_within(g, tokens, inner, depth));
    } else {
        lemma_run_rule_depth(g, rule_name, after, depth, more);
        lemma_run_rule_shortens(g, rule_name, after, more);
        lemma_repeat_callee(g, rule_name, separator, one.rest, depth);
        let inner = choose|inner: Invocation| #[trigger] nests_within(g, one.rest, inner, depth);
        assert(nests_within(g, tokens, inner, depth));
    }
}

/// An action that gets through with `depth + 1` and not with `depth` holds
/// an invocation whose deepest nesting is `depth + 1`.
proof fn lemma_action_callee(g: GrammarSpec, action: ActionSpec, tokens: Seq<Seq<char>>, depth: nat)
    requires
        action_target(action) matches Some(name) ==> g.contains_key(name),
        run_action_spec(g, action, tokens, depth + 1) is Some,
        run_action_spec(g, action, tokens, depth) is None,
    ensures
        exists|inner: Invocation| #[trigger] nests_within(g, tokens, inner, depth),
{
    let more = depth + 1;
    match action {
        ActionSpec::ConsumeToken(expected) => {},
        ActionSpec::Unknown(raw) => {},
        ActionSpec::RuleName(rule_name) => {
            let inner = Invocation { rule_name, tokens };
            assert(nests_within(g, tokens, inner, depth));
        },
        ActionSpec::RepeatedRuleNameWithSeparator { rule_name, separator } => {
            if run_rule_spec(g, rule_name, tokens, depth) is None {
                let inner = Invocation { rule_name, tokens };
                assert(nests_within(g, tokens, inner, depth));
            } else {
                let first = run_rule_spec(g, rule_name, tokens, more)->0;
                lemma_run_rule_depth(g, rule_name, tokens, depth, more);
                lemma_run_rule_shortens(g, rule_name, tokens, more);
                lemma_repeat_callee(g, rule_name, separator, first.rest, depth);
                let inner = choose|inner: Invocation| #[trigger]
                    nests_within(g, first.rest, inner, depth);
                assert(nests_within(g, tokens, inner, depth));
            }
        },
    }
}

/// A sequence of actions that gets through with `depth + 1` and not with
/// `depth` holds an invocation whose deepest nesting is `depth + 1`.
proof fn lemma_actions_callee(
    g: GrammarSpec,
    actions: Seq<ActionSpec>,
    tokens: Seq<Seq<char>>,
    depth: nat,
)
    requires
        targets_defined(g, actions),
        run_actions_spec(g, actions, tokens, depth + 1) is Some,
        run_actions_spec(g, actions, tokens, depth) is None,
    ensures
        exists|inner: Invocation| #[trigger] nests_within(g, tokens, inner, depth),
    decreases actions.len(),
{
    let more = depth + 1;
    let front_actions = actions.drop_last();
    assert forall|i: int| 0 <= i < front_actions.len() implies (action_target(
        #[trigger] front_actions[i],
    ) matches Some(name) ==> g.contains_key(name)) by {}
    if run_actions_spec(g, front_actions, tokens, depth) is None {
        lemma_actions_callee(g, front_actions, tokens, depth);
    } else {
        let front = run_actions_spec(g, front_actions, tokens, more)->0;
        lemma_run_actions_depth(g, front_actions, tokens, depth, more);
        lemma_run_actions_shorten(g, front_actions, tokens, more);
        lemma_action_callee(g, actions.last(), front.rest, depth);
        let inner = choose|inner: Invocation| #[trigger] nests_within(g, front.rest, inner, depth);
        assert(nests_within(g, tokens, inner, depth));
    }
}

/// A rule whose deepest nesting is `depth + 2` invokes a rule whose deepest
/// nesting is `depth + 1`, on what is left of its own tokens.
pub proof fn lemma_rule_callee(
    g: GrammarSpec,
    rule_name: Seq<char>,
    tokens: Seq<Seq<char>>,
    depth: nat,
)
    requires
        resolved(g),
        g.contains_key(rule_name),
        nests(g, rule_name, tokens, depth + 1),
    ensures
        exists|inner: Invocation| #[trigger] nests_within(g, tokens, inner, depth),
{
    match g[rule_name].rule_type {
        RuleTypeSpec::UserSpecifiedName => {},
        RuleTypeSpec::Actions(actions) => {
            lemma_actions_callee(g, actions, tokens, depth);
        },
        RuleTypeSpec::RuleChoice(alternatives) => {
            let token = lookahead(tokens)->0;
            let starting = starting_alternatives(g, alternatives, token);
            lemma_starting_are_alternatives(g, alternatives, token);
            let inner = Invocation { rule_name: starting[0], tokens };
            assert(nests_within(g, tokens, inner, depth));
        },
    }
}

/// A rule whose deepest nesting is `depth + 1` holds, for every smaller
/// depth, an invocation whose deepest nesting is just that.
pub proof fn lemma_nesting_chain(
    g: GrammarSpec,
    rule_name: Seq<char>,
    tokens: Seq<Seq<char>>,
    depth: nat,
)
    requires
        resolved(g),
        g.contains_key(rule_name),
        nests(g, rule_name, tokens, depth),
    ensures
        exists|chain: Seq<Invocation>|
            #![trigger chain.len()]
            chain.len() == depth + 1 && forall|j: int|
                0 <= j <= depth ==> nests_within(g, tokens, #[trigger] chain[j], j as nat),
    decreases depth,
{
    let outer = Invocation { rule_name, tokens };
    if depth == 0 {
        let chain = seq![outer];
        assert(chain.len() == depth + 1 && forall|j: int|
            0 <= j <= depth ==> nests_within(g, tokens, #[trigger] chain[j], j as nat));
    } else {
        let less = (depth - 1) as nat;
        lemma_rule_callee(g, rule_name, tokens, less);
        let inner = choose|inner: Invocation| #[trigger] nests_within(g, tokens, inner, less);
        lemma_nesting_chain(g, inner.rule_name, inner.tokens, less);
        let below = choose|chain: Seq<Invocation>|
            #![trigger chain.len()]
            chain.len() == less + 1 && forall|j: int|
                0 <= j <= less ==> nests_within(g, inner.tokens, #[trigger] chain[j], j as nat);
        let chain = below.push(outer);
        assert forall|j: int| 0 <= j <= depth implies nests_within(
            g,
            tokens,
            #[trigger] chain[j],
            j as nat,
        ) by {}
        assert(chain.len() == depth + 1);
    }
}

/// Numbers that are all different and all below `bound` are at most `bound`
/// many.
pub proof fn lemma_different_numbers(numbers: Seq<int>, bound: int)
    requires
        0 <= bound,
        numbers.no_duplicates(),
        forall|i: int| 0 <= i < numbers.len() ==> 0 <= #[trigger] numbers[i] < bound,
    ensures
        numbers.len() <= bound,
{
    numbers.unique_seq_to_set();
    lemma_int_range(0, bound);
    assert(numbers.to_set().subset_of(set_int_range(0, bound))) by {
        assert forall|x: int| numbers.to_set().contains(x) implies set_int_range(0, bound).contains(
            x,
        ) by {}
    }
    lemma_len_subset(numbers.to_set(), set_int_range(0, bound));
}

/// A number for an invocation of a rule of `names` on what is left of a
/// stream of `length` tokens: different invocations have different numbers.
pub open spec fn invocation_number(names: Seq<Seq<char>>, length: nat, invocation: Invocation) -> int {
    names.index_of(invocation.rule_name) * (length + 1) + invocation.tokens.len()
}

/// A rule that gets through at all never nests deeper than there are pairs
/// of a rule and a number of tokens left: with the rules `names` and a
/// stream of `n` tokens, the deepest nesting is at most `names.len() * (n +
/// 1)`.
pub proof fn lemma_nesting_is_bounded(
    g: GrammarSpec,
    names: Seq<Seq<char>>,
    rule_name: Seq<char>,
    tokens: Seq<Seq<char>>,
    depth: nat,
)
    requires
        resolved(g),
        g.contains_key(rule_name),
        forall|name: Seq<char>| #[trigger] g.contains_key(name) ==> names.contains(name),
        nests(g, rule_name, tokens, depth),
    ensures
        depth + 1 <= names.len() * (tokens.len() + 1),
{
    lemma_nesting_chain(g, rule_name, tokens, depth);
    let chain = choose|chain: Seq<Invocation>|
        #![trigger chain.len()]
        chain.len() == depth + 1 && forall|j: int|
            0 <= j <= depth ==> nests_within(g, tokens, #[trigger] chain[j], j as nat);
    let length = tokens.len();
    let width = length + 1;
    let bound = names.len() * width;
    let numbers = Seq::new(chain.len(), |j: int| invocation_number(names, length, chain[j]));
    assert forall|j: int| 0 <= j < numbers.len() implies 0 <= #[trigger] numbers[j] < bound by {
        let at = names.index_of(chain[j].rule_name);
        let left = chain[j].tokens.len();
        assert(0 <= at * width + left < names.len() * width) by (nonlinear_arith)
            requires
                0 <= at < names.len(),
                0 <= left < width,
        ;
    }
    assert forall|j: int, k: int| 0 <= j < k < numbers.len() implies numbers[j] != numbers[k] by {
        let at_j = names.index_of(chain[j].rule_name);
        let at_k = names.index_of(chain[k].rule_name);
        let left_j = chain[j].tokens.len();
        let left_k = chain[k].tokens.len();
        if numbers[j] == numbers[k] {
            assert(at_j == at_k && left_j == left_k) by (nonlinear_arith)
                requires
                    at_j * width + left_j == at_k * width + left_k,
                    0 <= left_j < width,
                    0 <= left_k < width,
                    0 <= at_j,
                    0 <= at_k,
            ;
            lemma_run_rule_depth(g, chain[j].rule_name, chain[j].tokens, (j + 1) as nat, k as nat);
        }
    }
    lemma_different_numbers(numbers, bound as int);
}

/// With as many nested invocations allowed as there are pairs of a rule and
/// a number of tokens left, a run that does not get through would not get
/// through with any depth: the rules invoke each other without end.
pub proof fn lemma_sufficient_depth(
    g: GrammarSpec,
    names: Seq<Seq<char>>,
    rule_name: Seq<char>,
    tokens: Seq<Seq<char>>,
    depth: nat,
    other: nat,
)
    requires
        resolved(g),
        g.contains_key(rule_name),
        forall|name: Seq<char>| #[trigger] g.contains_key(name) ==> names.contains(name),
        depth >= names.len() * (tokens.len() + 1),
        run_rule_spec(g, rule_name, tokens, depth) is None,
    ensures
        run_rule_spec(g, rule_name, tokens, other) is None,
    decreases other,
{
    if run_rule_spec(g, rule_name, tokens, other) is Some {
        if other > 0 && run_rule_spec(g, rule_name, tokens, (other - 1) as nat) is Some {
            lemma_sufficient_depth(g, names, rule_name, tokens, depth, (other - 1) as nat);
        } else {
            let least = (other - 1) as nat;
            lemma_nesting_is_bounded(g, names, rule_name, tokens, least);
            lemma_run_rule_depth(g, rule_name, tokens, other, depth);
        }
    }
}

/// A grammar without an undefined reference among the rules `names`, which
/// are all its rules, is resolved.
proof fn lemma_listed_rules_resolved(g: GrammarSpec, names: Seq<Seq<char>>)
    requires
        forall|name: Seq<char>| #[trigger] g.contains_key(name) ==> names.contains(name),
        crate::grammar::first_undefined(g, names) is None,
    ensures
        resolved(g),
{
    lemma_first_undefined(g, names);
    assert forall|name: Seq<char>| #[trigger] g.contains_key(name) implies production_resolved(
        g,
        g[name].rule_type,
    ) by {}
}

/// A run that is given up as nested too deep with the depth that it is
/// allowed would be given up with any depth: the rules invoke each other
/// without end. This holds where the sufficient depth is a `usize`.
pub proof fn lemma_too_deep_is_endless(
    g: GrammarSpec,
    names: Seq<Seq<char>>,
    tokens: Seq<Seq<char>>,
    depth: nat,
)
    requires
        forall|name: Seq<char>| #[trigger] g.contains_key(name) ==> names.contains(name),
        sufficient_depth_for(names.len(), tokens.len()) <= usize::MAX,
        interpretation(g, names, tokens) == Err::<Outcome<ParseTree>, DiagnosticSpec>(
            DiagnosticSpec::NestingTooDeep,
        ),
    ensures
        interpret_spec(g, names, tokens, depth) == Err::<Outcome<ParseTree>, DiagnosticSpec>(
            DiagnosticSpec::NestingTooDeep,
        ),
{
    lemma_listed_rules_resolved(g, names);
    lemma_sufficient_depth(
        g,
        names,
        START_RULE@,
        tokens,
        sufficient_depth_for(names.len(), tokens.len()),
        depth,
    );
}

/// A run that ends with some depth ends just so with the depth that it is
/// allowed: what a run comes to does not hang on the depth. This holds
/// where the sufficient depth is a `usize`.
pub proof fn lemma_interpretation_is_final(
    g: GrammarSpec,
    names: Seq<Seq<char>>,
    tokens: Seq<Seq<char>>,
    depth: nat,
)
    requires
        forall|name: Seq<char>| #[trigger] g.contains_key(name) ==> names.contains(name),
        sufficient_depth_for(names.len(), tokens.len()) <= usize::MAX,
        interpret_spec(g, names, tokens, depth) is Ok,
    ensures
        interpretation(g, names, tokens) == interpret_spec(g, names, tokens, depth),
{
    let allowed = sufficient_depth_for(names.len(), tokens.len());
    lemma_listed_rules_resolved(g, names);
    if run_rule_spec(g, START_RULE@, tokens, allowed) is None {
        lemma_sufficient_depth(g, names, START_RULE@, tokens, allowed, depth);
    } else if allowed <= depth {
        lemma_run_rule_depth(g, START_RULE@, tokens, allowed, depth);
    } else {
        lemma_run_rule_depth(g, START_RULE@, tokens, depth, allowed);
    }
}

} // verus!
