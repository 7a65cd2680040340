//! What interpretation produces: the detailed trace of a run, action by
//! action, and the parse tree that is read off it.

use vstd::prelude::*;
use vstd::string::StringExecFns;
use crate::diagnostic::{Diagnostic, DiagnosticSpec, message_text};
use crate::text::{debug_quoted, quote};

verus! {

/// What one action of a sequence produced.
#[derive(Debug)]
pub enum DetailedActionProduction {
    /// The productions of the rule that the action refers to: one for a
    /// reference, one or more for a repetition.
    Rules(Vec<DetailedRuleProduction>),
    /// A literal that was due here, whether or not it was found.
    Consume(String),
    /// A malformed production token, which does nothing.
    Unknown,
}

/// What one invocation of a rule produced.
#[derive(Debug)]
pub enum DetailedRuleProduction {
    RuleActionSequence { rule_name: String, actions: Vec<DetailedActionProduction> },
    UserSpecifiedName { rule_name: String, user_specified_name: String },
    Error { rule_name: String, diagnostic: Diagnostic },
}

/// The mathematical value of a [`DetailedActionProduction`].
pub enum ActionTrace {
    Rules(Seq<RuleTrace>),
    Consume(Seq<char>),
    Unknown,
}

/// The mathematical value of a [`DetailedRuleProduction`].
pub enum RuleTrace {
    RuleActionSequence { rule_name: Seq<char>, actions: Seq<ActionTrace> },
    UserSpecifiedName { rule_name: Seq<char>, user_specified_name: Seq<char> },
    Error { rule_name: Seq<char>, diagnostic: DiagnosticSpec },
}

/// A node of the parse tree.
#[derive(Debug)]
pub enum RuleProduction {
    /// An action sequence with the productions of the rules it refers to;
    /// literals leave no child.
    RuleActionSequence { rule_name: String, actions: Vec<RuleProduction> },
    /// A token of identifier shape that the program's author chose.
    UserSpecifiedName { rule_name: String, user_specified_name: String },
    /// A rule that could not be read, with the reason.
    Error { rule_name: String, diagnostic: Diagnostic },
}

/// The mathematical value of a [`RuleProduction`].
pub enum ParseTree {
    RuleActionSequence { rule_name: Seq<char>, actions: Seq<ParseTree> },
    UserSpecifiedName { rule_name: Seq<char>, user_specified_name: Seq<char> },
    Error { rule_name: Seq<char>, diagnostic: DiagnosticSpec },
}

impl View for DetailedActionProduction {
    type V = ActionTrace;

    open spec fn view(&self) -> ActionTrace
        decreases self,
    {
        match self {
            DetailedActionProduction::Rules(rules) => ActionTrace::Rules(
                Seq::new(
                    rules@.len(),
                    |i: int|
                        if 0 <= i < rules@.len() {
                            rules@[i].view()
                        } else {
                            arbitrary()
                        },
                ),
            ),
            DetailedActionProduction::Consume(token) => ActionTrace::Consume(token@),
            DetailedActionProduction::Unknown => ActionTrace::Unknown,
        }
    }
}

impl View for DetailedRuleProduction {
    type V = RuleTrace;

    open spec fn view(&self) -> RuleTrace
        decreases self,
    {
        match self {
            DetailedRuleProduction::RuleActionSequence { rule_name, actions } =>
                RuleTrace::RuleActionSequence {
                    rule_name: rule_name@,
                    actions: Seq::new(
                        actions@.len(),
                        |i: int|
                            if 0 <= i < actions@.len() {
                                actions@[i].view()
                            } else {
                                arbitrary()
                            },
                    ),
                },
            DetailedRuleProduction::UserSpecifiedName { rule_name, user_specified_name } =>
                RuleTrace::UserSpecifiedName {
                    rule_name: rule_name@,
                    user_specified_name: user_specified_name@,
                },
            DetailedRuleProduction::Error { rule_name, diagnostic } => RuleTrace::Error {
                rule_name: rule_name@,
                diagnostic: diagnostic@,
            },
        }
    }
}

impl View for RuleProduction {
    type V = ParseTree;

    open spec fn view(&self) -> ParseTree
        decreases self,
    {
        match self {
            RuleProduction::RuleActionSequence { rule_name, actions } =>
                ParseTree::RuleActionSequence {
                    rule_name: rule_name@,
                    actions: Seq::new(
                        actions@.len(),
                        |i: int|
                            if 0 <= i < actions@.len() {
                                actions@[i].view()
                            } else {
                                arbitrary()
                            },
                    ),
                },
            RuleProduction::UserSpecifiedName { rule_name, user_specified_name } =>
                ParseTree::UserSpecifiedName {
                    rule_name: rule_name@,
                    user_specified_name: user_specified_name@,
                },
            RuleProduction::Error { rule_name, diagnostic } => ParseTree::Error {
                rule_name: rule_name@,
                diagnostic: diagnostic@,
            },
        }
    }
}

/// The values of a vector of detailed rule productions.
pub open spec fn rule_traces(rules: Seq<DetailedRuleProduction>) -> Seq<RuleTrace> {
    rules.map_values(|rule: DetailedRuleProduction| rule@)
}

/// The values of a vector of detailed action productions.
pub open spec fn action_traces(actions: Seq<DetailedActionProduction>) -> Seq<ActionTrace> {
    actions.map_values(|action: DetailedActionProduction| action@)
}

/// The values of a vector of parse tree nodes.
pub open spec fn parse_trees(nodes: Seq<RuleProduction>) -> Seq<ParseTree> {
    nodes.map_values(|node: RuleProduction| node@)
}

/// The parse tree of a detailed production: every action sequence keeps the
/// productions of the rules it refers to, in order, and nothing else.
pub open spec fn tree_of(trace: RuleTrace) -> ParseTree
    decreases trace, 0nat,
{
    match trace {
        RuleTrace::RuleActionSequence { rule_name, actions } => ParseTree::RuleActionSequence {
            rule_name,
            actions: children_of(actions),
        },
        RuleTrace::UserSpecifiedName { rule_name, user_specified_name } =>
            ParseTree::UserSpecifiedName { rule_name, user_specified_name },
        RuleTrace::Error { rule_name, diagnostic } => ParseTree::Error { rule_name, diagnostic },
    }
}

/// The parse trees that the actions of one sequence contribute, in order.
pub open spec fn children_of(actions: Seq<ActionTrace>) -> Seq<ParseTree>
    decreases actions, 1nat,
{
    if actions.len() == 0 {
        Seq::empty()
    } else {
        children_of(actions.drop_last()) + (match actions.last() {
            ActionTrace::Rules(rules) => trees_of(rules),
            ActionTrace::Consume(_) => Seq::empty(),
            ActionTrace::Unknown => Seq::empty(),
        })
    }
}

/// The parse trees of a sequence of detailed productions.
pub open spec fn trees_of(rules: Seq<RuleTrace>) -> Seq<ParseTree>
    decreases rules, 1nat,
{
    Seq::new(
        rules.len(),
        |i: int|
            if 0 <= i < rules.len() {
                tree_of(rules[i])
            } else {
                arbitrary()
            },
    )
}

/// The value of an action sequence node, child by child.
pub proof fn lemma_sequence_view(rule_name: String, actions: Vec<RuleProduction>)
    ensures
        (RuleProduction::RuleActionSequence { rule_name, actions })@
            == (ParseTree::RuleActionSequence {
            rule_name: rule_name@,
            actions: parse_trees(actions@),
        }),
{
    let tree = RuleProduction::RuleActionSequence { rule_name, actions };
    reveal_with_fuel(<RuleProduction as View>::view, 2);
    assert(tree@->RuleActionSequence_actions =~= parse_trees(actions@));
}

/// The value of a detailed action sequence, action by action.
pub proof fn lemma_detailed_sequence_view(rule_name: String, actions: Vec<DetailedActionProduction>)
    ensures
        (DetailedRuleProduction::RuleActionSequence { rule_name, actions })@
            == (RuleTrace::RuleActionSequence {
            rule_name: rule_name@,
            actions: action_traces(actions@),
        }),
{
    let rule = DetailedRuleProduction::RuleActionSequence { rule_name, actions };
    assert(rule@->RuleActionSequence_actions =~= action_traces(actions@));
}

/// The value of the productions of a referenced rule, one by one.
pub proof fn lemma_detailed_rules_view(rules: Vec<DetailedRuleProduction>)
    ensures
        DetailedActionProduction::Rules(rules)@ == ActionTrace::Rules(rule_traces(rules@)),
{
    let action = DetailedActionProduction::Rules(rules);
    assert(action@->Rules_0 =~= rule_traces(rules@));
}

/// Reads the parse tree off a detailed production.
pub fn from_detailed(rule: DetailedRuleProduction) -> (tree: RuleProduction)
    ensures
        tree@ == tree_of(rule@),
    decreases rule,
{
    match rule {
        DetailedRuleProduction::RuleActionSequence { rule_name, actions } => {
            let ghost whole = actions;
            let ghost steps = action_traces(whole@);
            let mut high_level_actions: Vec<RuleProduction> = Vec::new();
            for a in it: actions
                invariant
                    it.seq() == whole@,
                    steps == action_traces(whole@),
                    forall|k: int| 0 <= k < whole@.len() ==> decreases_to!(rule => #[trigger] whole@[k]),
                    parse_trees(high_level_actions@) == children_of(steps.take(it.index() as int)),
            {
                let ghost at = it.index() as int;
                let ghost before = parse_trees(high_level_actions@);
                proof {
                    assert(steps.take(at + 1).drop_last() =~= steps.take(at));
                }
                match a {
                    DetailedActionProduction::Rules(drp) => {
                        let ghost inner_whole = drp;
                        let ghost inner = rule_traces(inner_whole@);
                        proof {
                            assert(a@ == ActionTrace::Rules(inner)) by {
                                assert(a@->Rules_0 =~= inner);
                            }
                        }
                        for p in each: drp
                            invariant
                                each.seq() == inner_whole@,
                                inner == rule_traces(inner_whole@),
                                forall|k: int|
                                    0 <= k < inner_whole@.len() ==> decreases_to!(rule => #[trigger] inner_whole@[k]),
                                parse_trees(high_level_actions@) == before + trees_of(inner).take(
                                    each.index() as int,
                                ),
                        {
                            let ghost so_far = high_level_actions@;
                            let tree = from_detailed(p);
                            high_level_actions.push(tree);
                            proof {
                                assert(parse_trees(high_level_actions@) =~= parse_trees(so_far).push(tree@));
                            }
                        }
                    },
                    DetailedActionProduction::Consume(_) => {},
                    DetailedActionProduction::Unknown => {},
                }
            }
            proof {
                assert(steps.take(steps.len() as int) =~= steps);
                assert(rule@->RuleActionSequence_actions =~= steps);
            }
            proof {
                lemma_sequence_view(rule_name, high_level_actions);
            }
            let tree = RuleProduction::RuleActionSequence { rule_name, actions: high_level_actions };
            tree
        },
        DetailedRuleProduction::UserSpecifiedName { rule_name, user_specified_name } =>
            RuleProduction::UserSpecifiedName { rule_name, user_specified_name },
        DetailedRuleProduction::Error { rule_name, diagnostic } => RuleProduction::Error {
            rule_name,
            diagnostic,
        },
    }
}

/// A parse tree as a reader is told of it, on one line: a sequence with its
/// children between square brackets, a name with the token as a string
/// literal, an error with its message.
pub open spec fn tree_text(tree: ParseTree) -> Seq<char>
    decreases tree, 0nat,
{
    match tree {
        ParseTree::RuleActionSequence { rule_name, actions } => "RuleActionSequence "@ + rule_name
            + " ["@ + trees_text(actions) + "]"@,
        ParseTree::UserSpecifiedName { rule_name, user_specified_name } => "UserSpecifiedName "@
            + rule_name + " = "@ + debug_quoted(user_specified_name),
        ParseTree::Error { rule_name, diagnostic } => "Error "@ + rule_name + ": "@ + message_text(
            diagnostic,
        ),
    }
}

/// Parse trees as a reader is told of them, with a comma and a space
/// between each two.
pub open spec fn trees_text(trees: Seq<ParseTree>) -> Seq<char>
    decreases trees, 1nat,
{
    if trees.len() == 0 {
        Seq::empty()
    } else if trees.len() == 1 {
        tree_text(trees[0])
    } else {
        trees_text(trees.drop_last()) + ", "@ + tree_text(trees.last())
    }
}

impl RuleProduction {
    /// Tells a reader of the parse tree, on one line.
    pub fn to_text(&self) -> (text: String)
        ensures
            text@ == tree_text(self@),
        decreases self,
    {
        match self {
            RuleProduction::RuleActionSequence { rule_name, actions } => {
                let ghost children = parse_trees(actions@);
                let mut listed = String::new();
                let mut at: usize = 0;
                proof {
                    lemma_sequence_view(*rule_name, *actions);
                }
                while at < actions.len()
                    invariant
                        at <= actions@.len(),
                        children == parse_trees(actions@),
                        forall|k: int|
                            0 <= k < actions@.len() ==> decreases_to!(self => #[trigger] actions@[k]),
                        listed@ == trees_text(children.take(at as int)),
                    decreases actions@.len() - at,
                {
                    proof {
                        assert(children.take(at + 1).drop_last() =~= children.take(at as int));
                    }
                    if at > 0 {
                        listed.append(", ");
                    }
                    listed.append(actions[at].to_text().as_str());
                    at += 1;
                }
                proof {
                    assert(children.take(at as int) =~= children);
                }
                let mut text = String::from_str("RuleActionSequence ");
                text.append(rule_name.as_str());
                text.append(" [");
                text.append(listed.as_str());
                text.append("]");
                text
            },
            RuleProduction::UserSpecifiedName { rule_name, user_specified_name } => {
                let mut text = String::from_str("UserSpecifiedName ");
                text.append(rule_name.as_str());
                text.append(" = ");
                text.append(quote(user_specified_name.as_str()).as_str());
                text
            },
            RuleProduction::Error { rule_name, diagnostic } => {
                let mut text = String::from_str("Error ");
                text.append(rule_name.as_str());
                text.append(": ");
                text.append(diagnostic.message().as_str());
                text
            },
        }
    }
}

} // verus!
