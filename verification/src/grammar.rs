//! The grammar model: rules, their productions, and the rule table.

use vstd::prelude::*;
use vstd::hash_map::StringHashMap;
use vstd::string::StringExecFns;
use crate::text::{
    lemma_text_less_connected, lemma_text_less_transitive, strictly_increasing, string_views,
    text_before, text_less,
};

verus! {

/// One step of an action sequence.
#[derive(Debug)]
pub enum RuleAction {
    /// Expect this literal token and consume it.
    ConsumeToken(String),
    /// Parse the named rule once.
    RuleName(String),
    /// Parse the named rule once, then again after every separator.
    RepeatedRuleNameWithSeparator { rule_name: String, separator: String },
    /// A production token of no recognised shape, kept as written.
    Unknown(String),
}

/// The mathematical value of a [`RuleAction`].
pub enum ActionSpec {
    ConsumeToken(Seq<char>),
    RuleName(Seq<char>),
    RepeatedRuleNameWithSeparator { rule_name: Seq<char>, separator: Seq<char> },
    Unknown(Seq<char>),
}

impl View for RuleAction {
    type V = ActionSpec;

    open spec fn view(&self) -> ActionSpec {
        match self {
            RuleAction::ConsumeToken(token) => ActionSpec::ConsumeToken(token@),
            RuleAction::RuleName(rule_name) => ActionSpec::RuleName(rule_name@),
            RuleAction::RepeatedRuleNameWithSeparator { rule_name, separator } =>
                ActionSpec::RepeatedRuleNameWithSeparator {
                    rule_name: rule_name@,
                    separator: separator@,
                },
            RuleAction::Unknown(token) => ActionSpec::Unknown(token@),
        }
    }
}

/// The shape of a rule's production.
#[derive(Debug)]
pub enum RuleType {
    /// A single token of identifier shape, chosen by the program's author.
    UserSpecifiedName,
    /// Exactly one of the named rules.
    RuleChoice(Vec<String>),
    /// The actions in order.
    Actions(Vec<RuleAction>),
}

/// The mathematical value of a [`RuleType`].
pub enum RuleTypeSpec {
    UserSpecifiedName,
    RuleChoice(Seq<Seq<char>>),
    Actions(Seq<ActionSpec>),
}

/// The values of a vector of actions.
pub open spec fn action_views(actions: Seq<RuleAction>) -> Seq<ActionSpec> {
    actions.map_values(|action: RuleAction| action@)
}

impl View for RuleType {
    type V = RuleTypeSpec;

    open spec fn view(&self) -> RuleTypeSpec {
        match self {
            RuleType::UserSpecifiedName => RuleTypeSpec::UserSpecifiedName,
            RuleType::RuleChoice(sub_rule_names) => RuleTypeSpec::RuleChoice(
                string_views(sub_rule_names@),
            ),
            RuleType::Actions(actions) => RuleTypeSpec::Actions(action_views(actions@)),
        }
    }
}

impl RuleType {
    /// The first rule, from the left, that this production refers to and
    /// `grammar` does not define.
    pub fn missing_reference(&self, grammar: &Grammar) -> (missing: Option<String>)
        ensures
            match missing {
                Some(name) => first_missing_in(grammar@, self@) == Some(name@),
                None => first_missing_in(grammar@, self@) is None,
            },
    {
        let mut missing: Option<String> = None;
        match self {
            RuleType::UserSpecifiedName => {},
            RuleType::RuleChoice(sub_rule_names) => {
                let ghost names = string_views(sub_rule_names@);
                let mut at: usize = 0;
                while at < sub_rule_names.len()
                    invariant
                        at <= sub_rule_names@.len(),
                        names == string_views(sub_rule_names@),
                        match missing {
                            Some(name) => first_missing_name(grammar@, names.take(at as int))
                                == Some(name@),
                            None => first_missing_name(grammar@, names.take(at as int)) is None,
                        },
                    decreases sub_rule_names@.len() - at,
                {
                    proof {
                        assert(names.take(at + 1).drop_last() =~= names.take(at as int));
                    }
                    if missing.is_none() && !grammar.contains(sub_rule_names[at].as_str()) {
                        missing = Some(sub_rule_names[at].clone());
                    }
                    at += 1;
                }
                proof {
                    assert(names.take(at as int) =~= names);
                }
            },
            RuleType::Actions(actions) => {
                let ghost steps = action_views(actions@);
                let mut at: usize = 0;
                while at < actions.len()
                    invariant
                        at <= actions@.len(),
                        steps == action_views(actions@),
                        match missing {
                            Some(name) => first_missing_target(grammar@, steps.take(at as int))
                                == Some(name@),
                            None => first_missing_target(grammar@, steps.take(at as int)) is None,
                        },
                    decreases actions@.len() - at,
                {
                    proof {
                        assert(steps.take(at + 1).drop_last() =~= steps.take(at as int));
                    }
                    if missing.is_none() {
                        match &actions[at] {
                            RuleAction::RuleName(rule_name) => {
                                if !grammar.contains(rule_name.as_str()) {
                                    missing = Some(rule_name.clone());
                                }
                            },
                            RuleAction::RepeatedRuleNameWithSeparator { rule_name, separator } => {
                                if !grammar.contains(rule_name.as_str()) {
                                    missing = Some(rule_name.clone());
                                }
                            },
                            _ => {},
                        }
                    }
                    at += 1;
                }
                proof {
                    assert(steps.take(at as int) =~= steps);
                }
            },
        }
        missing
    }
}

/// A named rule.
#[derive(Debug)]
pub struct Rule {
    pub rule_name: String,
    pub rule_type: RuleType,
}

/// The mathematical value of a [`Rule`].
pub struct RuleSpec {
    pub rule_name: Seq<char>,
    pub rule_type: RuleTypeSpec,
}

impl View for Rule {
    type V = RuleSpec;

    open spec fn view(&self) -> RuleSpec {
        RuleSpec { rule_name: self.rule_name@, rule_type: self.rule_type@ }
    }
}

/// A rule table as a mathematical map from rule name to rule.
pub type GrammarSpec = Map<Seq<char>, RuleSpec>;

/// The rule that an action refers to, if it refers to one.
pub open spec fn action_target(action: ActionSpec) -> Option<Seq<char>> {
    match action {
        ActionSpec::RuleName(rule_name) => Some(rule_name),
        ActionSpec::RepeatedRuleNameWithSeparator { rule_name, separator } => Some(rule_name),
        _ => None,
    }
}

/// Each of `names` is defined in `g`.
pub open spec fn names_defined(g: GrammarSpec, names: Seq<Seq<char>>) -> bool {
    forall|i: int| 0 <= i < names.len() ==> g.contains_key(#[trigger] names[i])
}

/// Each rule that `actions` refer to is defined in `g`.
pub open spec fn targets_defined(g: GrammarSpec, actions: Seq<ActionSpec>) -> bool {
    forall|i: int|
        0 <= i < actions.len() ==> (action_target(#[trigger] actions[i]) matches Some(name)
            ==> g.contains_key(name))
}

/// Every rule that this production refers to is defined in `g`.
pub open spec fn production_resolved(g: GrammarSpec, rule_type: RuleTypeSpec) -> bool {
    match rule_type {
        RuleTypeSpec::UserSpecifiedName => true,
        RuleTypeSpec::RuleChoice(sub_rule_names) => names_defined(g, sub_rule_names),
        RuleTypeSpec::Actions(actions) => targets_defined(g, actions),
    }
}

/// Every rule reference anywhere in `g` names a rule of `g`.
pub open spec fn resolved(g: GrammarSpec) -> bool {
    forall|name: Seq<char>| #[trigger] g.contains_key(name) ==> production_resolved(g, g[name].rule_type)
}

/// Every rule is filed under its own name.
pub open spec fn filed_by_name(g: GrammarSpec) -> bool {
    forall|name: Seq<char>| #[trigger] g.contains_key(name) ==> g[name].rule_name == name
}

/// The first of `names`, from the left, that `g` does not define.
pub open spec fn first_missing_name(g: GrammarSpec, names: Seq<Seq<char>>) -> Option<Seq<char>>
    decreases names.len(),
{
    if names.len() == 0 {
        None
    } else {
        match first_missing_name(g, names.drop_last()) {
            Some(name) => Some(name),
            None => if g.contains_key(names.last()) {
                None
            } else {
                Some(names.last())
            },
        }
    }
}

/// The first rule, from the left, that `actions` refer to and `g` does not
/// define.
pub open spec fn first_missing_target(g: GrammarSpec, actions: Seq<ActionSpec>) -> Option<Seq<char>>
    decreases actions.len(),
{
    if actions.len() == 0 {
        None
    } else {
        match first_missing_target(g, actions.drop_last()) {
            Some(name) => Some(name),
            None => match action_target(actions.last()) {
                Some(name) => if g.contains_key(name) {
                    None
                } else {
                    Some(name)
                },
                None => None,
            },
        }
    }
}

/// The first rule, from the left, that a production refers to and `g` does
/// not define.
pub open spec fn first_missing_in(g: GrammarSpec, rule_type: RuleTypeSpec) -> Option<Seq<char>> {
    match rule_type {
        RuleTypeSpec::UserSpecifiedName => None,
        RuleTypeSpec::RuleChoice(sub_rule_names) => first_missing_name(g, sub_rule_names),
        RuleTypeSpec::Actions(actions) => first_missing_target(g, actions),
    }
}

/// The first undefined reference of `g`, going through the rules `names` in
/// order and through each production from the left.
pub open spec fn first_undefined(g: GrammarSpec, names: Seq<Seq<char>>) -> Option<Seq<char>>
    decreases names.len(),
{
    if names.len() == 0 {
        None
    } else {
        match first_undefined(g, names.drop_last()) {
            Some(name) => Some(name),
            None => first_missing_in(g, g[names.last()].rule_type),
        }
    }
}

/// `first_missing_name` finds nothing exactly when every name is defined,
/// and what it finds is one of the names and undefined.
pub proof fn lemma_first_missing_name(g: GrammarSpec, names: Seq<Seq<char>>)
    ensures
        first_missing_name(g, names) is None <==> forall|i: int|
            0 <= i < names.len() ==> g.contains_key(#[trigger] names[i]),
        first_missing_name(g, names) matches Some(name) ==> !g.contains_key(name)
            && names.contains(name),
    decreases names.len(),
{
    if names.len() > 0 {
        lemma_first_missing_name(g, names.drop_last());
        if first_missing_name(g, names.drop_last()) is None {
            assert forall|i: int| 0 <= i < names.len() && g.contains_key(names.last()) implies g.contains_key(
                #[trigger] names[i],
            ) by {
                if i < names.len() - 1 {
                    assert(names.drop_last()[i] == names[i]);
                }
            }
        }
    }
}

/// `first_missing_target` finds nothing exactly when every rule referred to
/// is defined, and what it finds is referred to and undefined.
pub proof fn lemma_first_missing_target(g: GrammarSpec, actions: Seq<ActionSpec>)
    ensures
        first_missing_target(g, actions) is None <==> production_resolved(
            g,
            RuleTypeSpec::Actions(actions),
        ),
        first_missing_target(g, actions) matches Some(name) ==> !g.contains_key(name) && exists|
            i: int,
        |
            0 <= i < actions.len() && #[trigger] action_target(actions[i]) == Some(name),
    decreases actions.len(),
{
    if actions.len() > 0 {
        let front = actions.drop_last();
        lemma_first_missing_target(g, front);
        if first_missing_target(g, front) is None {
            assert forall|i: int| 0 <= i < actions.len() && first_missing_target(g, actions) is None implies (
            #[trigger] action_target(actions[i]) matches Some(name) ==> g.contains_key(name)) by {
                if i < actions.len() - 1 {
                    assert(front[i] == actions[i]);
                }
            }
        }
    }
}

/// A production has no missing reference exactly when it is resolved.
pub proof fn lemma_first_missing_in(g: GrammarSpec, rule_type: RuleTypeSpec)
    ensures
        first_missing_in(g, rule_type) is None <==> production_resolved(g, rule_type),
        first_missing_in(g, rule_type) matches Some(name) ==> !g.contains_key(name),
{
    match rule_type {
        RuleTypeSpec::UserSpecifiedName => {},
        RuleTypeSpec::RuleChoice(sub_rule_names) => {
            lemma_first_missing_name(g, sub_rule_names);
        },
        RuleTypeSpec::Actions(actions) => {
            lemma_first_missing_target(g, actions);
        },
    }
}

/// `first_undefined` finds nothing exactly when the production of every
/// listed rule is resolved, and what it finds is undefined.
pub proof fn lemma_first_undefined(g: GrammarSpec, names: Seq<Seq<char>>)
    ensures
        first_undefined(g, names) is None <==> forall|i: int|
            0 <= i < names.len() ==> production_resolved(g, g[#[trigger] names[i]].rule_type),
        first_undefined(g, names) matches Some(name) ==> !g.contains_key(name),
    decreases names.len(),
{
    if names.len() > 0 {
        let front = names.drop_last();
        lemma_first_undefined(g, front);
        lemma_first_missing_in(g, g[names.last()].rule_type);
        if first_undefined(g, front) is None {
            assert forall|i: int|
                0 <= i < names.len() && first_undefined(g, names) is None implies production_resolved(
                g,
                g[#[trigger] names[i]].rule_type,
            ) by {
                if i < names.len() - 1 {
                    assert(front[i] == names[i]);
                }
            }
        }
    }
}

/// The rule table. Names are unique; a rule added under a name that is
/// already taken replaces the earlier one.
pub struct Grammar {
    rules: StringHashMap<Rule>,
    /// The names of the rules, in increasing order.
    names: Vec<String>,
}

impl View for Grammar {
    type V = GrammarSpec;

    closed spec fn view(&self) -> GrammarSpec {
        self.rules@.map_values(|rule: Rule| rule@)
    }
}

impl Grammar {
    /// The names of the rules in increasing order.
    pub closed spec fn rule_names(&self) -> Seq<Seq<char>> {
        string_views(self.names@)
    }

    /// The table is consistent: every rule is filed under its own name, and
    /// the name list holds exactly the names of the rules, in increasing
    /// order.
    pub closed spec fn wf(&self) -> bool {
        &&& filed_by_name(self@)
        &&& strictly_increasing(self.rule_names())
        &&& forall|i: int|
            0 <= i < self.names@.len() ==> self.rules@.contains_key(#[trigger] self.names@[i]@)
        &&& forall|name: Seq<char>| #[trigger]
            self.rules@.contains_key(name) ==> exists|i: int|
                0 <= i < self.names@.len() && #[trigger] self.names@[i]@ == name
    }

    /// What well-formedness says of the name list.
    pub proof fn lemma_rule_names(&self)
        requires
            self.wf(),
        ensures
            filed_by_name(self@),
            strictly_increasing(self.rule_names()),
            forall|i: int|
                0 <= i < self.rule_names().len() ==> self@.contains_key(
                    #[trigger] self.rule_names()[i],
                ),
            forall|name: Seq<char>| #[trigger]
                self@.contains_key(name) ==> self.rule_names().contains(name),
    {
        assert forall|name: Seq<char>| #[trigger]
            self@.contains_key(name) implies self.rule_names().contains(name) by {
            let i = choose|i: int| 0 <= i < self.names@.len() && #[trigger] self.names@[i]@ == name;
            assert(self.rule_names()[i] == name);
        }
    }

    /// An empty table.
    pub fn new() -> (grammar: Grammar)
        ensures
            grammar.wf(),
            grammar@ == Map::<Seq<char>, RuleSpec>::empty(),
            grammar.rule_names() == Seq::<Seq<char>>::empty(),
    {
        let grammar = Grammar { rules: StringHashMap::new(), names: Vec::new() };
        grammar
    }

    /// The number of rules.
    pub fn len(&self) -> (n: usize)
        requires
            self.wf(),
        ensures
            n == self.rule_names().len(),
    {
        self.names.len()
    }

    /// The name of the rule at position `i` of the increasing order.
    pub fn rule_name_at(&self, i: usize) -> (name: &String)
        requires
            self.wf(),
            i < self.rule_names().len(),
        ensures
            name@ == self.rule_names()[i as int],
    {
        &self.names[i]
    }

    /// Whether a rule of this name is defined.
    pub fn contains(&self, name: &str) -> (found: bool)
        ensures
            found == self@.contains_key(name@),
    {
        self.rules.contains_key(name)
    }

    /// The rule of this name, if it is defined.
    pub fn get(&self, name: &str) -> (found: Option<&Rule>)
        ensures
            match found {
                Some(rule) => self@.contains_key(name@) && rule@ == self@[name@],
                None => !self@.contains_key(name@),
            },
    {
        self.rules.get(name)
    }

    /// The first reference to a rule that is not defined, going through the
    /// rules in increasing order of name and through each production from
    /// the left; `None` exactly when every reference is defined.
    pub fn undefined_reference(&self) -> (missing: Option<String>)
        requires
            self.wf(),
        ensures
            missing is None <==> resolved(self@),
            match missing {
                Some(name) => first_undefined(self@, self.rule_names()) == Some(name@),
                None => first_undefined(self@, self.rule_names()) is None,
            },
    {
        let mut missing: Option<String> = None;
        let mut at: usize = 0;
        while at < self.names.len()
            invariant
                self.wf(),
                at <= self.names@.len(),
                match missing {
                    Some(name) => first_undefined(self@, self.rule_names().take(at as int)) == Some(
                        name@,
                    ),
                    None => first_undefined(self@, self.rule_names().take(at as int)) is None,
                },
            decreases self.names@.len() - at,
        {
            proof {
                assert(self.rule_names().take(at + 1).drop_last() =~= self.rule_names().take(
                    at as int,
                ));
            }
            if missing.is_none() {
                match self.rules.get(self.names[at].as_str()) {
                    Some(rule) => {
                        missing = rule.rule_type.missing_reference(self);
                    },
                    None => {},
                }
            }
            at += 1;
        }
        proof {
            assert(self.rule_names().take(at as int) =~= self.rule_names());
            lemma_first_undefined(self@, self.rule_names());
            self.lemma_rule_names();
            if missing is None {
                assert forall|name: Seq<char>| #[trigger]
                    self@.contains_key(name) implies production_resolved(
                    self@,
                    self@[name].rule_type,
                ) by {}
            }
        }
        missing
    }

    /// Files `rule` under its own name, replacing any rule of that name.
    pub fn insert(&mut self, rule: Rule)
        requires
            old(self).wf(),
        ensures
            final(self).wf(),
            final(self)@ == old(self)@.insert(rule.rule_name@, rule@),
    {
        let key = rule.rule_name.clone();
        if !self.rules.contains_key(key.as_str()) {
            let mut at: usize = 0;
            while at < self.names.len() && text_before(self.names[at].as_str(), key.as_str())
                invariant
                    at <= self.names@.len(),
                    forall|k: int| 0 <= k < at ==> text_less(#[trigger] self.names@[k]@, key@),
                decreases self.names@.len() - at,
            {
                at += 1;
            }
            proof {
                let names = self.rule_names();
                let after = names.insert(at as int, key@);
                assert forall|i: int, j: int| 0 <= i < j < after.len() implies text_less(
                    #[trigger] after[i],
                    #[trigger] after[j],
                ) by {
                    if j == at {
                        assert(after[i] == self.names@[i]@);
                    } else if i == at {
                        let next = self.names@[at as int]@;
                        assert(self.rules@.contains_key(next));
                        lemma_text_less_connected(next, key@);
                        if j - 1 > at {
                            assert(text_less(names[at as int], names[j - 1]));
                            lemma_text_less_transitive(key@, next, names[j - 1]);
                        }
                    } else {
                        let i0 = if i < at { i } else { i - 1 };
                        let j0 = if j < at { j } else { j - 1 };
                        assert(text_less(names[i0], names[j0]));
                    }
                }
            }
            self.names.insert(at, key.clone());
            assert(self.rule_names() =~= old(self).rule_names().insert(at as int, key@));
        }
        let ghost before = self.names@;
        self.rules.insert(key, rule);
        proof {
            assert(self@ =~= old(self)@.insert(rule.rule_name@, rule@));
            assert forall|name: Seq<char>| #[trigger] self.rules@.contains_key(name) implies exists|i: int|
                0 <= i < self.names@.len() && #[trigger] self.names@[i]@ == name by {
                if name == rule.rule_name@ {
                    if old(self).rules@.contains_key(name) {
                        let i = choose|i: int|
                            0 <= i < old(self).names@.len() && #[trigger] old(self).names@[i]@
                                == name;
                        assert(self.names@[i]@ == name);
                    } else {
                        let at = choose|at: int|
                            0 <= at <= old(self).names@.len() && self.names@ == old(
                                self,
                            ).names@.insert(at, key);
                        assert(self.names@[at]@ == name);
                    }
                } else {
                    let i = choose|i: int|
                        0 <= i < old(self).names@.len() && #[trigger] old(self).names@[i]@ == name;
                    if old(self).rules@.contains_key(rule.rule_name@) {
                        assert(self.names@[i]@ == name);
                    } else {
                        let at = choose|at: int|
                            0 <= at <= old(self).names@.len() && self.names@ == old(
                                self,
                            ).names@.insert(at, key);
                        if i < at {
                            assert(self.names@[i]@ == name);
                        } else {
                            assert(self.names@[i + 1]@ == name);
                        }
                    }
                }
            }
        }
    }
}

/// An action as a reader is told of it.
pub open spec fn action_text(action: ActionSpec) -> Seq<char> {
    match action {
        ActionSpec::ConsumeToken(token) => "ConsumeToken: \""@ + token + "\""@,
        ActionSpec::RuleName(rule_name) => "RuleName: "@ + rule_name,
        ActionSpec::RepeatedRuleNameWithSeparator { rule_name, separator } =>
            "RepeatedRuleNameWithSeparator \""@ + separator + "\"-separated sub-rule: "@ + rule_name,
        ActionSpec::Unknown(token) => "Unknown: "@ + token,
    }
}

/// The alternatives of a choice, each on a line of its own.
pub open spec fn alternative_lines(sub_rule_names: Seq<Seq<char>>) -> Seq<char>
    decreases sub_rule_names.len(),
{
    if sub_rule_names.len() == 0 {
        Seq::empty()
    } else {
        alternative_lines(sub_rule_names.drop_last()) + "  "@ + sub_rule_names.last() + "\n"@
    }
}

/// The actions of a sequence, each on a line of its own.
pub open spec fn action_lines(actions: Seq<ActionSpec>) -> Seq<char>
    decreases actions.len(),
{
    if actions.len() == 0 {
        Seq::empty()
    } else {
        action_lines(actions.drop_last()) + "  "@ + action_text(actions.last()) + "\n"@
    }
}

/// A rule as a reader is told of it: its name and its production, one or
/// more lines.
pub open spec fn rule_text(rule: RuleSpec) -> Seq<char> {
    "rule: "@ + rule.rule_name + (match rule.rule_type {
        RuleTypeSpec::UserSpecifiedName => " read user-specified-name\n"@,
        RuleTypeSpec::RuleChoice(sub_rule_names) => " one of the following sub-rules:\n"@
            + alternative_lines(sub_rule_names),
        RuleTypeSpec::Actions(actions) => " action sequence:\n"@ + action_lines(actions),
    })
}

/// The rules `names` of a grammar as a reader is told of them, one after
/// the other.
pub open spec fn grammar_text(g: GrammarSpec, names: Seq<Seq<char>>) -> Seq<char>
    decreases names.len(),
{
    if names.len() == 0 {
        Seq::empty()
    } else {
        grammar_text(g, names.drop_last()) + rule_text(g[names.last()])
    }
}

impl RuleAction {
    /// Tells a reader of the action.
    pub fn to_text(&self) -> (text: String)
        ensures
            text@ == action_text(self@),
    {
        match self {
            RuleAction::ConsumeToken(token) => {
                let mut text = String::from_str("ConsumeToken: \"");
                text.append(token.as_str());
                text.append("\"");
                text
            },
            RuleAction::RuleName(rule_name) => {
                let mut text = String::from_str("RuleName: ");
                text.append(rule_name.as_str());
                text
            },
            RuleAction::RepeatedRuleNameWithSeparator { rule_name, separator } => {
                let mut text = String::from_str("RepeatedRuleNameWithSeparator \"");
                text.append(separator.as_str());
                text.append("\"-separated sub-rule: ");
                text.append(rule_name.as_str());
                text
            },
            RuleAction::Unknown(token) => {
                let mut text = String::from_str("Unknown: ");
                text.append(token.as_str());
                text
            },
        }
    }
}

impl Rule {
    /// Tells a reader of the rule.
    pub fn to_text(&self) -> (text: String)
        ensures
            text@ == rule_text(self@),
    {
        let mut text = String::from_str("rule: ");
        text.append(self.rule_name.as_str());
        match &self.rule_type {
            RuleType::UserSpecifiedName => {
                text.append(" read user-specified-name\n");
            },
            RuleType::RuleChoice(sub_rule_names) => {
                let ghost names = string_views(sub_rule_names@);
                let mut lines = String::from_str(" one of the following sub-rules:\n");
                let ghost opening = lines@;
                let mut at: usize = 0;
                while at < sub_rule_names.len()
                    invariant
                        at <= sub_rule_names@.len(),
                        names == string_views(sub_rule_names@),
                        lines@ == opening + alternative_lines(names.take(at as int)),
                    decreases sub_rule_names@.len() - at,
                {
                    proof {
                        assert(names.take(at + 1).drop_last() =~= names.take(at as int));
                    }
                    lines.append("  ");
                    lines.append(sub_rule_names[at].as_str());
                    lines.append("\n");
                    at += 1;
                }
                proof {
                    assert(names.take(at as int) =~= names);
                }
                text.append(lines.as_str());
            },
            RuleType::Actions(actions) => {
                let ghost steps = action_views(actions@);
                let mut lines = String::from_str(" action sequence:\n");
                let ghost opening = lines@;
                let mut at: usize = 0;
                while at < actions.len()
                    invariant
                        at <= actions@.len(),
                        steps == action_views(actions@),
                        lines@ == opening + action_lines(steps.take(at as int)),
                    decreases actions@.len() - at,
                {
                    proof {
                        assert(steps.take(at + 1).drop_last() =~= steps.take(at as int));
                    }
                    lines.append("  ");
                    lines.append(actions[at].to_text().as_str());
                    lines.append("\n");
                    at += 1;
                }
                proof {
                    assert(steps.take(at as int) =~= steps);
                }
                text.append(lines.as_str());
            },
        }
        text
    }
}

impl Grammar {
    /// Tells a reader of the grammar, rule by rule in increasing order of
    /// name.
    pub fn to_text(&self) -> (text: String)
        requires
            self.wf(),
        ensures
            text@ == grammar_text(self@, self.rule_names()),
    {
        let mut text = String::new();
        let mut at: usize = 0;
        let ghost names = self.rule_names();
        proof {
            self.lemma_rule_names();
        }
        while at < self.names.len()
            invariant
                self.wf(),
                at <= self.names@.len(),
                names == self.rule_names(),
                forall|i: int| 0 <= i < names.len() ==> self@.contains_key(#[trigger] names[i]),
                text@ == grammar_text(self@, names.take(at as int)),
            decreases self.names@.len() - at,
        {
            proof {
                assert(names.take(at + 1).drop_last() =~= names.take(at as int));
            }
            match self.get(self.names[at].as_str()) {
                Some(rule) => {
                    text.append(rule.to_text().as_str());
                },
                None => {
                    assert(self@.contains_key(names[at as int]));
                    assert(false);
                },
            }
            at += 1;
        }
        proof {
            assert(names.take(at as int) =~= names);
        }
        text
    }
}

} // verus!
