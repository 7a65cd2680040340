//! What can go wrong while a grammar is loaded, interpreted or turned into
//! parser source.

use vstd::prelude::*;
use vstd::string::StringExecFns;
use crate::text::{decimal, decimal_text, option_text};

verus! {

/// A finding about a grammar or about a program read against it.
#[derive(Debug)]
pub enum Diagnostic {
    /// A grammar line with fewer than two words; `line` counts from zero.
    StructuralGrammarError { line: usize },
    /// A production token of no recognised shape.
    MalformedProduction { raw: String },
    /// A reference to a rule that the grammar does not define.
    UndefinedRuleReference { rule_name: String },
    /// A rule whose start cannot be decided by looking at one token.
    UndecidableStartPredicate { rule_name: String },
    /// A choice that does not single out one alternative. The interpreter
    /// reports how many alternatives could begin at the next token, which
    /// is any number but 1; the generator reports 2 where two alternatives
    /// have a start condition of the same text.
    AmbiguousChoice { rule_name: String, matches: usize },
    /// The literal `expected` was due; `found` is the token that stood
    /// there, or `None` at the end of the stream.
    LiteralMismatch { expected: String, found: Option<String> },
    /// A token of identifier shape was due for `rule_name`.
    MalformedUserName { rule_name: String, found: Option<String> },
    /// Rule invocations are nested deeper than the run allows.
    NestingTooDeep,
}

/// The mathematical value of a [`Diagnostic`].
pub enum DiagnosticSpec {
    StructuralGrammarError { line: nat },
    MalformedProduction { raw: Seq<char> },
    UndefinedRuleReference { rule_name: Seq<char> },
    UndecidableStartPredicate { rule_name: Seq<char> },
    AmbiguousChoice { rule_name: Seq<char>, matches: nat },
    LiteralMismatch { expected: Seq<char>, found: Option<Seq<char>> },
    MalformedUserName { rule_name: Seq<char>, found: Option<Seq<char>> },
    NestingTooDeep,
}

impl View for Diagnostic {
    type V = DiagnosticSpec;

    open spec fn view(&self) -> DiagnosticSpec {
        match self {
            Diagnostic::StructuralGrammarError { line } => DiagnosticSpec::StructuralGrammarError {
                line: *line as nat,
            },
            Diagnostic::MalformedProduction { raw } => DiagnosticSpec::MalformedProduction {
                raw: raw@,
            },
            Diagnostic::UndefinedRuleReference { rule_name } =>
                DiagnosticSpec::UndefinedRuleReference { rule_name: rule_name@ },
            Diagnostic::UndecidableStartPredicate { rule_name } =>
                DiagnosticSpec::UndecidableStartPredicate { rule_name: rule_name@ },
            Diagnostic::AmbiguousChoice { rule_name, matches } => DiagnosticSpec::AmbiguousChoice {
                rule_name: rule_name@,
                matches: *matches as nat,
            },
            Diagnostic::LiteralMismatch { expected, found } => DiagnosticSpec::LiteralMismatch {
                expected: expected@,
                found: option_text(*found),
            },
            Diagnostic::MalformedUserName { rule_name, found } => DiagnosticSpec::MalformedUserName {
                rule_name: rule_name@,
                found: option_text(*found),
            },
            Diagnostic::NestingTooDeep => DiagnosticSpec::NestingTooDeep,
        }
    }
}

impl Clone for Diagnostic {
    fn clone(&self) -> (copy: Self)
        ensures
            copy@ == self@,
    {
        match self {
            Diagnostic::StructuralGrammarError { line } => Diagnostic::StructuralGrammarError {
                line: *line,
            },
            Diagnostic::MalformedProduction { raw } => Diagnostic::MalformedProduction {
                raw: raw.clone(),
            },
            Diagnostic::UndefinedRuleReference { rule_name } => Diagnostic::UndefinedRuleReference {
                rule_name: rule_name.clone(),
            },
            Diagnostic::UndecidableStartPredicate { rule_name } =>
                Diagnostic::UndecidableStartPredicate { rule_name: rule_name.clone() },
            Diagnostic::AmbiguousChoice { rule_name, matches } => Diagnostic::AmbiguousChoice {
                rule_name: rule_name.clone(),
                matches: *matches,
            },
            Diagnostic::LiteralMismatch { expected, found } => Diagnostic::LiteralMismatch {
                expected: expected.clone(),
                found: copy_text(found),
            },
            Diagnostic::MalformedUserName { rule_name, found } => Diagnostic::MalformedUserName {
                rule_name: rule_name.clone(),
                found: copy_text(found),
            },
            Diagnostic::NestingTooDeep => Diagnostic::NestingTooDeep,
        }
    }
}

/// A copy of an optional string.
fn copy_text(text: &Option<String>) -> (copy: Option<String>)
    ensures
        option_text(copy) == option_text(*text),
{
    match text {
        Some(s) => Some(s.clone()),
        None => None,
    }
}

/// The values of a vector of diagnostics.
pub open spec fn diagnostic_views(log: Seq<Diagnostic>) -> Seq<DiagnosticSpec> {
    log.map_values(|d: Diagnostic| d@)
}

/// How a token that was found is named in a message: between double
/// quotes, or as the end of the input.
pub open spec fn found_text(found: Option<Seq<char>>) -> Seq<char> {
    match found {
        Some(token) => "\""@ + token + "\""@,
        None => "the end of the input"@,
    }
}

/// The message that tells a reader of a diagnostic.
pub open spec fn message_text(diagnostic: DiagnosticSpec) -> Seq<char> {
    match diagnostic {
        DiagnosticSpec::StructuralGrammarError { line } => "GRAMMAR ERROR: fewer than two words on line "@
            + decimal_text(line),
        DiagnosticSpec::MalformedProduction { raw } => "UNKNOWN ACTION! Unknown: "@ + raw,
        DiagnosticSpec::UndefinedRuleReference { rule_name } => "GRAMMAR ERROR: undefined rule "@
            + rule_name,
        DiagnosticSpec::UndecidableStartPredicate { rule_name } =>
            "SYNTAX ERROR: check_if_can_start_rule at "@ + rule_name
                + ", reason: the rule must be a user-specified-name or begin by consuming a token"@,
        DiagnosticSpec::AmbiguousChoice { rule_name, matches } =>
            "SYNTAX ERROR: rule-choice syntax error at "@ + rule_name
                + ", reason: must match exactly 1 sub-rule, but matched "@ + decimal_text(matches),
        DiagnosticSpec::LiteralMismatch { expected, found } => "SYNTAX ERROR: expected \""@
            + expected + "\" but found "@ + found_text(found) + "!"@,
        DiagnosticSpec::MalformedUserName { rule_name, found } =>
            "SYNTAX ERROR: invalid user-specified-name for "@ + rule_name + " at "@ + found_text(
                found,
            ),
        DiagnosticSpec::NestingTooDeep => "SYNTAX ERROR: rules are nested too deep"@,
    }
}

/// Names a token that was found.
fn found_message(found: &Option<String>) -> (text: String)
    ensures
        text@ == found_text(option_text(*found)),
{
    match found {
        Some(token) => {
            let mut text = String::from_str("\"");
            text.append(token.as_str());
            text.append("\"");
            text
        },
        None => String::from_str("the end of the input"),
    }
}

impl Diagnostic {
    /// The message that tells a reader of this diagnostic.
    pub fn message(&self) -> (text: String)
        ensures
            text@ == message_text(self@),
    {
        match self {
            Diagnostic::StructuralGrammarError { line } => {
                let mut text = String::from_str("GRAMMAR ERROR: fewer than two words on line ");
                text.append(decimal(*line).as_str());
                text
            },
            Diagnostic::MalformedProduction { raw } => {
                let mut text = String::from_str("UNKNOWN ACTION! Unknown: ");
                text.append(raw.as_str());
                text
            },
            Diagnostic::UndefinedRuleReference { rule_name } => {
                let mut text = String::from_str("GRAMMAR ERROR: undefined rule ");
                text.append(rule_name.as_str());
                text
            },
            Diagnostic::UndecidableStartPredicate { rule_name } => {
                let mut text = String::from_str("SYNTAX ERROR: check_if_can_start_rule at ");
                text.append(rule_name.as_str());
                text.append(
                    ", reason: the rule must be a user-specified-name or begin by consuming a token",
                );
                text
            },
            Diagnostic::AmbiguousChoice { rule_name, matches } => {
                let mut text = String::from_str("SYNTAX ERROR: rule-choice syntax error at ");
                text.append(rule_name.as_str());
                text.append(", reason: must match exactly 1 sub-rule, but matched ");
                text.append(decimal(*matches).as_str());
                text
            },
            Diagnostic::LiteralMismatch { expected, found } => {
                let mut text = String::from_str("SYNTAX ERROR: expected \"");
                text.append(expected.as_str());
                text.append("\" but found ");
                text.append(found_message(found).as_str());
                text.append("!");
                text
            },
            Diagnostic::MalformedUserName { rule_name, found } => {
                let mut text = String::from_str("SYNTAX ERROR: invalid user-specified-name for ");
                text.append(rule_name.as_str());
                text.append(" at ");
                text.append(found_message(found).as_str());
                text
            },
            Diagnostic::NestingTooDeep => String::from_str("SYNTAX ERROR: rules are nested too deep"),
        }
    }
}

} // verus!
