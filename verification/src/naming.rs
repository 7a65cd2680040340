//! The identifiers that the generated source uses for a rule. The case
//! conversions are those of the `inflector` crate.

use vstd::prelude::*;
use vstd::string::StringExecFns;

verus! {

/// The snake-case form of a text. This names what
/// `inflector::cases::snakecase::to_snake_case` gives; the conversion is
/// not spelled out here.
pub uninterp spec fn snake_case_of(s: Seq<char>) -> Seq<char>;

/// The class-case form of a text. This names what
/// `inflector::cases::classcase::to_class_case` gives; the conversion is
/// not spelled out here.
pub uninterp spec fn class_case_of(s: Seq<char>) -> Seq<char>;

/// Converts with `inflector::cases::snakecase::to_snake_case`.
///
/// Taken on trust: that the result depends on the text alone, so that it
/// can go by the name [`snake_case_of`].
#[verifier::external_body]
pub(crate) fn snake_case(s: &str) -> (converted: String)
    ensures
        converted@ == snake_case_of(s@),
{
    inflector::cases::snakecase::to_snake_case(s)
}

/// Converts with `inflector::cases::classcase::to_class_case`.
///
/// Taken on trust: that the result depends on the text alone, so that it
/// can go by the name [`class_case_of`].
#[verifier::external_body]
pub(crate) fn class_case(s: &str) -> (converted: String)
    ensures
        converted@ == class_case_of(s@),
{
    inflector::cases::classcase::to_class_case(s)
}

/// The name of the type that stands for a rule: the class case of the snake
/// case of the rule's name.
pub open spec fn type_name_of(rule_name: Seq<char>) -> Seq<char> {
    class_case_of(snake_case_of(rule_name))
}

/// The name of the field that holds a rule's production: the snake case of
/// the rule's name.
pub open spec fn field_name_of(rule_name: Seq<char>) -> Seq<char> {
    snake_case_of(rule_name)
}

/// The name of the function that parses a rule: the snake case of `parse`,
/// a space and the rule's name.
pub open spec fn parser_name_of(rule_name: Seq<char>) -> Seq<char> {
    snake_case_of("parse "@ + rule_name)
}

/// The name of the type that stands for the rule `n`.
pub fn to_type_name(n: &str) -> (name: String)
    ensures
        name@ == type_name_of(n@),
{
    let snake = snake_case(n);
    class_case(snake.as_str())
}

/// The name of the field that holds the production of the rule `n`.
pub fn to_field_name(n: &str) -> (name: String)
    ensures
        name@ == field_name_of(n@),
{
    snake_case(n)
}

/// The name of the function that parses the rule `n`.
pub fn to_parser_name(n: &str) -> (name: String)
    ensures
        name@ == parser_name_of(n@),
{
    let mut spoken = String::from_str("parse ");
    spoken.append(n);
    snake_case(spoken.as_str())
}

} // verus!
