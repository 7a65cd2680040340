//! A recursive-descent parser for the Torpel interface-definition language:
//! a program declares new types, each a structure or an enumeration.
//!
//! ```text
//! <<START>> ::= <NEW-TYPE>*";"
//! <NEW-TYPE> ::= "new-type" <TYPE-NAME> <TYPE-DEFINITION>
//! <TYPE-DEFINITION> ::= <STRUCTURE> | <ENUMERATION>
//! <STRUCTURE> ::= "structure" "{" <STRUCTURE-FIELD-NAME>*"," "}"
//! <ENUMERATION> ::= "enumeration" "[" <ENUMERATION-ALTERNATIVE-NAME>*"|" "]"
//! ```
//!
//! Unlike the interpreter, this parser stops at the first token that does
//! not fit.

use vstd::prelude::*;
use crate::diagnostic::{Diagnostic, DiagnosticSpec};
use crate::shapes::{is_user_specified_name, matches_user_specified_name};
use crate::text::{
    left_of, lemma_left_of_remove_first, lemma_left_of_transitive, lemma_texts_remove_first,
    lookahead, peek, same_text, string_views, texts,
};

verus! {

broadcast use {lemma_left_of_transitive, lemma_left_of_remove_first};

/// A program: its type declarations in order.
#[derive(Debug)]
pub struct Start {
    pub new_type: Vec<NewType>,
}

pub type EnumerationAlternativeName = String;

/// An enumeration: the names of its alternatives in order.
#[derive(Debug)]
pub struct Enumeration {
    pub enumeration_alternative_name: Vec<EnumerationAlternativeName>,
}

/// A type declaration.
#[derive(Debug)]
pub struct NewType {
    pub name: TypeName,
    pub type_definition: TypeDefinition,
}

pub type StructureFieldName = String;

/// A structure: the names of its fields in order.
#[derive(Debug)]
pub struct Structure {
    pub structure_field_name: Vec<StructureFieldName>,
}

/// What a new type is defined to be.
#[derive(Debug)]
pub enum TypeDefinition {
    Structure(Structure),
    Enumeration(Enumeration),
}

pub type TypeName = String;

/// The mathematical value of a [`Structure`].
pub struct StructureSpec {
    pub structure_field_name: Seq<Seq<char>>,
}

/// The mathematical value of an [`Enumeration`].
pub struct EnumerationSpec {
    pub enumeration_alternative_name: Seq<Seq<char>>,
}

/// The mathematical value of a [`TypeDefinition`].
pub enum TypeDefinitionSpec {
    Structure(StructureSpec),
    Enumeration(EnumerationSpec),
}

/// The mathematical value of a [`NewType`].
pub struct NewTypeSpec {
    pub name: Seq<char>,
    pub type_definition: TypeDefinitionSpec,
}

/// The mathematical value of a [`Start`].
pub struct StartSpec {
    pub new_type: Seq<NewTypeSpec>,
}

impl View for Structure {
    type V = StructureSpec;

    open spec fn view(&self) -> StructureSpec {
        StructureSpec { structure_field_name: string_views(self.structure_field_name@) }
    }
}

impl View for Enumeration {
    type V = EnumerationSpec;

    open spec fn view(&self) -> EnumerationSpec {
        EnumerationSpec {
            enumeration_alternative_name: string_views(self.enumeration_alternative_name@),
        }
    }
}

impl View for TypeDefinition {
    type V = TypeDefinitionSpec;

    open spec fn view(&self) -> TypeDefinitionSpec {
        match self {
            TypeDefinition::Structure(structure) => TypeDefinitionSpec::Structure(structure@),
            TypeDefinition::Enumeration(enumeration) => TypeDefinitionSpec::Enumeration(
                enumeration@,
            ),
        }
    }
}

impl View for NewType {
    type V = NewTypeSpec;

    open spec fn view(&self) -> NewTypeSpec {
        NewTypeSpec { name: self.name@, type_definition: self.type_definition@ }
    }
}

/// The values of a vector of type declarations.
pub open spec fn new_type_views(types: Seq<NewType>) -> Seq<NewTypeSpec> {
    types.map_values(|new_type: NewType| new_type@)
}

impl View for Start {
    type V = StartSpec;

    open spec fn view(&self) -> StartSpec {
        StartSpec { new_type: new_type_views(self.new_type@) }
    }
}

/// What parsing yields: a value and the tokens behind it, or the first
/// thing that did not fit.
pub type Parsed<T> = Result<(T, Seq<Seq<char>>), Failure>;

/// Where parsing stopped: the first thing that did not fit, and the tokens
/// that were left there.
pub struct Failure {
    pub diagnostic: DiagnosticSpec,
    pub rest: Seq<Seq<char>>,
}

/// The literal `token` is due: it is consumed, or parsing fails.
pub open spec fn consume_token_spec(token: Seq<char>, input: Seq<Seq<char>>) -> Parsed<()> {
    if lookahead(input) == Some(token) {
        Ok(((), input.skip(1)))
    } else {
        Err(
            Failure {
                diagnostic: DiagnosticSpec::LiteralMismatch {
                    expected: token,
                    found: lookahead(input),
                },
                rest: input,
            },
        )
    }
}

/// A name of identifier shape is due: it is consumed, or parsing fails.
pub open spec fn read_user_specified_name_spec(rule_name: Seq<char>, input: Seq<Seq<char>>) -> Parsed<
    Seq<char>,
> {
    if input.len() > 0 && is_user_specified_name(input[0]) {
        Ok((input[0], input.skip(1)))
    } else {
        Err(
            Failure {
                diagnostic: DiagnosticSpec::MalformedUserName { rule_name, found: lookahead(input) },
                rest: input,
            },
        )
    }
}

/// The names that follow the first of a list: each stands behind a
/// separator. A separator that no name follows is consumed all the same,
/// and ends the list.
pub open spec fn more_names_spec(separator: Seq<char>, input: Seq<Seq<char>>) -> (
    Seq<Seq<char>>,
    Seq<Seq<char>>,
)
    decreases input.len(),
{
    if lookahead(input) != Some(separator) {
        (Seq::empty(), input)
    } else {
        let after = input.skip(1);
        if after.len() > 0 && is_user_specified_name(after[0]) {
            let more = more_names_spec(separator, after.skip(1));
            (seq![after[0]] + more.0, more.1)
        } else {
            (Seq::empty(), after)
        }
    }
}

/// A list of names: one name, then those that follow it.
pub open spec fn names_spec(rule_name: Seq<char>, separator: Seq<char>, input: Seq<Seq<char>>) -> Parsed<
    Seq<Seq<char>>,
> {
    match read_user_specified_name_spec(rule_name, input) {
        Err(failure) => Err(failure),
        Ok((first, rest)) => {
            let more = more_names_spec(separator, rest);
            Ok((seq![first] + more.0, more.1))
        },
    }
}

/// A list of names between an opening keyword and bracket and a closing
/// bracket.
pub open spec fn bracketed_names_spec(
    keyword: Seq<char>,
    opening: Seq<char>,
    rule_name: Seq<char>,
    separator: Seq<char>,
    closing: Seq<char>,
    input: Seq<Seq<char>>,
) -> Parsed<Seq<Seq<char>>> {
    match consume_token_spec(keyword, input) {
        Err(failure) => Err(failure),
        Ok((_, input)) => match consume_token_spec(opening, input) {
            Err(failure) => Err(failure),
            Ok((_, input)) => match names_spec(rule_name, separator, input) {
                Err(failure) => Err(failure),
                Ok((names, input)) => match consume_token_spec(closing, input) {
                    Err(failure) => Err(failure),
                    Ok((_, input)) => Ok((names, input)),
                },
            },
        },
    }
}

pub const TYPE_NAME: &'static str = "<TYPE-NAME>";

pub const TYPE_DEFINITION: &'static str = "<TYPE-DEFINITION>";

pub const STRUCTURE_FIELD_NAME: &'static str = "<STRUCTURE-FIELD-NAME>";

pub const ENUMERATION_ALTERNATIVE_NAME: &'static str = "<ENUMERATION-ALTERNATIVE-NAME>";

/// `"structure" "{" <STRUCTURE-FIELD-NAME>*"," "}"`
pub open spec fn structure_spec(input: Seq<Seq<char>>) -> Parsed<StructureSpec> {
    match bracketed_names_spec("structure"@, "{"@, STRUCTURE_FIELD_NAME@, ","@, "}"@, input) {
        Err(failure) => Err(failure),
        Ok((names, rest)) => Ok((StructureSpec { structure_field_name: names }, rest)),
    }
}

/// `"enumeration" "[" <ENUMERATION-ALTERNATIVE-NAME>*"|" "]"`
pub open spec fn enumeration_spec(input: Seq<Seq<char>>) -> Parsed<EnumerationSpec> {
    match bracketed_names_spec(
        "enumeration"@,
        "["@,
        ENUMERATION_ALTERNATIVE_NAME@,
        "|"@,
        "]"@,
        input,
    ) {
        Err(failure) => Err(failure),
        Ok((names, rest)) => Ok((EnumerationSpec { enumeration_alternative_name: names }, rest)),
    }
}

/// `<STRUCTURE> | <ENUMERATION>`, told apart by the keyword each begins
/// with.
pub open spec fn type_definition_spec(input: Seq<Seq<char>>) -> Parsed<TypeDefinitionSpec> {
    if lookahead(input) == Some("structure"@) {
        match structure_spec(input) {
            Err(failure) => Err(failure),
            Ok((structure, rest)) => Ok((TypeDefinitionSpec::Structure(structure), rest)),
        }
    } else if lookahead(input) == Some("enumeration"@) {
        match enumeration_spec(input) {
            Err(failure) => Err(failure),
            Ok((enumeration, rest)) => Ok((TypeDefinitionSpec::Enumeration(enumeration), rest)),
        }
    } else {
        Err(
            Failure {
                diagnostic: DiagnosticSpec::AmbiguousChoice {
                    rule_name: TYPE_DEFINITION@,
                    matches: 0,
                },
                rest: input,
            },
        )
    }
}

/// `"new-type" <TYPE-NAME> <TYPE-DEFINITION>`
pub open spec fn new_type_spec(input: Seq<Seq<char>>) -> Parsed<NewTypeSpec> {
    match consume_token_spec("new-type"@, input) {
        Err(failure) => Err(failure),
        Ok((_, input)) => match read_user_specified_name_spec(TYPE_NAME@, input) {
            Err(failure) => Err(failure),
            Ok((name, input)) => match type_definition_spec(input) {
                Err(failure) => Err(failure),
                Ok((type_definition, input)) => Ok(
                    (NewTypeSpec { name, type_definition }, input),
                ),
            },
        },
    }
}

/// The names that follow the first leave no more tokens than they were
/// given.
pub proof fn lemma_more_names_shorten(separator: Seq<char>, input: Seq<Seq<char>>)
    ensures
        more_names_spec(separator, input).1.len() <= input.len(),
    decreases input.len(),
{
    if lookahead(input) == Some(separator) {
        let after = input.skip(1);
        if after.len() > 0 && is_user_specified_name(after[0]) {
            lemma_more_names_shorten(separator, after.skip(1));
        }
    }
}

/// A type declaration consumes at least one token.
pub proof fn lemma_new_type_shortens(input: Seq<Seq<char>>)
    ensures
        new_type_spec(input) matches Ok((_, rest)) ==> rest.len() < input.len(),
{
    if let Ok((_, after_keyword)) = consume_token_spec("new-type"@, input) {
        if let Ok((_, after_name)) = read_user_specified_name_spec(TYPE_NAME@, after_keyword) {
            if lookahead(after_name) == Some("structure"@) {
                lemma_bracketed_names_shorten(
                    "structure"@,
                    "{"@,
                    STRUCTURE_FIELD_NAME@,
                    ","@,
                    "}"@,
                    after_name,
                );
            } else if lookahead(after_name) == Some("enumeration"@) {
                lemma_bracketed_names_shorten(
                    "enumeration"@,
                    "["@,
                    ENUMERATION_ALTERNATIVE_NAME@,
                    "|"@,
                    "]"@,
                    after_name,
                );
            }
        }
    }
}

/// A bracketed list of names leaves fewer tokens than it was given.
pub proof fn lemma_bracketed_names_shorten(
    keyword: Seq<char>,
    opening: Seq<char>,
    rule_name: Seq<char>,
    separator: Seq<char>,
    closing: Seq<char>,
    input: Seq<Seq<char>>,
)
    ensures
        bracketed_names_spec(keyword, opening, rule_name, separator, closing, input) matches Ok(
            (_, rest),
        ) ==> rest.len() < input.len(),
{
    if let Ok((_, after_keyword)) = consume_token_spec(keyword, input) {
        if let Ok((_, after_opening)) = consume_token_spec(opening, after_keyword) {
            if let Ok((_, after_first)) = read_user_specified_name_spec(rule_name, after_opening) {
                lemma_more_names_shorten(separator, after_first);
            }
        }
    }
}

/// The type declarations that follow the first: each stands behind a `;`.
/// A `;` that no `new-type` follows is consumed all the same, and ends the
/// list.
pub open spec fn more_types_spec(input: Seq<Seq<char>>) -> Parsed<Seq<NewTypeSpec>>
    decreases input.len(),
{
    if lookahead(input) != Some(";"@) {
        Ok((Seq::empty(), input))
    } else {
        let after = input.skip(1);
        if lookahead(after) == Some("new-type"@) {
            match new_type_spec(after) {
                Err(failure) => Err(failure),
                Ok((new_type, rest)) => {
                    proof {
                        lemma_new_type_shortens(after);
                    }
                    match more_types_spec(rest) {
                        Err(failure) => Err(failure),
                        Ok((more, rest)) => Ok((seq![new_type] + more, rest)),
                    }
                },
            }
        } else {
            Ok((Seq::empty(), after))
        }
    }
}

/// `<NEW-TYPE>*";"`
pub open spec fn start_spec(input: Seq<Seq<char>>) -> Parsed<StartSpec> {
    match new_type_spec(input) {
        Err(failure) => Err(failure),
        Ok((first, rest)) => match more_types_spec(rest) {
            Err(failure) => Err(failure),
            Ok((more, rest)) => Ok((StartSpec { new_type: seq![first] + more }, rest)),
        },
    }
}

/// What an executable parser did agrees with `parsed`: it gave `value` and
/// left `rest`.
pub open spec fn gives<T>(parsed: Parsed<T>, value: T, rest: Seq<Seq<char>>) -> bool {
    parsed == Ok::<(T, Seq<Seq<char>>), Failure>((value, rest))
}

/// What an executable parser did agrees with `parsed`: it stopped with
/// `diagnostic` and left `rest`.
pub open spec fn fails<T>(parsed: Parsed<T>, diagnostic: DiagnosticSpec, rest: Seq<Seq<char>>) -> bool {
    parsed == Err::<(T, Seq<Seq<char>>), Failure>(Failure { diagnostic, rest })
}

/// Consumes the literal `token`, or fails where another token stands
/// there and leaves the stream as it is.
pub fn torpel_consume_token<'a>(token: &str, input: &mut Vec<&'a str>) -> (result: Result<
    (),
    Diagnostic,
>)
    ensures
        left_of(final(input)@, old(input)@),
        match result {
            Ok(_) => gives(consume_token_spec(token@, texts(old(input)@)), (), texts(final(input)@)),
            Err(diagnostic) => fails(
                consume_token_spec(token@, texts(old(input)@)),
                diagnostic@,
                texts(final(input)@),
            )
                && final(input)@ == old(input)@,
        },
{
    if input.len() > 0 && same_text(input[0], token) {
        proof {
            lemma_texts_remove_first(input@);
        }
        input.remove(0);
        Ok(())
    } else {
        proof {
            if input@.len() > 0 {
                lemma_texts_remove_first(input@);
            }
        }
        Err(Diagnostic::LiteralMismatch { expected: token.to_owned(), found: peek(input) })
    }
}

/// Consumes a token of identifier shape for the rule `rule_name`, or fails
/// where the next token has not the shape and leaves the stream as it is.
pub fn torpel_read_user_specified_name<'a>(rule_name: &str, input: &mut Vec<&'a str>) -> (result:
    Result<String, Diagnostic>)
    ensures
        left_of(final(input)@, old(input)@),
        match result {
            Ok(name) => gives(
                read_user_specified_name_spec(rule_name@, texts(old(input)@)),
                name@,
                texts(final(input)@),
            ),
            Err(diagnostic) => fails(
                read_user_specified_name_spec(rule_name@, texts(old(input)@)),
                diagnostic@,
                texts(final(input)@),
            ) && final(input)@ == old(input)@,
        },
{
    proof {
        if input@.len() > 0 {
            lemma_texts_remove_first(input@);
        }
    }
    if input.len() > 0 && torpel_is_valid_user_specified_name(input[0]) {
        Ok(input.remove(0).to_owned())
    } else {
        Err(
            Diagnostic::MalformedUserName {
                rule_name: rule_name.to_owned(),
                found: peek(input),
            },
        )
    }
}

/// Whether `token` has the shape of a user-specified name.
pub fn torpel_is_valid_user_specified_name(token: &str) -> (valid: bool)
    ensures
        valid == is_user_specified_name(token@),
{
    matches_user_specified_name(token)
}

/// Parses `<ENUMERATION-ALTERNATIVE-NAME>`.
pub fn parse_enumeration_alternative_name<'a>(input: &mut Vec<&'a str>) -> (result: Result<
    EnumerationAlternativeName,
    Diagnostic,
>)
    ensures
        left_of(final(input)@, old(input)@),
        match result {
            Ok(name) => gives(
                read_user_specified_name_spec(ENUMERATION_ALTERNATIVE_NAME@, texts(old(input)@)),
                name@,
                texts(final(input)@),
            ),
            Err(diagnostic) => fails(
                read_user_specified_name_spec(ENUMERATION_ALTERNATIVE_NAME@, texts(old(input)@)),
                diagnostic@,
                texts(final(input)@),
            ),
        },
{
    torpel_read_user_specified_name(ENUMERATION_ALTERNATIVE_NAME, input)
}

/// Parses `<STRUCTURE-FIELD-NAME>`.
pub fn parse_structure_field_name<'a>(input: &mut Vec<&'a str>) -> (result: Result<
    StructureFieldName,
    Diagnostic,
>)
    ensures
        left_of(final(input)@, old(input)@),
        match result {
            Ok(name) => gives(
                read_user_specified_name_spec(STRUCTURE_FIELD_NAME@, texts(old(input)@)),
                name@,
                texts(final(input)@),
            ),
            Err(diagnostic) => fails(
                read_user_specified_name_spec(STRUCTURE_FIELD_NAME@, texts(old(input)@)),
                diagnostic@,
                texts(final(input)@),
            ),
        },
{
    torpel_read_user_specified_name(STRUCTURE_FIELD_NAME, input)
}

/// Parses `<TYPE-NAME>`.
pub fn parse_type_name<'a>(input: &mut Vec<&'a str>) -> (result: Result<TypeName, Diagnostic>)
    ensures
        left_of(final(input)@, old(input)@),
        match result {
            Ok(name) => gives(
                read_user_specified_name_spec(TYPE_NAME@, texts(old(input)@)),
                name@,
                texts(final(input)@),
            ),
            Err(diagnostic) => fails(
                read_user_specified_name_spec(TYPE_NAME@, texts(old(input)@)),
                diagnostic@,
                texts(final(input)@),
            ),
        },
{
    torpel_read_user_specified_name(TYPE_NAME, input)
}

/// Parses `<ENUMERATION>`.
#[verifier::loop_isolation(false)]
pub fn parse_enumeration<'a>(input: &mut Vec<&'a str>) -> (result: Result<Enumeration, Diagnostic>)
    ensures
        left_of(final(input)@, old(input)@),
        match result {
            Ok(parsed) => gives(enumeration_spec(texts(old(input)@)), parsed@, texts(final(input)@)),
            Err(diagnostic) => fails(enumeration_spec(texts(old(input)@)), diagnostic@, texts(final(input)@)),
        },
{
    torpel_consume_token("enumeration", input)?;
    torpel_consume_token("[", input)?;
    let mut enumeration_alternative_name: Vec<String> = Vec::new();
    let first = parse_enumeration_alternative_name(input)?;
    enumeration_alternative_name.push(first);
    let ghost list_input = texts(input@);
    let mut going = true;
    proof {
        let more = more_names_spec("|"@, list_input);
    }
    while going && input.len() > 0 && same_text(input[0], "|")
        invariant
            left_of(input@, old(input)@),
            enumeration_alternative_name@.len() >= 1,
            enumeration_alternative_name@[0]@ == first@,
            going ==> more_names_spec("|"@, list_input) == ({
                let more = more_names_spec("|"@, texts(input@));
                (string_views(enumeration_alternative_name@).skip(1) + more.0, more.1)
            }),
            !going ==> more_names_spec("|"@, list_input) == (
                string_views(enumeration_alternative_name@).skip(1),
                texts(input@),
            ),
        decreases input@.len() + (if going { 1nat } else { 0nat }),
    {
        match torpel_consume_token("|", input) {
            Ok(_) => {},
            Err(diagnostic) => {
                return Err(diagnostic);
            },
        }
        if input.len() > 0 && torpel_is_valid_user_specified_name(input[0]) {
            proof {
                lemma_texts_remove_first(input@);
            }
            let next = parse_enumeration_alternative_name(input)?;
            enumeration_alternative_name.push(next);
        } else {
            going = false;
            proof {
                if input@.len() > 0 {
                    lemma_texts_remove_first(input@);
                }
            }
        }
    }
    proof {
        assert(seq![first@] + string_views(enumeration_alternative_name@).skip(1)
            =~= string_views(enumeration_alternative_name@));
    }
    torpel_consume_token("]", input)?;
    Ok(Enumeration { enumeration_alternative_name })
}

/// Parses `<STRUCTURE>`.
#[verifier::loop_isolation(false)]
pub fn parse_structure<'a>(input: &mut Vec<&'a str>) -> (result: Result<Structure, Diagnostic>)
    ensures
        left_of(final(input)@, old(input)@),
        match result {
            Ok(parsed) => gives(structure_spec(texts(old(input)@)), parsed@, texts(final(input)@)),
            Err(diagnostic) => fails(structure_spec(texts(old(input)@)), diagnostic@, texts(final(input)@)),
        },
{
    torpel_consume_token("structure", input)?;
    torpel_consume_token("{", input)?;
    let mut structure_field_name: Vec<String> = Vec::new();
    let first = parse_structure_field_name(input)?;
    structure_field_name.push(first);
    let ghost list_input = texts(input@);
    let mut going = true;
    proof {
        let more = more_names_spec(","@, list_input);
    }
    while going && input.len() > 0 && same_text(input[0], ",")
        invariant
            left_of(input@, old(input)@),
            structure_field_name@.len() >= 1,
            structure_field_name@[0]@ == first@,
            going ==> more_names_spec(","@, list_input) == ({
                let more = more_names_spec(","@, texts(input@));
                (string_views(structure_field_name@).skip(1) + more.0, more.1)
            }),
            !going ==> more_names_spec(","@, list_input) == (
                string_views(structure_field_name@).skip(1),
                texts(input@),
            ),
        decreases input@.len() + (if going { 1nat } else { 0nat }),
    {
        match torpel_consume_token(",", input) {
            Ok(_) => {},
            Err(diagnostic) => {
                return Err(diagnostic);
            },
        }
        if input.len() > 0 && torpel_is_valid_user_specified_name(input[0]) {
            proof {
                lemma_texts_remove_first(input@);
            }
            let next = parse_structure_field_name(input)?;
            structure_field_name.push(next);
        } else {
            going = false;
            proof {
                if input@.len() > 0 {
                    lemma_texts_remove_first(input@);
                }
            }
        }
    }
    proof {
        assert(seq![first@] + string_views(structure_field_name@).skip(1) =~= string_views(
            structure_field_name@,
        ));
    }
    torpel_consume_token("}", input)?;
    Ok(Structure { structure_field_name })
}

/// Parses `<TYPE-DEFINITION>`.
pub fn parse_type_definition<'a>(input: &mut Vec<&'a str>) -> (result: Result<
    TypeDefinition,
    Diagnostic,
>)
    ensures
        left_of(final(input)@, old(input)@),
        match result {
            Ok(parsed) => gives(
                type_definition_spec(texts(old(input)@)),
                parsed@,
                texts(final(input)@),
            ),
            Err(diagnostic) => fails(
                type_definition_spec(texts(old(input)@)),
                diagnostic@,
                texts(final(input)@),
            ),
        },
{
    proof {
        if input@.len() > 0 {
            lemma_texts_remove_first(input@);
        }
    }
    if input.len() > 0 && same_text(input[0], "structure") {
        return Ok(TypeDefinition::Structure(parse_structure(input)?));
    }
    if input.len() > 0 && same_text(input[0], "enumeration") {
        return Ok(TypeDefinition::Enumeration(parse_enumeration(input)?));
    }
    Err(Diagnostic::AmbiguousChoice { rule_name: TYPE_DEFINITION.to_owned(), matches: 0 })
}

/// Parses `<NEW-TYPE>`.
pub fn parse_new_type<'a>(input: &mut Vec<&'a str>) -> (result: Result<NewType, Diagnostic>)
    ensures
        left_of(final(input)@, old(input)@),
        match result {
            Ok(parsed) => gives(new_type_spec(texts(old(input)@)), parsed@, texts(final(input)@)),
            Err(diagnostic) => fails(new_type_spec(texts(old(input)@)), diagnostic@, texts(final(input)@)),
        },
{
    torpel_consume_token("new-type", input)?;
    let name = parse_type_name(input)?;
    let type_definition = parse_type_definition(input)?;
    Ok(NewType { name, type_definition })
}

/// Parses a program, `<<START>>`.
#[verifier::loop_isolation(false)]
pub fn parse_start<'a>(input: &mut Vec<&'a str>) -> (result: Result<Start, Diagnostic>)
    ensures
        left_of(final(input)@, old(input)@),
        match result {
            Ok(parsed) => gives(start_spec(texts(old(input)@)), parsed@, texts(final(input)@)),
            Err(diagnostic) => fails(start_spec(texts(old(input)@)), diagnostic@, texts(final(input)@)),
        },
{
    let mut new_type: Vec<NewType> = Vec::new();
    let first = parse_new_type(input)?;
    let ghost first_value = first@;
    new_type.push(first);
    let ghost list_input = texts(input@);
    let mut going = true;
    while going && input.len() > 0 && same_text(input[0], ";")
        invariant
            left_of(input@, old(input)@),
            new_type@.len() >= 1,
            new_type@[0]@ == first_value,
            going ==> match more_types_spec(texts(input@)) {
                Ok((more, rest)) => gives(
                    more_types_spec(list_input),
                    new_type_views(new_type@).skip(1) + more,
                    rest,
                ),
                Err(failure) => more_types_spec(list_input) == Err::<
                    (Seq<NewTypeSpec>, Seq<Seq<char>>),
                    Failure,
                >(failure),
            },
            !going ==> gives(
                more_types_spec(list_input),
                new_type_views(new_type@).skip(1),
                texts(input@),
            ),
        decreases input@.len() + (if going { 1nat } else { 0nat }),
    {
        let ghost seen = new_type_views(new_type@).skip(1);
        match torpel_consume_token(";", input) {
            Ok(_) => {},
            Err(diagnostic) => {
                return Err(diagnostic);
            },
        }
        proof {
            if input@.len() > 0 {
                lemma_texts_remove_first(input@);
            }
        }
        if input.len() > 0 && same_text(input[0], "new-type") {
            let ghost after = texts(input@);
            let next = parse_new_type(input)?;
            let ghost next_value = next@;
            new_type.push(next);
            proof {
                lemma_new_type_shortens(after);
                assert(new_type_views(new_type@).skip(1) =~= seen.push(next_value));
                if let Ok((more, rest)) = more_types_spec(texts(input@)) {
                    assert(seen + (seq![next_value] + more) =~= seen.push(next_value) + more);
                }
            }
        } else {
            going = false;
        }
    }
    proof {
        assert(seq![first_value] + new_type_views(new_type@).skip(1) =~= new_type_views(new_type@));
    }
    Ok(Start { new_type })
}

} // verus!
