//! What the generator produces, as data: type declarations and parser
//! functions of the target language, and how each is written out as lines
//! of source text.

use vstd::prelude::*;
use vstd::string::StringExecFns;
use crate::text::{put, string_views};

verus! {

/// A field of a record: one production of a rule, or a list of them.
#[derive(Debug)]
pub struct Field {
    pub name: String,
    pub item_type: String,
    pub repeated: bool,
}

/// The mathematical value of a [`Field`].
pub struct FieldSpec {
    pub name: Seq<char>,
    pub item_type: Seq<char>,
    pub repeated: bool,
}

impl View for Field {
    type V = FieldSpec;

    open spec fn view(&self) -> FieldSpec {
        FieldSpec { name: self.name@, item_type: self.item_type@, repeated: self.repeated }
    }
}

/// The values of a vector of fields.
pub open spec fn field_views(fields: Seq<Field>) -> Seq<FieldSpec> {
    fields.map_values(|field: Field| field@)
}

/// The type that stands for a rule.
#[derive(Debug)]
pub enum TypeDeclaration {
    /// A user-specified name: another name for a string.
    Alias { name: String },
    /// An action sequence: a record with a field for each rule it refers to.
    Record { name: String, fields: Vec<Field> },
    /// A choice: a tagged union with a variant for each alternative, named
    /// like the alternative's type.
    Union { name: String, variants: Vec<String> },
}

/// The mathematical value of a [`TypeDeclaration`].
pub enum TypeDeclarationSpec {
    Alias { name: Seq<char> },
    Record { name: Seq<char>, fields: Seq<FieldSpec> },
    Union { name: Seq<char>, variants: Seq<Seq<char>> },
}

impl View for TypeDeclaration {
    type V = TypeDeclarationSpec;

    open spec fn view(&self) -> TypeDeclarationSpec {
        match self {
            TypeDeclaration::Alias { name } => TypeDeclarationSpec::Alias { name: name@ },
            TypeDeclaration::Record { name, fields } => TypeDeclarationSpec::Record {
                name: name@,
                fields: field_views(fields@),
            },
            TypeDeclaration::Union { name, variants } => TypeDeclarationSpec::Union {
                name: name@,
                variants: string_views(variants@),
            },
        }
    }
}

/// A statement of a function that parses an action sequence.
#[derive(Debug)]
pub enum Statement {
    /// Consume a literal or fail; `literal` is written as a string literal
    /// of the target language.
    Consume { literal: String },
    /// Parse a rule once into a field.
    Call { field: String, parser: String },
    /// Parse a rule into a list: once, and again after each separator while
    /// `condition` holds of the token behind it.
    Repeat { field: String, parser: String, separator: String, condition: String },
}

/// The mathematical value of a [`Statement`].
pub enum StatementSpec {
    Consume { literal: Seq<char> },
    Call { field: Seq<char>, parser: Seq<char> },
    Repeat { field: Seq<char>, parser: Seq<char>, separator: Seq<char>, condition: Seq<char> },
}

impl View for Statement {
    type V = StatementSpec;

    open spec fn view(&self) -> StatementSpec {
        match self {
            Statement::Consume { literal } => StatementSpec::Consume { literal: literal@ },
            Statement::Call { field, parser } => StatementSpec::Call {
                field: field@,
                parser: parser@,
            },
            Statement::Repeat { field, parser, separator, condition } => StatementSpec::Repeat {
                field: field@,
                parser: parser@,
                separator: separator@,
                condition: condition@,
            },
        }
    }
}

/// The values of a vector of statements.
pub open spec fn statement_views(statements: Seq<Statement>) -> Seq<StatementSpec> {
    statements.map_values(|statement: Statement| statement@)
}

/// One arm of a function that parses a choice: where `condition` holds of
/// the next token, the alternative's parser is called and its production
/// wrapped in `variant`.
#[derive(Debug)]
pub struct Arm {
    pub condition: String,
    pub variant: String,
    pub parser: String,
}

/// The mathematical value of an [`Arm`].
pub struct ArmSpec {
    pub condition: Seq<char>,
    pub variant: Seq<char>,
    pub parser: Seq<char>,
}

impl View for Arm {
    type V = ArmSpec;

    open spec fn view(&self) -> ArmSpec {
        ArmSpec { condition: self.condition@, variant: self.variant@, parser: self.parser@ }
    }
}

/// The values of a vector of arms.
pub open spec fn arm_views(arms: Seq<Arm>) -> Seq<ArmSpec> {
    arms.map_values(|arm: Arm| arm@)
}

/// The body of the function that parses a rule.
#[derive(Debug)]
pub enum ParserBody {
    /// Read one token of identifier shape or fail.
    ReadName,
    /// Run the statements in order and build the record.
    Sequence { statements: Vec<Statement> },
    /// Take the first arm whose condition holds, or fail.
    Dispatch { arms: Vec<Arm> },
}

/// The mathematical value of a [`ParserBody`].
pub enum ParserBodySpec {
    ReadName,
    Sequence { statements: Seq<StatementSpec> },
    Dispatch { arms: Seq<ArmSpec> },
}

impl View for ParserBody {
    type V = ParserBodySpec;

    open spec fn view(&self) -> ParserBodySpec {
        match self {
            ParserBody::ReadName => ParserBodySpec::ReadName,
            ParserBody::Sequence { statements } => ParserBodySpec::Sequence {
                statements: statement_views(statements@),
            },
            ParserBody::Dispatch { arms } => ParserBodySpec::Dispatch { arms: arm_views(arms@) },
        }
    }
}

/// The function that parses a rule.
#[derive(Debug)]
pub struct ParserFunction {
    pub name: String,
    pub result_type: String,
    pub body: ParserBody,
}

/// The mathematical value of a [`ParserFunction`].
pub struct ParserFunctionSpec {
    pub name: Seq<char>,
    pub result_type: Seq<char>,
    pub body: ParserBodySpec,
}

impl View for ParserFunction {
    type V = ParserFunctionSpec;

    open spec fn view(&self) -> ParserFunctionSpec {
        ParserFunctionSpec { name: self.name@, result_type: self.result_type@, body: self.body@ }
    }
}

/// The line that declares a field.
pub open spec fn field_line(field: FieldSpec) -> Seq<char> {
    if field.repeated {
        "  "@ + field.name + ": Vec<"@ + field.item_type + ">,"@
    } else {
        "  "@ + field.name + ": "@ + field.item_type + ","@
    }
}

/// The lines that declare the fields, in order.
pub open spec fn field_lines(fields: Seq<FieldSpec>) -> Seq<Seq<char>> {
    fields.map_values(|field: FieldSpec| field_line(field))
}

/// The line that declares a variant.
pub open spec fn variant_line(variant: Seq<char>) -> Seq<char> {
    "  "@ + variant + "("@ + variant + "),"@
}

/// The lines that declare the variants, in order.
pub open spec fn variant_lines(variants: Seq<Seq<char>>) -> Seq<Seq<char>> {
    variants.map_values(|variant: Seq<char>| variant_line(variant))
}

/// The lines of a type declaration, an empty line first.
pub open spec fn type_lines(declaration: TypeDeclarationSpec) -> Seq<Seq<char>> {
    match declaration {
        TypeDeclarationSpec::Alias { name } => seq![""@, "pub type "@ + name + " = String;"@],
        TypeDeclarationSpec::Record { name, fields } => seq![
            ""@,
            "#[derive(Debug)]"@,
            "pub struct "@ + name + " {"@,
        ] + field_lines(fields) + seq!["}"@],
        TypeDeclarationSpec::Union { name, variants } => seq![
            ""@,
            "#[derive(Debug)]"@,
            "pub enum "@ + name + " {"@,
        ] + variant_lines(variants) + seq!["}"@],
    }
}

/// The texts in order with `separator` between each two.
pub open spec fn joined(parts: Seq<Seq<char>>, separator: Seq<char>) -> Seq<char>
    decreases parts.len(),
{
    if parts.len() == 0 {
        Seq::empty()
    } else if parts.len() == 1 {
        parts[0]
    } else {
        joined(parts.drop_last(), separator) + separator + parts.last()
    }
}

/// The lines of one statement.
pub open spec fn statement_lines(statement: StatementSpec) -> Seq<Seq<char>> {
    match statement {
        StatementSpec::Consume { literal } => seq![
            "  torpel_consume_token("@ + literal + ", input);"@,
        ],
        StatementSpec::Call { field, parser } => seq![
            "  let "@ + field + " = "@ + parser + "(input);"@,
        ],
        StatementSpec::Repeat { field, parser, separator, condition } => seq![
            "  let mut "@ + field + " = vec![];"@,
            "  "@ + field + ".push("@ + parser + "(input));"@,
            "  while input[0] == "@ + separator + " {"@,
            "    torpel_consume_token("@ + separator + ", input);"@,
            "    if "@ + condition + " {"@,
            "      "@ + field + ".push("@ + parser + "(input));"@,
            "    } else {"@,
            "      break;"@,
            "    }"@,
            "  }"@,
        ],
    }
}

/// The lines of the statements, in order.
pub open spec fn statements_lines(statements: Seq<StatementSpec>) -> Seq<Seq<char>>
    decreases statements.len(),
{
    if statements.len() == 0 {
        Seq::empty()
    } else {
        statements_lines(statements.drop_last()) + statement_lines(statements.last())
    }
}

/// The field that a statement fills, if it fills one.
pub open spec fn statement_field(statement: StatementSpec) -> Option<Seq<char>> {
    match statement {
        StatementSpec::Consume { literal } => None,
        StatementSpec::Call { field, parser } => Some(field),
        StatementSpec::Repeat { field, parser, separator, condition } => Some(field),
    }
}

/// The fields that the statements fill, in order.
pub open spec fn statement_fields(statements: Seq<StatementSpec>) -> Seq<Seq<char>>
    decreases statements.len(),
{
    if statements.len() == 0 {
        Seq::empty()
    } else {
        let front = statement_fields(statements.drop_last());
        match statement_field(statements.last()) {
            Some(field) => front.push(field),
            None => front,
        }
    }
}

/// The lines of one arm.
pub open spec fn arm_lines(result_type: Seq<char>, arm: ArmSpec) -> Seq<Seq<char>> {
    seq![
        "  if "@ + arm.condition + " {"@,
        "    return "@ + result_type + "::"@ + arm.variant + "("@ + arm.parser + "(input));"@,
        "  }"@,
    ]
}

/// The lines of the arms, in order.
pub open spec fn arms_lines(result_type: Seq<char>, arms: Seq<ArmSpec>) -> Seq<Seq<char>>
    decreases arms.len(),
{
    if arms.len() == 0 {
        Seq::empty()
    } else {
        arms_lines(result_type, arms.drop_last()) + arm_lines(result_type, arms.last())
    }
}

/// The lines of a function body.
pub open spec fn body_lines(result_type: Seq<char>, body: ParserBodySpec) -> Seq<Seq<char>> {
    match body {
        ParserBodySpec::ReadName => seq!["  return torpel_read_user_specified_name(input);"@],
        ParserBodySpec::Sequence { statements } => statements_lines(statements) + seq![
            "  return "@ + result_type + " { "@ + joined(statement_fields(statements), ", "@) + " };"@,
        ],
        ParserBodySpec::Dispatch { arms } => arms_lines(result_type, arms) + seq![
            "  panic!(\"unexpected token: expected a valid sub-rule at {:?}\", input)"@,
        ],
    }
}

/// The lines of a parser function, an empty line first.
pub open spec fn parser_lines(function: ParserFunctionSpec) -> Seq<Seq<char>> {
    seq![
        ""@,
        "pub fn "@ + function.name + "(input: &mut Vec<&str>) -> "@ + function.result_type + " {"@,
    ] + body_lines(function.result_type, function.body) + seq!["}"@]
}

/// Three texts in a row.
fn line3(a: &str, b: &str, c: &str) -> (line: String)
    ensures
        line@ == a@ + b@ + c@,
{
    let mut line = String::from_str(a);
    line.append(b);
    line.append(c);
    line
}

/// Five texts in a row.
fn line5(a: &str, b: &str, c: &str, d: &str, e: &str) -> (line: String)
    ensures
        line@ == a@ + b@ + c@ + d@ + e@,
{
    let mut line = line3(a, b, c);
    line.append(d);
    line.append(e);
    line
}

/// Seven texts in a row.
fn line7(a: &str, b: &str, c: &str, d: &str, e: &str, f: &str, g: &str) -> (line: String)
    ensures
        line@ == a@ + b@ + c@ + d@ + e@ + f@ + g@,
{
    let mut line = line5(a, b, c, d, e);
    line.append(f);
    line.append(g);
    line
}

/// Joins the texts with `separator` between each two.
pub fn join(parts: &Vec<String>, separator: &str) -> (text: String)
    ensures
        text@ == joined(string_views(parts@), separator@),
{
    let mut text = String::new();
    let mut at: usize = 0;
    let ghost all = string_views(parts@);
    while at < parts.len()
        invariant
            at <= parts@.len(),
            all == string_views(parts@),
            text@ == joined(all.take(at as int), separator@),
        decreases parts@.len() - at,
    {
        proof {
            assert(all.take(at + 1).drop_last() =~= all.take(at as int));
        }
        if at > 0 {
            text.append(separator);
        }
        text.append(parts[at].as_str());
        at += 1;
    }
    proof {
        assert(all.take(at as int) =~= all);
    }
    text
}

impl TypeDeclaration {
    /// Writes the declaration out as lines of source text.
    pub fn render(&self) -> (lines: Vec<String>)
        ensures
            string_views(lines@) == type_lines(self@),
    {
        let mut lines: Vec<String> = Vec::new();
        put(&mut lines, String::from_str(""));
        match self {
            TypeDeclaration::Alias { name } => {
                put(&mut lines, line3("pub type ", name.as_str(), " = String;"));
            },
            TypeDeclaration::Record { name, fields } => {
                put(&mut lines, String::from_str("#[derive(Debug)]"));
                put(&mut lines, line3("pub struct ", name.as_str(), " {"));
                let ghost head = string_views(lines@);
                let ghost all = field_lines(field_views(fields@));
                let mut at: usize = 0;
                while at < fields.len()
                    invariant
                        at <= fields@.len(),
                        all == field_lines(field_views(fields@)),
                        string_views(lines@) == head + all.take(at as int),
                    decreases fields@.len() - at,
                {
                    let field = &fields[at];
                    let line = if field.repeated {
                        line5("  ", field.name.as_str(), ": Vec<", field.item_type.as_str(), ">,")
                    } else {
                        line5("  ", field.name.as_str(), ": ", field.item_type.as_str(), ",")
                    };
                    put(&mut lines, line);
                    at += 1;
                }
                put(&mut lines, String::from_str("}"));
            },
            TypeDeclaration::Union { name, variants } => {
                put(&mut lines, String::from_str("#[derive(Debug)]"));
                put(&mut lines, line3("pub enum ", name.as_str(), " {"));
                let ghost head = string_views(lines@);
                let ghost all = variant_lines(string_views(variants@));
                let mut at: usize = 0;
                while at < variants.len()
                    invariant
                        at <= variants@.len(),
                        all == variant_lines(string_views(variants@)),
                        string_views(lines@) == head + all.take(at as int),
                    decreases variants@.len() - at,
                {
                    let variant = variants[at].as_str();
                    let line = line5("  ", variant, "(", variant, "),");
                    put(&mut lines, line);
                    at += 1;
                }
                put(&mut lines, String::from_str("}"));
            },
        }
        lines
    }
}

impl Statement {
    /// Adds the lines of the statement to `lines`.
    pub fn render_into(&self, lines: &mut Vec<String>)
        ensures
            string_views(final(lines)@) == string_views(old(lines)@) + statement_lines(self@),
    {
        match self {
            Statement::Consume { literal } => {
                put(lines, line3("  torpel_consume_token(", literal.as_str(), ", input);"));
            },
            Statement::Call { field, parser } => {
                put(lines, line5("  let ", field.as_str(), " = ", parser.as_str(), "(input);"));
            },
            Statement::Repeat { field, parser, separator, condition } => {
                put(lines, line3("  let mut ", field.as_str(), " = vec![];"));
                put(lines, line5("  ", field.as_str(), ".push(", parser.as_str(), "(input));"));
                put(lines, line3("  while input[0] == ", separator.as_str(), " {"));
                put(lines, line3("    torpel_consume_token(", separator.as_str(), ", input);"));
                put(lines, line3("    if ", condition.as_str(), " {"));
                put(lines, line5("      ", field.as_str(), ".push(", parser.as_str(), "(input));"));
                put(lines, String::from_str("    } else {"));
                put(lines, String::from_str("      break;"));
                put(lines, String::from_str("    }"));
                put(lines, String::from_str("  }"));
            },
        }
    }
}

impl ParserFunction {
    /// Writes the function out as lines of source text.
    pub fn render(&self) -> (lines: Vec<String>)
        ensures
            string_views(lines@) == parser_lines(self@),
    {
        let mut lines: Vec<String> = Vec::new();
        put(&mut lines, String::from_str(""));
        put(
            &mut lines,
            line5(
                "pub fn ",
                self.name.as_str(),
                "(input: &mut Vec<&str>) -> ",
                self.result_type.as_str(),
                " {",
            ),
        );
        let ghost head = string_views(lines@);
        match &self.body {
            ParserBody::ReadName => {
                put(&mut lines, String::from_str("  return torpel_read_user_specified_name(input);"));
            },
            ParserBody::Sequence { statements } => {
                let ghost all = statement_views(statements@);
                let mut fields: Vec<String> = Vec::new();
                let mut at: usize = 0;
                while at < statements.len()
                    invariant
                        at <= statements@.len(),
                        all == statement_views(statements@),
                        string_views(lines@) == head + statements_lines(all.take(at as int)),
                        string_views(fields@) == statement_fields(all.take(at as int)),
                    decreases statements@.len() - at,
                {
                    proof {
                        assert(all.take(at + 1).drop_last() =~= all.take(at as int));
                    }
                    statements[at].render_into(&mut lines);
                    match &statements[at] {
                        Statement::Consume { literal } => {},
                        Statement::Call { field, parser } => {
                            put(&mut fields, field.clone());
                        },
                        Statement::Repeat { field, parser, separator, condition } => {
                            put(&mut fields, field.clone());
                        },
                    }
                    at += 1;
                }
                proof {
                    assert(all.take(at as int) =~= all);
                }
                let listed = join(&fields, ", ");
                put(
                    &mut lines,
                    line5("  return ", self.result_type.as_str(), " { ", listed.as_str(), " };"),
                );
            },
            ParserBody::Dispatch { arms } => {
                let ghost all = arm_views(arms@);
                let ghost result_type = self.result_type@;
                let mut at: usize = 0;
                while at < arms.len()
                    invariant
                        at <= arms@.len(),
                        all == arm_views(arms@),
                        result_type == self.result_type@,
                        string_views(lines@) == head + arms_lines(result_type, all.take(at as int)),
                    decreases arms@.len() - at,
                {
                    proof {
                        assert(all.take(at + 1).drop_last() =~= all.take(at as int));
                    }
                    let arm = &arms[at];
                    put(&mut lines, line3("  if ", arm.condition.as_str(), " {"));
                    put(
                        &mut lines,
                        line7(
                            "    return ",
                            self.result_type.as_str(),
                            "::",
                            arm.variant.as_str(),
                            "(",
                            arm.parser.as_str(),
                            "(input));",
                        ),
                    );
                    put(&mut lines, String::from_str("  }"));
                    at += 1;
                }
                proof {
                    assert(all.take(at as int) =~= all);
                }
                put(
                    &mut lines,
                    String::from_str(
                        "  panic!(\"unexpected token: expected a valid sub-rule at {:?}\", input)",
                    ),
                );
            },
        }
        put(&mut lines, String::from_str("}"));
        lines
    }
}

} // verus!
