//! A small meta-grammar engine. A grammar in a pseudo-BNF notation is
//! loaded into a rule table; from that one table a token stream can be
//! interpreted, which yields a parse tree and diagnostics, or the source
//! text of a recursive-descent parser can be generated.
//!
//! The grammars that the engine takes are simple on purpose. A rule is a
//! user-specified name, a choice among rules, or a sequence of literals,
//! rule references and repetitions with a separator. Whether a rule can
//! begin is decided by one token alone, and the interpreter never goes
//! back.
//!
//! - [`grammar`] holds the rule table, [`loader`] reads it from its notation
//!   and [`shapes`] says what the tokens of the notation look like.
//! - [`oracle`] decides whether a rule can begin at a token.
//! - [`interpreter`] runs a grammar against a token stream; [`production`]
//!   holds what it yields and [`diagnostic`] what it finds.
//! - [`generator`] says what the source of a parser holds, [`declaration`]
//!   writes it out and [`naming`] names its items.
//! - [`torpel`] is a parser for one language, as the generator lays it out.
//! - [`laws`] and [`nesting`] state what holds of all grammars and streams,
//!   and [`agreement`] that the parser and the interpreter read Torpel alike.

pub mod agreement;
pub mod declaration;
pub mod diagnostic;
pub mod generator;
pub mod grammar;
pub mod interpreter;
pub mod laws;
pub mod loader;
pub mod naming;
pub mod nesting;
pub mod oracle;
pub mod production;
pub mod shapes;
pub mod text;
pub mod torpel;
