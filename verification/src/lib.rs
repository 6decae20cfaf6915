//! A tree-walking interpreter for a small class-based scripting language.
//!
//! Source text is scanned into tokens, parsed into a syntax tree, resolved
//! (every local name is bound to the number of scopes between its use and its
//! declaration) and then evaluated against a chain of environments.  Every
//! stage is stated as a mathematical function over models of its data and the
//! executable code is proved to compute exactly that function.
//!
//! A tree can be printed back into tokens; printing a program and parsing it
//! again gives the same tree, but for the places of its tokens in the source.
//!
//! Numbers are IEEE-754 doubles held by their bit pattern.  Comparing and
//! negating them is integer work and is done here; reading a numeral, the four
//! arithmetic operations and printing a number are asked of a `FloatUnit`
//! that the host supplies.

pub mod text;
pub mod tokens;
pub mod error;

pub mod ast;
pub mod number;
pub mod scan;
pub mod grammar;
pub mod parse;
pub mod table;
pub mod callable;
pub mod value;
pub mod environment;
pub mod class;
pub mod heap;
pub mod semantics;
pub mod output;
pub mod tree_walker;
pub mod native;
pub mod scopes;
pub mod resolver;
pub mod interpreter;
pub mod printing;
pub mod bare;
