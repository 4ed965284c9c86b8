//! A small interpreter for a line-oriented BASIC-like language: a lexer that
//! turns source text into tokens, a recursive-descent parser that builds
//! statement trees, and a tree-walking evaluator over a variable store.
use vstd::prelude::*;

pub mod error;
pub mod text;
pub mod lexer;
pub mod ast;
pub mod parser;
pub mod value;
pub mod interpreter;
pub mod laws;

use crate::error::Error;
use crate::ast::Node;
use crate::interpreter::{fresh_world, Interpreter};
use crate::lexer::{lex, Lexer};
use crate::parser::{parse_tokens, Parser};

verus! {

/// The statement trees of a source text, or its first lexical or grammar error.
pub open spec fn compile(s: Seq<char>) -> Result<Seq<Node>, Error> {
    match lex(s) {
        Err(e) => Err(e),
        Ok(ts) => parse_tokens(ts),
    }
}

/// Tokenizes and parses `source` into an interpreter that is ready to run.
pub fn load(source: String) -> (r: Result<Interpreter, Error>)
    ensures
        match r {
            Ok(i) => compile(source@) == Ok::<Seq<Node>, Error>(i.program()) && i.wf() && i.world()
                == fresh_world(),
            Err(e) => compile(source@) == Err::<Seq<Node>, Error>(e),
        },
{
    let mut lexer = Lexer::new(source);
    let tokens = match lexer.tokenize() {
        Ok(ts) => ts,
        Err(e) => {
            return Err(e);
        },
    };
    let mut parser = Parser::new(tokens);
    match parser.parse() {
        Ok(exprs) => Ok(Interpreter::new(exprs)),
        Err(e) => Err(e),
    }
}

} // verus!
