//! Statement and expression trees, and their mathematical model.
use vstd::prelude::*;
use crate::lexer::Token;

verus! {

/// A parsed expression or statement. Each composite owns its children.
#[derive(Debug)]
pub enum Expr {
    Bin(Box<Expr>, Token, Box<Expr>),
    Rel(Box<Expr>, Token, Box<Expr>),
    Num(i64),
    Identifier(String),
    Str(String),
    VarDec(String, Box<Expr>),
    Print(Box<Expr>),
    Input(String, Box<Expr>),
    If(Box<Expr>, Box<Expr>),
    Assign(String, Box<Expr>),
    For {
        variable: String,
        start: Box<Expr>,
        end: Box<Expr>,
        step: Option<Box<Expr>>,
        body: Vec<Expr>,
    },
    Call(String, Vec<Expr>),
}

/// The model of an `Expr`: the same tree over character sequences, where an
/// operator is its lexeme.
pub enum Node {
    Bin(Box<Node>, Seq<char>, Box<Node>),
    Rel(Box<Node>, Seq<char>, Box<Node>),
    Num(i64),
    Identifier(Seq<char>),
    Str(Seq<char>),
    VarDec(Seq<char>, Box<Node>),
    Print(Box<Node>),
    Input(Seq<char>, Box<Node>),
    If(Box<Node>, Box<Node>),
    Assign(Seq<char>, Box<Node>),
    For {
        variable: Seq<char>,
        start: Box<Node>,
        end: Box<Node>,
        step: Option<Box<Node>>,
        body: Seq<Node>,
    },
    Call(Seq<char>, Seq<Node>),
}

pub open spec fn node_of(e: Expr) -> Node
    decreases e,
{
    match e {
        Expr::Bin(l, op, r) => Node::Bin(Box::new(node_of(*l)), op@.1, Box::new(node_of(*r))),
        Expr::Rel(l, op, r) => Node::Rel(Box::new(node_of(*l)), op@.1, Box::new(node_of(*r))),
        Expr::Num(n) => Node::Num(n),
        Expr::Identifier(s) => Node::Identifier(s@),
        Expr::Str(s) => Node::Str(s@),
        Expr::VarDec(s, x) => Node::VarDec(s@, Box::new(node_of(*x))),
        Expr::Print(x) => Node::Print(Box::new(node_of(*x))),
        Expr::Input(s, x) => Node::Input(s@, Box::new(node_of(*x))),
        Expr::If(c, x) => Node::If(Box::new(node_of(*c)), Box::new(node_of(*x))),
        Expr::Assign(s, x) => Node::Assign(s@, Box::new(node_of(*x))),
        Expr::For { variable, start, end, step, body } => Node::For {
            variable: variable@,
            start: Box::new(node_of(*start)),
            end: Box::new(node_of(*end)),
            step: match step {
                Some(st) => Some(Box::new(node_of(*st))),
                None => None,
            },
            body: nodes_of(body@),
        },
        Expr::Call(f, args) => Node::Call(f@, nodes_of(args@)),
    }
}

pub open spec fn nodes_of(es: Seq<Expr>) -> Seq<Node>
    decreases es,
{
    if es.len() == 0 {
        Seq::empty()
    } else {
        nodes_of(es.drop_last()).push(node_of(es.last()))
    }
}

impl View for Expr {
    type V = Node;

    open spec fn view(&self) -> Node {
        node_of(*self)
    }
}

pub proof fn lemma_nodes_push(es: Seq<Expr>, e: Expr)
    ensures
        nodes_of(es.push(e)) == nodes_of(es).push(node_of(e)),
{
    assert(es.push(e).drop_last() =~= es);
}

pub proof fn lemma_nodes_index(es: Seq<Expr>)
    ensures
        nodes_of(es).len() == es.len(),
        forall|i: int| 0 <= i < es.len() ==> #[trigger] nodes_of(es)[i] == node_of(es[i]),
    decreases es.len(),
{
    if es.len() > 0 {
        lemma_nodes_index(es.drop_last());
        assert forall|i: int| 0 <= i < es.len() implies #[trigger] nodes_of(es)[i] == node_of(
            es[i],
        ) by {
            if i < es.len() - 1 {
                assert(es.drop_last()[i] == es[i]);
            }
        }
    }
}

} // verus!
