//! Recursive-descent parsing: tokens to an ordered sequence of statement trees.
use vstd::prelude::*;
use crate::ast::{lemma_nodes_push, node_of, nodes_of, Expr, Node};
use crate::error::Error;
use crate::lexer::{token_views, Token, TokenKind, TokenView};
use crate::text::{int_of_text, parse_int, text_is};

verus! {

/// A parse result: the tree and the index of the first token after it.
pub type Parsed = Result<(Node, int), Error>;

/// Whether the token at `p` has exactly this class and text.
pub open spec fn at(ts: Seq<TokenView>, p: int, kind: TokenKind, lit: Seq<char>) -> bool {
    0 <= p < ts.len() && ts[p] == (kind, lit)
}

pub open spec fn is_mul_op(t: TokenView) -> bool {
    t.0 == TokenKind::BinOp && (t.1 == "*"@ || t.1 == "/"@ || t.1 == "%"@)
}

pub open spec fn is_add_op(t: TokenView) -> bool {
    t.0 == TokenKind::BinOp && (t.1 == "+"@ || t.1 == "-"@)
}

pub open spec fn is_rel_op(t: TokenView) -> bool {
    t.0 == TokenKind::RelOp && (t.1 == ">"@ || t.1 == ">="@ || t.1 == "<"@ || t.1 == "<="@ || t.1
        == "="@ || t.1 == "<>"@ || t.1 == "!="@)
}

/// A number, string, identifier or builtin call.
pub open spec fn primary(ts: Seq<TokenView>, p: int) -> Parsed
    decreases ts.len() - p, 2int,
{
    if p < 0 || p >= ts.len() {
        Err(Error::UnexpectedToken)
    } else {
        let (k, x) = ts[p];
        match k {
            TokenKind::Number => match int_of_text(x) {
                Some(n) => Ok((Node::Num(n), p + 1)),
                None => Err(Error::InvalidNumber),
            },
            TokenKind::Identifier => Ok((Node::Identifier(x), p + 1)),
            TokenKind::Str => Ok((Node::Str(x), p + 1)),
            TokenKind::BuiltIn => call(ts, p),
            _ => Err(Error::UnexpectedToken),
        }
    }
}

/// `NAME ( expr [, expr]* )`.
pub open spec fn call(ts: Seq<TokenView>, p: int) -> Parsed
    decreases ts.len() - p, 1int,
{
    if p < 0 || p >= ts.len() || ts[p].0 != TokenKind::BuiltIn {
        Err(Error::UnexpectedToken)
    } else if !at(ts, p + 1, TokenKind::Punc, "("@) {
        Err(Error::UnexpectedToken)
    } else {
        args(ts, ts[p].1, Seq::empty(), p + 2)
    }
}

/// The arguments of a call from `p` on, after the ones already read.
pub open spec fn args(ts: Seq<TokenView>, name: Seq<char>, done: Seq<Node>, p: int) -> Parsed
    decreases ts.len() - p, 7int,
{
    if p < 0 || p > ts.len() {
        Err(Error::UnexpectedToken)
    } else {
        match expr(ts, p) {
            Err(e) => Err(e),
            Ok((a, q)) => if q <= p || q > ts.len() {
                Err(Error::UnexpectedToken)
            } else if at(ts, q, TokenKind::Punc, ","@) {
                args(ts, name, done.push(a), q + 1)
            } else if at(ts, q, TokenKind::Punc, ")"@) {
                Ok((Node::Call(name, done.push(a)), q + 1))
            } else {
                Err(Error::MalformedArgumentList)
            },
        }
    }
}

/// Primaries joined by `* / %`, associating to the left.
pub open spec fn factor(ts: Seq<TokenView>, p: int) -> Parsed
    decreases ts.len() - p, 3int,
{
    if p < 0 || p > ts.len() {
        Err(Error::UnexpectedToken)
    } else {
        match primary(ts, p) {
            Err(e) => Err(e),
            Ok((l, q)) => if q <= p || q > ts.len() {
                Err(Error::UnexpectedToken)
            } else {
                factor_rest(ts, l, q)
            },
        }
    }
}

pub open spec fn factor_rest(ts: Seq<TokenView>, left: Node, p: int) -> Parsed
    decreases ts.len() - p, 0int,
{
    if p < 0 || p > ts.len() {
        Err(Error::UnexpectedToken)
    } else if p < ts.len() && is_mul_op(ts[p]) {
        match primary(ts, p + 1) {
            Err(e) => Err(e),
            Ok((r, q)) => if q <= p || q > ts.len() {
                Err(Error::UnexpectedToken)
            } else {
                factor_rest(ts, Node::Bin(Box::new(left), ts[p].1, Box::new(r)), q)
            },
        }
    } else {
        Ok((left, p))
    }
}

/// Factors joined by `+ -`, associating to the left.
pub open spec fn term(ts: Seq<TokenView>, p: int) -> Parsed
    decreases ts.len() - p, 4int,
{
    if p < 0 || p > ts.len() {
        Err(Error::UnexpectedToken)
    } else {
        match factor(ts, p) {
            Err(e) => Err(e),
            Ok((l, q)) => if q <= p || q > ts.len() {
                Err(Error::UnexpectedToken)
            } else {
                term_rest(ts, l, q)
            },
        }
    }
}

pub open spec fn term_rest(ts: Seq<TokenView>, left: Node, p: int) -> Parsed
    decreases ts.len() - p, 0int,
{
    if p < 0 || p > ts.len() {
        Err(Error::UnexpectedToken)
    } else if p < ts.len() && is_add_op(ts[p]) {
        match factor(ts, p + 1) {
            Err(e) => Err(e),
            Ok((r, q)) => if q <= p || q > ts.len() {
                Err(Error::UnexpectedToken)
            } else {
                term_rest(ts, Node::Bin(Box::new(left), ts[p].1, Box::new(r)), q)
            },
        }
    } else {
        Ok((left, p))
    }
}

/// Terms joined by relational operators, associating to the left.
pub open spec fn relational(ts: Seq<TokenView>, p: int) -> Parsed
    decreases ts.len() - p, 5int,
{
    if p < 0 || p > ts.len() {
        Err(Error::UnexpectedToken)
    } else {
        match term(ts, p) {
            Err(e) => Err(e),
            Ok((l, q)) => if q <= p || q > ts.len() {
                Err(Error::UnexpectedToken)
            } else {
                relational_rest(ts, l, q)
            },
        }
    }
}

pub open spec fn relational_rest(ts: Seq<TokenView>, left: Node, p: int) -> Parsed
    decreases ts.len() - p, 0int,
{
    if p < 0 || p > ts.len() {
        Err(Error::UnexpectedToken)
    } else if p < ts.len() && is_rel_op(ts[p]) {
        match term(ts, p + 1) {
            Err(e) => Err(e),
            Ok((r, q)) => if q <= p || q > ts.len() {
                Err(Error::UnexpectedToken)
            } else {
                relational_rest(ts, Node::Rel(Box::new(left), ts[p].1, Box::new(r)), q)
            },
        }
    } else {
        Ok((left, p))
    }
}

/// An expression: the relational level is the top of the grammar.
pub open spec fn expr(ts: Seq<TokenView>, p: int) -> Parsed
    decreases ts.len() - p, 6int,
{
    if p < 0 || p > ts.len() {
        Err(Error::UnexpectedToken)
    } else {
        relational(ts, p)
    }
}

/// One statement, chosen by its first token.
pub open spec fn stmt(ts: Seq<TokenView>, p: int) -> Parsed
    decreases ts.len() - p, 9int,
{
    if p < 0 || p >= ts.len() {
        Err(Error::UnexpectedToken)
    } else {
        let (k, x) = ts[p];
        if k == TokenKind::Keyword {
            if x == "LET"@ {
                var_dec(ts, p)
            } else if x == "PRINT"@ {
                print(ts, p)
            } else if x == "INPUT"@ {
                input(ts, p)
            } else if x == "IF"@ {
                if_stmt(ts, p)
            } else if x == "FOR"@ {
                for_loop(ts, p)
            } else {
                Err(Error::UnexpectedToken)
            }
        } else if k == TokenKind::BuiltIn {
            call(ts, p)
        } else if k == TokenKind::Identifier && at(ts, p + 1, TokenKind::RelOp, "="@) {
            assign(ts, p)
        } else {
            expr(ts, p)
        }
    }
}

/// `LET name = expr`, its keyword at `p`.
pub open spec fn var_dec(ts: Seq<TokenView>, p: int) -> Parsed
    decreases ts.len() - p, 8int,
{
    if p < 0 || p + 3 > ts.len() || ts[p + 1].0 != TokenKind::Identifier || !at(
        ts,
        p + 2,
        TokenKind::RelOp,
        "="@,
    ) {
        Err(Error::UnexpectedToken)
    } else {
        match expr(ts, p + 3) {
            Err(e) => Err(e),
            Ok((v, q)) => Ok((Node::VarDec(ts[p + 1].1, Box::new(v)), q)),
        }
    }
}

/// `name = expr`, the name at `p`.
pub open spec fn assign(ts: Seq<TokenView>, p: int) -> Parsed
    decreases ts.len() - p, 8int,
{
    if p < 0 || p + 2 > ts.len() || ts[p].0 != TokenKind::Identifier || !at(
        ts,
        p + 1,
        TokenKind::RelOp,
        "="@,
    ) {
        Err(Error::UnexpectedToken)
    } else {
        match expr(ts, p + 2) {
            Err(e) => Err(e),
            Ok((v, q)) => Ok((Node::Assign(ts[p].1, Box::new(v)), q)),
        }
    }
}

/// `PRINT expr`, its keyword at `p`.
pub open spec fn print(ts: Seq<TokenView>, p: int) -> Parsed
    decreases ts.len() - p, 8int,
{
    if p < 0 || p + 1 > ts.len() {
        Err(Error::UnexpectedToken)
    } else {
        match expr(ts, p + 1) {
            Err(e) => Err(e),
            Ok((v, q)) => Ok((Node::Print(Box::new(v)), q)),
        }
    }
}

/// `INPUT "prompt" target`, its keyword at `p`.
pub open spec fn input(ts: Seq<TokenView>, p: int) -> Parsed
    decreases ts.len() - p, 8int,
{
    if p < 0 || p + 1 > ts.len() {
        Err(Error::UnexpectedToken)
    } else if p + 1 >= ts.len() || ts[p + 1].0 != TokenKind::Str {
        Err(Error::ExpectedPrompt)
    } else {
        match primary(ts, p + 2) {
            Err(e) => Err(e),
            Ok((v, q)) => Ok((Node::Input(ts[p + 1].1, Box::new(v)), q)),
        }
    }
}

/// `IF expr THEN stmt`, its keyword at `p`.
pub open spec fn if_stmt(ts: Seq<TokenView>, p: int) -> Parsed
    decreases ts.len() - p, 8int,
{
    if p < 0 || p + 1 > ts.len() {
        Err(Error::UnexpectedToken)
    } else {
        match expr(ts, p + 1) {
            Err(e) => Err(e),
            Ok((c, q)) => if q <= p || q > ts.len() || !at(ts, q, TokenKind::Keyword, "THEN"@) {
                Err(Error::UnexpectedToken)
            } else {
                match stmt(ts, q + 1) {
                    Err(e) => Err(e),
                    Ok((s, r)) => Ok((Node::If(Box::new(c), Box::new(s)), r)),
                }
            },
        }
    }
}

/// `FOR name = expr TO expr [STEP expr] stmts NEXT name`, its keyword at `p`.
pub open spec fn for_loop(ts: Seq<TokenView>, p: int) -> Parsed
    decreases ts.len() - p, 8int,
{
    if p < 0 || p + 3 > ts.len() || ts[p + 1].0 != TokenKind::Identifier || !at(
        ts,
        p + 2,
        TokenKind::RelOp,
        "="@,
    ) {
        Err(Error::UnexpectedToken)
    } else {
        match expr(ts, p + 3) {
            Err(e) => Err(e),
            Ok((start, q)) => if q <= p || q > ts.len() || !at(ts, q, TokenKind::Keyword, "TO"@) {
                Err(Error::UnexpectedToken)
            } else {
                for_rest(ts, ts[p + 1].1, start, q + 1)
            },
        }
    }
}

/// The rest of a `FOR` loop from its end bound at `p` on.
pub open spec fn for_rest(ts: Seq<TokenView>, v: Seq<char>, start: Node, p: int) -> Parsed
    decreases ts.len() - p, 8int,
{
    if p < 0 || p > ts.len() {
        Err(Error::UnexpectedToken)
    } else {
        match expr(ts, p) {
            Err(e) => Err(e),
            Ok((end, q)) => if q <= p || q > ts.len() {
                Err(Error::UnexpectedToken)
            } else {
                match step_part(ts, q) {
                    Err(e) => Err(e),
                    Ok((step, r)) => if r <= p || r > ts.len() {
                        Err(Error::UnexpectedToken)
                    } else {
                        for_node(v, start, end, step, body(ts, v, Seq::empty(), r))
                    },
                }
            },
        }
    }
}

/// An optional `STEP expr` at `p`.
pub open spec fn step_part(ts: Seq<TokenView>, p: int) -> Result<(Option<Box<Node>>, int), Error> {
    if at(ts, p, TokenKind::Keyword, "STEP"@) && p + 1 <= ts.len() {
        match expr(ts, p + 1) {
            Err(e) => Err(e),
            Ok((step, r)) => Ok((Some(Box::new(step)), r)),
        }
    } else {
        Ok((None, p))
    }
}

pub open spec fn for_node(
    v: Seq<char>,
    start: Node,
    end: Node,
    step: Option<Box<Node>>,
    b: Result<(Seq<Node>, int), Error>,
) -> Parsed {
    match b {
        Err(e) => Err(e),
        Ok((stmts, r)) => Ok(
            (
                Node::For {
                    variable: v,
                    start: Box::new(start),
                    end: Box::new(end),
                    step: step,
                    body: stmts,
                },
                r,
            ),
        ),
    }
}

/// The statements of a loop body from `p` on, after those already read, up
/// to and including `NEXT name`.
pub open spec fn body(ts: Seq<TokenView>, v: Seq<char>, done: Seq<Node>, p: int) -> Result<
    (Seq<Node>, int),
    Error,
>
    decreases ts.len() - p, 10int,
{
    if p < 0 || p >= ts.len() {
        Err(Error::MismatchedNext)
    } else if ts[p] == (TokenKind::Keyword, "NEXT"@) {
        if at(ts, p + 1, TokenKind::Identifier, v) {
            Ok((done, p + 2))
        } else {
            Err(Error::MismatchedNext)
        }
    } else {
        match stmt(ts, p) {
            Err(e) => Err(e),
            Ok((s, q)) => if q <= p || q > ts.len() {
                Err(Error::UnexpectedToken)
            } else {
                body(ts, v, done.push(s), q)
            },
        }
    }
}

/// The statements from `p` to the end, after those already read.
pub open spec fn program(ts: Seq<TokenView>, done: Seq<Node>, p: int) -> Result<Seq<Node>, Error>
    decreases ts.len() - p,
{
    if p < 0 || p >= ts.len() {
        Ok(done)
    } else {
        match stmt(ts, p) {
            Err(e) => Err(e),
            Ok((s, q)) => if q <= p || q > ts.len() {
                Err(Error::UnexpectedToken)
            } else {
                program(ts, done.push(s), q)
            },
        }
    }
}

/// The statement trees of a whole token sequence, or the first grammar error.
pub open spec fn parse_tokens(ts: Seq<TokenView>) -> Result<Seq<Node>, Error> {
    program(ts, Seq::empty(), 0)
}

/// A parse result of the executable parser, seen as a model parse result.
pub open spec fn lift(r: Result<(Expr, usize), Error>) -> Parsed {
    match r {
        Ok((e, q)) => Ok((e@, q as int)),
        Err(x) => Err(x),
    }
}

/// A successful parse from `p` consumed at least one token and stayed in range.
pub open spec fn advanced(r: Result<(Expr, usize), Error>, p: int, n: int) -> bool {
    match r {
        Ok((_, q)) => p < q <= n,
        Err(_) => true,
    }
}

/// A cursor over a token sequence.
pub struct Parser {
    tokens: Vec<Token>,
    current: usize,
}

impl Parser {
    pub closed spec fn ts(&self) -> Seq<TokenView> {
        token_views(self.tokens@)
    }

    pub closed spec fn pos(&self) -> int {
        self.current as int
    }

    /// A parser at the first of `tokens`.
    pub fn new(tokens: Vec<Token>) -> (r: Parser)
        ensures
            r.ts() == token_views(tokens@),
            r.pos() == 0,
    {
        Parser { tokens, current: 0 }
    }

    fn tok_is(&self, p: usize, kind: TokenKind, lit: &str) -> (r: bool)
        ensures
            r == at(self.ts(), p as int, kind, lit@),
    {
        p < self.tokens.len() && self.tokens[p].is(kind, lit)
    }

    fn parse_primary(&self, pos: usize) -> (r: Result<(Expr, usize), Error>)
        requires
            pos <= self.ts().len(),
        ensures
            lift(r) == primary(self.ts(), pos as int),
            advanced(r, pos as int, self.ts().len() as int),
        decreases self.ts().len() - pos, 2int,
    {
        if pos >= self.tokens.len() {
            return Err(Error::UnexpectedToken);
        }
        match &self.tokens[pos] {
            Token::Number(x) => match parse_int(x) {
                Some(n) => Ok((Expr::Num(n), pos + 1)),
                None => Err(Error::InvalidNumber),
            },
            Token::Identifier(x) => Ok((Expr::Identifier(x.clone()), pos + 1)),
            Token::Str(x) => Ok((Expr::Str(x.clone()), pos + 1)),
            Token::BuiltIn(_) => self.parse_call(pos),
            _ => Err(Error::UnexpectedToken),
        }
    }

    fn parse_call(&self, pos: usize) -> (r: Result<(Expr, usize), Error>)
        requires
            pos <= self.ts().len(),
        ensures
            lift(r) == call(self.ts(), pos as int),
            advanced(r, pos as int, self.ts().len() as int),
        decreases self.ts().len() - pos, 1int,
    {
        if pos >= self.tokens.len() {
            return Err(Error::UnexpectedToken);
        }
        let name = match &self.tokens[pos] {
            Token::BuiltIn(f) => f.clone(),
            _ => {
                return Err(Error::UnexpectedToken);
            },
        };
        if !self.tok_is(pos + 1, TokenKind::Punc, "(") {
            return Err(Error::UnexpectedToken);
        }
        proof {
            assert(name@ == self.ts()[pos as int].1);
        }
        self.parse_args(name, pos + 2)
    }

    #[verifier::rlimit(50)]
    fn parse_args(&self, name: String, pos: usize) -> (r: Result<(Expr, usize), Error>)
        requires
            pos <= self.ts().len(),
        ensures
            lift(r) == args(self.ts(), name@, Seq::empty(), pos as int),
            advanced(r, pos as int, self.ts().len() as int),
        decreases self.ts().len() - pos, 7int,
    {
        let ghost ts = self.ts();
        let ghost target = args(ts, name@, Seq::empty(), pos as int);
        let mut done: Vec<Expr> = Vec::new();
        let mut cur: usize = pos;
        let n = self.tokens.len();
        proof {
            assert(nodes_of(done@) =~= Seq::<Node>::empty());
        }
        loop
            invariant
                ts == self.ts(),
                n == ts.len(),
                target == args(ts, name@, Seq::empty(), pos as int),
                pos <= cur <= ts.len(),
                args(ts, name@, nodes_of(done@), cur as int) == target,
            decreases ts.len() - cur,
        {
            let ghost d = nodes_of(done@);
            let r1 = self.parse_expr(cur);
            proof {
                assert(args(ts, name@, d, cur as int) == match expr(ts, cur as int) {
                    Err(e) => Err(e),
                    Ok((a, q)) => if q <= cur || q > ts.len() {
                        Err(Error::UnexpectedToken)
                    } else if at(ts, q, TokenKind::Punc, ","@) {
                        args(ts, name@, d.push(a), q + 1)
                    } else if at(ts, q, TokenKind::Punc, ")"@) {
                        Ok((Node::Call(name@, d.push(a)), q + 1))
                    } else {
                        Err(Error::MalformedArgumentList)
                    },
                });
            }
            let (a, q) = match r1 {
                Ok(x) => x,
                Err(e) => {
                    return Err(e);
                },
            };
            proof {
                lemma_nodes_push(done@, a);
            }
            if self.tok_is(q, TokenKind::Punc, ",") {
                done.push(a);
                cur = q + 1;
            } else if self.tok_is(q, TokenKind::Punc, ")") {
                done.push(a);
                return Ok((Expr::Call(name, done), q + 1));
            } else {
                return Err(Error::MalformedArgumentList);
            }
        }
    }

    fn parse_factor(&self, pos: usize) -> (r: Result<(Expr, usize), Error>)
        requires
            pos <= self.ts().len(),
        ensures
            lift(r) == factor(self.ts(), pos as int),
            advanced(r, pos as int, self.ts().len() as int),
        decreases self.ts().len() - pos, 3int,
    {
        let ghost ts = self.ts();
        let (mut left, mut cur) = match self.parse_primary(pos) {
            Ok(x) => x,
            Err(e) => {
                return Err(e);
            },
        };
        loop
            invariant
                ts == self.ts(),
                pos < cur <= ts.len(),
                factor_rest(ts, left@, cur as int) == factor(ts, pos as int),
            decreases ts.len() - cur,
        {
            if cur < self.tokens.len() && is_mul_token(&self.tokens[cur]) {
                let op = self.tokens[cur].text().clone();
                let (right, q) = match self.parse_primary(cur + 1) {
                    Ok(x) => x,
                    Err(e) => {
                        return Err(e);
                    },
                };
                left = Expr::Bin(Box::new(left), Token::BinOp(op), Box::new(right));
                cur = q;
            } else {
                return Ok((left, cur));
            }
        }
    }

    fn parse_term(&self, pos: usize) -> (r: Result<(Expr, usize), Error>)
        requires
            pos <= self.ts().len(),
        ensures
            lift(r) == term(self.ts(), pos as int),
            advanced(r, pos as int, self.ts().len() as int),
        decreases self.ts().len() - pos, 4int,
    {
        let ghost ts = self.ts();
        let (mut left, mut cur) = match self.parse_factor(pos) {
            Ok(x) => x,
            Err(e) => {
                return Err(e);
            },
        };
        loop
            invariant
                ts == self.ts(),
                pos < cur <= ts.len(),
                term_rest(ts, left@, cur as int) == term(ts, pos as int),
            decreases ts.len() - cur,
        {
            if cur < self.tokens.len() && is_add_token(&self.tokens[cur]) {
                let op = self.tokens[cur].text().clone();
                let (right, q) = match self.parse_factor(cur + 1) {
                    Ok(x) => x,
                    Err(e) => {
                        return Err(e);
                    },
                };
                left = Expr::Bin(Box::new(left), Token::BinOp(op), Box::new(right));
                cur = q;
            } else {
                return Ok((left, cur));
            }
        }
    }

    fn parse_relational(&self, pos: usize) -> (r: Result<(Expr, usize), Error>)
        requires
            pos <= self.ts().len(),
        ensures
            lift(r) == relational(self.ts(), pos as int),
            advanced(r, pos as int, self.ts().len() as int),
        decreases self.ts().len() - pos, 5int,
    {
        let ghost ts = self.ts();
        let (mut left, mut cur) = match self.parse_term(pos) {
            Ok(x) => x,
            Err(e) => {
                return Err(e);
            },
        };
        loop
            invariant
                ts == self.ts(),
                pos < cur <= ts.len(),
                relational_rest(ts, left@, cur as int) == relational(ts, pos as int),
            decreases ts.len() - cur,
        {
            if cur < self.tokens.len() && is_rel_token(&self.tokens[cur]) {
                let op = self.tokens[cur].text().clone();
                let (right, q) = match self.parse_term(cur + 1) {
                    Ok(x) => x,
                    Err(e) => {
                        return Err(e);
                    },
                };
                left = Expr::Rel(Box::new(left), Token::RelOp(op), Box::new(right));
                cur = q;
            } else {
                return Ok((left, cur));
            }
        }
    }

    fn parse_expr(&self, pos: usize) -> (r: Result<(Expr, usize), Error>)
        requires
            pos <= self.ts().len(),
        ensures
            lift(r) == expr(self.ts(), pos as int),
            advanced(r, pos as int, self.ts().len() as int),
        decreases self.ts().len() - pos, 6int,
    {
        self.parse_relational(pos)
    }

    fn parse_stmt(&self, pos: usize) -> (r: Result<(Expr, usize), Error>)
        requires
            pos <= self.ts().len(),
        ensures
            lift(r) == stmt(self.ts(), pos as int),
            advanced(r, pos as int, self.ts().len() as int),
        decreases self.ts().len() - pos, 9int,
    {
        if pos >= self.tokens.len() {
            return Err(Error::UnexpectedToken);
        }
        let t = &self.tokens[pos];
        match t.kind() {
            TokenKind::Keyword => {
                if text_is(t.text(), "LET") {
                    self.parse_var_dec(pos)
                } else if text_is(t.text(), "PRINT") {
                    self.parse_print(pos)
                } else if text_is(t.text(), "INPUT") {
                    self.parse_input(pos)
                } else if text_is(t.text(), "IF") {
                    self.parse_if_stmt(pos)
                } else if text_is(t.text(), "FOR") {
                    self.parse_for_loop(pos)
                } else {
                    Err(Error::UnexpectedToken)
                }
            },
            TokenKind::BuiltIn => self.parse_call(pos),
            TokenKind::Identifier => {
                if self.tok_is(pos + 1, TokenKind::RelOp, "=") {
                    self.parse_assign(pos)
                } else {
                    self.parse_expr(pos)
                }
            },
            _ => self.parse_expr(pos),
        }
    }

    fn parse_var_dec(&self, pos: usize) -> (r: Result<(Expr, usize), Error>)
        requires
            pos <= self.ts().len(),
        ensures
            lift(r) == var_dec(self.ts(), pos as int),
            advanced(r, pos as int, self.ts().len() as int),
        decreases self.ts().len() - pos, 8int,
    {
        if self.tokens.len() - pos < 3 {
            return Err(Error::UnexpectedToken);
        }
        let id = match &self.tokens[pos + 1] {
            Token::Identifier(x) => x.clone(),
            _ => {
                return Err(Error::UnexpectedToken);
            },
        };
        if !self.tok_is(pos + 2, TokenKind::RelOp, "=") {
            return Err(Error::UnexpectedToken);
        }
        match self.parse_expr(pos + 3) {
            Ok((v, q)) => Ok((Expr::VarDec(id, Box::new(v)), q)),
            Err(e) => Err(e),
        }
    }

    fn parse_assign(&self, pos: usize) -> (r: Result<(Expr, usize), Error>)
        requires
            pos <= self.ts().len(),
        ensures
            lift(r) == assign(self.ts(), pos as int),
            advanced(r, pos as int, self.ts().len() as int),
        decreases self.ts().len() - pos, 8int,
    {
        if self.tokens.len() - pos < 2 {
            return Err(Error::UnexpectedToken);
        }
        let id = match &self.tokens[pos] {
            Token::Identifier(x) => x.clone(),
            _ => {
                return Err(Error::UnexpectedToken);
            },
        };
        if !self.tok_is(pos + 1, TokenKind::RelOp, "=") {
            return Err(Error::UnexpectedToken);
        }
        match self.parse_expr(pos + 2) {
            Ok((v, q)) => Ok((Expr::Assign(id, Box::new(v)), q)),
            Err(e) => Err(e),
        }
    }

    fn parse_print(&self, pos: usize) -> (r: Result<(Expr, usize), Error>)
        requires
            pos <= self.ts().len(),
        ensures
            lift(r) == print(self.ts(), pos as int),
            advanced(r, pos as int, self.ts().len() as int),
        decreases self.ts().len() - pos, 8int,
    {
        if self.tokens.len() - pos < 1 {
            return Err(Error::UnexpectedToken);
        }
        match self.parse_expr(pos + 1) {
            Ok((v, q)) => Ok((Expr::Print(Box::new(v)), q)),
            Err(e) => Err(e),
        }
    }

    fn parse_input(&self, pos: usize) -> (r: Result<(Expr, usize), Error>)
        requires
            pos <= self.ts().len(),
        ensures
            lift(r) == input(self.ts(), pos as int),
            advanced(r, pos as int, self.ts().len() as int),
        decreases self.ts().len() - pos, 8int,
    {
        if self.tokens.len() - pos < 1 {
            return Err(Error::UnexpectedToken);
        }
        if self.tokens.len() - pos < 2 {
            return Err(Error::ExpectedPrompt);
        }
        let prompt = match &self.tokens[pos + 1] {
            Token::Str(x) => x.clone(),
            _ => {
                return Err(Error::ExpectedPrompt);
            },
        };
        match self.parse_primary(pos + 2) {
            Ok((v, q)) => Ok((Expr::Input(prompt, Box::new(v)), q)),
            Err(e) => Err(e),
        }
    }

    fn parse_if_stmt(&self, pos: usize) -> (r: Result<(Expr, usize), Error>)
        requires
            pos <= self.ts().len(),
        ensures
            lift(r) == if_stmt(self.ts(), pos as int),
            advanced(r, pos as int, self.ts().len() as int),
        decreases self.ts().len() - pos, 8int,
    {
        if self.tokens.len() - pos < 1 {
            return Err(Error::UnexpectedToken);
        }
        let (c, q) = match self.parse_expr(pos + 1) {
            Ok(x) => x,
            Err(e) => {
                return Err(e);
            },
        };
        if !self.tok_is(q, TokenKind::Keyword, "THEN") {
            return Err(Error::UnexpectedToken);
        }
        match self.parse_stmt(q + 1) {
            Ok((st, r)) => Ok((Expr::If(Box::new(c), Box::new(st)), r)),
            Err(e) => Err(e),
        }
    }

    fn parse_for_loop(&self, pos: usize) -> (r: Result<(Expr, usize), Error>)
        requires
            pos <= self.ts().len(),
        ensures
            lift(r) == for_loop(self.ts(), pos as int),
            advanced(r, pos as int, self.ts().len() as int),
        decreases self.ts().len() - pos, 8int,
    {
        if self.tokens.len() - pos < 3 {
            return Err(Error::UnexpectedToken);
        }
        let variable = match &self.tokens[pos + 1] {
            Token::Identifier(x) => x.clone(),
            _ => {
                return Err(Error::UnexpectedToken);
            },
        };
        if !self.tok_is(pos + 2, TokenKind::RelOp, "=") {
            return Err(Error::UnexpectedToken);
        }
        let (start, q) = match self.parse_expr(pos + 3) {
            Ok(x) => x,
            Err(e) => {
                return Err(e);
            },
        };
        if !self.tok_is(q, TokenKind::Keyword, "TO") {
            return Err(Error::UnexpectedToken);
        }
        self.parse_for_rest(variable, start, q + 1)
    }

    fn parse_for_rest(&self, variable: String, start: Expr, pos: usize) -> (r: Result<
        (Expr, usize),
        Error,
    >)
        requires
            pos <= self.ts().len(),
        ensures
            lift(r) == for_rest(self.ts(), variable@, start@, pos as int),
            advanced(r, pos as int, self.ts().len() as int),
        decreases self.ts().len() - pos, 8int,
    {
        let (end, q) = match self.parse_expr(pos) {
            Ok(x) => x,
            Err(e) => {
                return Err(e);
            },
        };
        let (step, r) = match self.parse_step(q) {
            Ok(x) => x,
            Err(e) => {
                return Err(e);
            },
        };
        self.parse_for_body(variable, start, end, step, r)
    }

    fn parse_step(&self, pos: usize) -> (r: Result<(Option<Box<Expr>>, usize), Error>)
        requires
            pos <= self.ts().len(),
        ensures
            match r {
                Ok((st, q)) => step_part(self.ts(), pos as int) == Ok::<
                    (Option<Box<Node>>, int),
                    Error,
                >(
                    (
                        match st {
                            Some(x) => Some(Box::new(node_of(*x))),
                            None => None,
                        },
                        q as int,
                    ),
                ) && pos <= q <= self.ts().len(),
                Err(e) => step_part(self.ts(), pos as int) == Err::<(Option<Box<Node>>, int), Error>(
                    e,
                ),
            },
    {
        if pos < self.tokens.len() && self.tok_is(pos, TokenKind::Keyword, "STEP") {
            match self.parse_expr(pos + 1) {
                Ok((st, q)) => Ok((Some(Box::new(st)), q)),
                Err(e) => Err(e),
            }
        } else {
            Ok((None, pos))
        }
    }

    fn parse_for_body(
        &self,
        variable: String,
        start: Expr,
        end: Expr,
        step: Option<Box<Expr>>,
        pos: usize,
    ) -> (r: Result<(Expr, usize), Error>)
        requires
            pos <= self.ts().len(),
        ensures
            lift(r) == for_node(
                variable@,
                start@,
                end@,
                match step {
                    Some(st) => Some(Box::new(node_of(*st))),
                    None => None,
                },
                body(self.ts(), variable@, Seq::empty(), pos as int),
            ),
            advanced(r, pos as int, self.ts().len() as int),
        decreases self.ts().len() - pos, 11int,
    {
        match self.parse_body(&variable, pos) {
            Ok((stmts, r)) => {
                let e = Expr::For {
                    variable,
                    start: Box::new(start),
                    end: Box::new(end),
                    step,
                    body: stmts,
                };
                Ok((e, r))
            },
            Err(e) => Err(e),
        }
    }

    #[verifier::rlimit(50)]
    fn parse_body(&self, variable: &String, pos: usize) -> (r: Result<(Vec<Expr>, usize), Error>)
        requires
            pos <= self.ts().len(),
        ensures
            match r {
                Ok((es, q)) => body(self.ts(), variable@, Seq::empty(), pos as int) == Ok::<
                    (Seq<Node>, int),
                    Error,
                >((nodes_of(es@), q as int)) && pos < q <= self.ts().len(),
                Err(e) => body(self.ts(), variable@, Seq::empty(), pos as int) == Err::<
                    (Seq<Node>, int),
                    Error,
                >(e),
            },
        decreases self.ts().len() - pos, 10int,
    {
        let ghost ts = self.ts();
        let ghost target = body(ts, variable@, Seq::empty(), pos as int);
        let n = self.tokens.len();
        let mut cur: usize = pos;
        let mut stmts: Vec<Expr> = Vec::new();
        proof {
            assert(nodes_of(stmts@) =~= Seq::<Node>::empty());
        }
        loop
            invariant
                ts == self.ts(),
                n == ts.len(),
                pos <= cur <= ts.len(),
                target == body(ts, variable@, Seq::empty(), pos as int),
                body(ts, variable@, nodes_of(stmts@), cur as int) == target,
            decreases ts.len() - cur,
        {
            if cur >= n {
                return Err(Error::MismatchedNext);
            }
            if self.tokens[cur].is(TokenKind::Keyword, "NEXT") {
                if self.tok_is(cur + 1, TokenKind::Identifier, variable.as_str()) {
                    return Ok((stmts, cur + 2));
                } else {
                    return Err(Error::MismatchedNext);
                }
            }
            let (st, q) = match self.parse_stmt(cur) {
                Ok(x) => x,
                Err(e) => {
                    return Err(e);
                },
            };
            proof {
                lemma_nodes_push(stmts@, st);
            }
            stmts.push(st);
            cur = q;
        }
    }

    /// Parses statements from the cursor to the end of the tokens.
    pub fn parse(&mut self) -> (r: Result<Vec<Expr>, Error>)
        requires
            old(self).pos() <= old(self).ts().len(),
        ensures
            final(self).ts() == old(self).ts(),
            match r {
                Ok(es) => program(old(self).ts(), Seq::empty(), old(self).pos()) == Ok::<
                    Seq<Node>,
                    Error,
                >(nodes_of(es@)),
                Err(e) => program(old(self).ts(), Seq::empty(), old(self).pos()) == Err::<
                    Seq<Node>,
                    Error,
                >(e),
            },
    {
        let ghost ts = self.ts();
        let ghost start = self.pos();
        let mut exprs: Vec<Expr> = Vec::new();
        proof {
            assert(nodes_of(exprs@) =~= Seq::<Node>::empty());
        }
        while self.current < self.tokens.len()
            invariant
                ts == self.ts(),
                ts == old(self).ts(),
                start == old(self).pos(),
                0 <= self.pos() <= ts.len(),
                program(ts, nodes_of(exprs@), self.pos()) == program(ts, Seq::empty(), start),
            decreases ts.len() - self.pos(),
        {
            let (st, q) = match self.parse_stmt(self.current) {
                Ok(x) => x,
                Err(e) => {
                    return Err(e);
                },
            };
            proof {
                lemma_nodes_push(exprs@, st);
            }
            exprs.push(st);
            self.current = q;
        }
        Ok(exprs)
    }
}

fn is_mul_token(t: &Token) -> (r: bool)
    ensures
        r == is_mul_op(t@),
{
    t.is(TokenKind::BinOp, "*") || t.is(TokenKind::BinOp, "/") || t.is(TokenKind::BinOp, "%")
}

fn is_add_token(t: &Token) -> (r: bool)
    ensures
        r == is_add_op(t@),
{
    t.is(TokenKind::BinOp, "+") || t.is(TokenKind::BinOp, "-")
}

fn is_rel_token(t: &Token) -> (r: bool)
    ensures
        r == is_rel_op(t@),
{
    t.is(TokenKind::RelOp, ">") || t.is(TokenKind::RelOp, ">=") || t.is(TokenKind::RelOp, "<")
        || t.is(TokenKind::RelOp, "<=") || t.is(TokenKind::RelOp, "=") || t.is(TokenKind::RelOp, "<>")
        || t.is(TokenKind::RelOp, "!=")
}

} // verus!
