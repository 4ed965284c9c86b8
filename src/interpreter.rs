//! Tree-walking evaluation of statement trees against a variable store.
use vstd::prelude::*;
use crate::ast::{lemma_nodes_index, node_of, nodes_of, Expr, Node};
use crate::error::Error;
use crate::lexer::Token;
use crate::text::{int_of_text, parse_int, text_is, trim, trim_of};
use crate::value::{vals, Env, Sine, Val, Value};

verus! {

/// Why a run stopped before the end of the program.
#[derive(PartialEq, Eq, Structural, Debug, Clone, Copy)]
pub enum Stop {
    /// A fatal error.
    Fault(Error),
    /// An `INPUT` statement was reached after every supplied line was used.
    NeedInput,
    /// The step budget ran out (a loop that runs too long, or forever).
    OutOfFuel,
}

/// What a run has produced so far: the bindings, every line written (a
/// printed value or an input prompt), and how many input lines were read.
pub struct World {
    pub env: Map<Seq<char>, Val>,
    pub out: Seq<Val>,
    pub used: int,
}

pub open spec fn fresh_world() -> World {
    World { env: Map::empty(), out: Seq::empty(), used: 0 }
}

pub open spec fn in_i64(n: int) -> bool {
    i64::MIN <= n <= i64::MAX
}

/// Rust's truncating division.
pub open spec fn trunc_div(x: int, d: int) -> int {
    if x == 0 {
        0
    } else if x > 0 && d > 0 {
        x / d
    } else if x < 0 && d < 0 {
        (x * -1) / (d * -1)
    } else if x < 0 {
        ((x * -1) / d) * -1
    } else {
        (x / (d * -1)) * -1
    }
}

/// Rust's remainder, which takes the sign of the dividend.
pub open spec fn trunc_rem(x: int, d: int) -> int {
    if x == 0 {
        0
    } else if x > 0 && d > 0 {
        x % d
    } else if x < 0 && d < 0 {
        ((x * -1) % (d * -1)) * -1
    } else if x < 0 {
        ((x * -1) % d) * -1
    } else {
        x % (d * -1)
    }
}

pub open spec fn checked(n: int) -> Result<Val, Error> {
    if in_i64(n) {
        Ok(Val::Integer(n as i64))
    } else {
        Err(Error::ArithmeticOverflow)
    }
}

/// An arithmetic operator applied to two values: both must be integers.
pub open spec fn arith(a: Val, op: Seq<char>, b: Val) -> Result<Val, Error> {
    match (a, b) {
        (Val::Integer(x), Val::Integer(y)) => if op == "+"@ {
            checked(x + y)
        } else if op == "-"@ {
            checked(x - y)
        } else if op == "*"@ {
            checked(x * y)
        } else if op == "/"@ {
            if y == 0 {
                Err(Error::DivisionByZero)
            } else {
                checked(trunc_div(x as int, y as int))
            }
        } else if op == "%"@ {
            if y == 0 {
                Err(Error::DivisionByZero)
            } else if x == i64::MIN && y == -1 {
                Err(Error::ArithmeticOverflow)
            } else {
                Ok(Val::Integer(trunc_rem(x as int, y as int) as i64))
            }
        } else {
            Err(Error::UnknownOperator)
        },
        _ => Err(Error::InvalidOperandType),
    }
}

/// A relational operator applied to two values: both must be integers.
pub open spec fn compare(a: Val, op: Seq<char>, b: Val) -> Result<Val, Error> {
    match (a, b) {
        (Val::Integer(x), Val::Integer(y)) => if op == ">"@ {
            Ok(Val::Bool(x > y))
        } else if op == "<"@ {
            Ok(Val::Bool(x < y))
        } else if op == "<="@ {
            Ok(Val::Bool(x <= y))
        } else if op == ">="@ {
            Ok(Val::Bool(x >= y))
        } else if op == "="@ {
            Ok(Val::Bool(x == y))
        } else if op == "<>"@ {
            Ok(Val::Bool(x != y))
        } else {
            Err(Error::UnknownOperator)
        },
        _ => Err(Error::InvalidOperandType),
    }
}

/// The value of an expression in the given bindings.
pub open spec fn eval(env: Map<Seq<char>, Val>, e: Node) -> Result<Val, Error>
    decreases e,
{
    match e {
        Node::Num(n) => Ok(Val::Integer(n)),
        Node::Str(s) => Ok(Val::Str(s)),
        Node::Identifier(x) => if env.contains_key(x) {
            Ok(env[x])
        } else {
            Err(Error::UndefinedVariable)
        },
        Node::Bin(l, op, r) => match eval(env, *l) {
            Err(x) => Err(x),
            Ok(a) => match eval(env, *r) {
                Err(x) => Err(x),
                Ok(b) => arith(a, op, b),
            },
        },
        Node::Rel(l, op, r) => match eval(env, *l) {
            Err(x) => Err(x),
            Ok(a) => match eval(env, *r) {
                Err(x) => Err(x),
                Ok(b) => compare(a, op, b),
            },
        },
        Node::Call(f, args) => if f != "SIN"@ {
            Err(Error::UndefinedFunction)
        } else if args.len() != 1 {
            Err(Error::InvalidArgument)
        } else {
            match eval(env, args[0]) {
                Err(x) => Err(x),
                Ok(Val::Integer(n)) => Ok(Val::Float(Sine { degrees: n })),
                Ok(_) => Err(Error::InvalidArgument),
            }
        },
        _ => Err(Error::NotAnExpression),
    }
}

/// The value an input line stands for: an integer if it reads as one, else the text.
pub open spec fn input_value(line: Seq<char>) -> Val {
    match int_of_text(line) {
        Some(n) => Val::Integer(n),
        None => Val::Str(line),
    }
}

/// Start, end and step of a loop, each of which must be an integer; the step
/// is 1 when absent.
pub open spec fn loop_bounds(
    env: Map<Seq<char>, Val>,
    start: Node,
    end: Node,
    step: Option<Box<Node>>,
) -> Result<(i64, i64, i64), Error> {
    match eval(env, start) {
        Err(x) => Err(x),
        Ok(Val::Integer(a)) => match eval(env, end) {
            Err(x) => Err(x),
            Ok(Val::Integer(b)) => match step {
                None => Ok((a, b, 1)),
                Some(st) => match eval(env, *st) {
                    Err(x) => Err(x),
                    Ok(Val::Integer(c)) => Ok((a, b, c)),
                    Ok(_) => Err(Error::InvalidLoopStep),
                },
            },
            Ok(_) => Err(Error::InvalidLoopEnd),
        },
        Ok(_) => Err(Error::InvalidLoopStart),
    }
}

pub open spec fn loop_continues(counter: i64, end: i64, step: i64) -> bool {
    (step > 0 && counter <= end) || (step < 0 && counter >= end)
}

/// One statement run with `fuel` steps left.
pub open spec fn exec_stmt(ins: Seq<Seq<char>>, w: World, s: Node, fuel: nat) -> (
    World,
    Option<Stop>,
)
    decreases fuel, 0int,
{
    if fuel == 0 {
        (w, Some(Stop::OutOfFuel))
    } else {
        match s {
            Node::Print(x) => match eval(w.env, *x) {
                Ok(v) => (World { out: w.out.push(v), ..w }, None),
                Err(e) => (w, Some(Stop::Fault(e))),
            },
            Node::Input(prompt, target) => {
                let w1 = World { out: w.out.push(Val::Str(prompt)), ..w };
                if w.used < 0 || w.used >= ins.len() {
                    (w1, Some(Stop::NeedInput))
                } else {
                    let line = trim_of(ins[w.used]);
                    let w2 = World { used: w.used + 1, ..w1 };
                    match *target {
                        Node::Identifier(id) => (
                            World { env: w2.env.insert(id, input_value(line)), ..w2 },
                            None,
                        ),
                        _ => (w2, Some(Stop::Fault(Error::InvalidInputTarget))),
                    }
                }
            },
            Node::VarDec(id, x) => match eval(w.env, *x) {
                Ok(v) => (World { env: w.env.insert(id, v), ..w }, None),
                Err(e) => (w, Some(Stop::Fault(e))),
            },
            Node::Assign(id, x) => if !w.env.contains_key(id) {
                (w, Some(Stop::Fault(Error::AssignToUndeclared)))
            } else {
                match eval(w.env, *x) {
                    Ok(v) => (World { env: w.env.insert(id, v), ..w }, None),
                    Err(e) => (w, Some(Stop::Fault(e))),
                }
            },
            Node::If(c, x) => match eval(w.env, *c) {
                Ok(Val::Bool(true)) => exec_stmt(ins, w, *x, (fuel - 1) as nat),
                Ok(Val::Bool(false)) => (w, None),
                Ok(_) => (w, Some(Stop::Fault(Error::NonBooleanCondition))),
                Err(e) => (w, Some(Stop::Fault(e))),
            },
            Node::For { variable, start, end, step, body } => match loop_bounds(
                w.env,
                *start,
                *end,
                step,
            ) {
                Err(e) => (w, Some(Stop::Fault(e))),
                Ok((a, b, c)) => run_loop(
                    ins,
                    World { env: w.env.insert(variable, Val::Integer(a)), ..w },
                    variable,
                    a,
                    b,
                    c,
                    body,
                    (fuel - 1) as nat,
                ),
            },
            _ => match eval(w.env, s) {
                Ok(_) => (w, None),
                Err(e) => (w, Some(Stop::Fault(e))),
            },
        }
    }
}

/// The iterations of a loop from `counter` on; each one takes a step of fuel.
pub open spec fn run_loop(
    ins: Seq<Seq<char>>,
    w: World,
    var: Seq<char>,
    counter: i64,
    end: i64,
    step: i64,
    body: Seq<Node>,
    fuel: nat,
) -> (World, Option<Stop>)
    decreases fuel, 0int,
{
    if !loop_continues(counter, end, step) {
        (w, None)
    } else if fuel == 0 {
        (w, Some(Stop::OutOfFuel))
    } else {
        let (w1, stop) = exec_block(ins, w, body, (fuel - 1) as nat);
        if stop is Some {
            (w1, stop)
        } else if !in_i64(counter + step) {
            (w1, Some(Stop::Fault(Error::ArithmeticOverflow)))
        } else {
            let c2 = (counter + step) as i64;
            run_loop(
                ins,
                World { env: w1.env.insert(var, Val::Integer(c2)), ..w1 },
                var,
                c2,
                end,
                step,
                body,
                (fuel - 1) as nat,
            )
        }
    }
}

/// Statements run in order, stopping at the first that stops.
pub open spec fn exec_block(ins: Seq<Seq<char>>, w: World, stmts: Seq<Node>, fuel: nat) -> (
    World,
    Option<Stop>,
)
    decreases fuel, stmts.len(),
{
    if stmts.len() == 0 {
        (w, None)
    } else {
        let (w1, stop) = exec_block(ins, w, stmts.drop_last(), fuel);
        if stop is Some {
            (w1, stop)
        } else {
            exec_stmt(ins, w1, stmts.last(), fuel)
        }
    }
}

/// A whole program run from empty bindings with the given input lines.
pub open spec fn run_program(ins: Seq<Seq<char>>, stmts: Seq<Node>, fuel: nat) -> (
    World,
    Option<Stop>,
) {
    exec_block(ins, fresh_world(), stmts, fuel)
}

pub open spec fn lines(ins: Seq<String>) -> Seq<Seq<char>> {
    ins.map_values(|s: String| s@)
}

pub open spec fn lift_val(r: Result<Value, Error>) -> Result<Val, Error> {
    match r {
        Ok(v) => Ok(v@),
        Err(e) => Err(e),
    }
}

proof fn lemma_block_stop(ins: Seq<Seq<char>>, w: World, ss: Seq<Node>, k: int, fuel: nat)
    requires
        0 <= k <= ss.len(),
        exec_block(ins, w, ss.take(k), fuel).1 is Some,
    ensures
        exec_block(ins, w, ss, fuel) == exec_block(ins, w, ss.take(k), fuel),
    decreases ss.len(),
{
    if k == ss.len() {
        assert(ss.take(k) =~= ss);
    } else {
        assert(ss.drop_last().take(k) =~= ss.take(k));
        lemma_block_stop(ins, w, ss.drop_last(), k, fuel);
    }
}

fn arith_op(a: &Value, op: &String, b: &Value) -> (r: Result<Value, Error>)
    ensures
        lift_val(r) == arith(a@, op@, b@),
{
    match (a, b) {
        (Value::Integer(x), Value::Integer(y)) => {
            let x = *x;
            let y = *y;
            let z = if text_is(op, "+") {
                x.checked_add(y)
            } else if text_is(op, "-") {
                x.checked_sub(y)
            } else if text_is(op, "*") {
                x.checked_mul(y)
            } else if text_is(op, "/") {
                if y == 0 {
                    return Err(Error::DivisionByZero);
                }
                x.checked_div(y)
            } else if text_is(op, "%") {
                if y == 0 {
                    return Err(Error::DivisionByZero);
                }
                x.checked_rem(y)
            } else {
                return Err(Error::UnknownOperator);
            };
            match z {
                Some(n) => Ok(Value::Integer(n)),
                None => Err(Error::ArithmeticOverflow),
            }
        },
        _ => Err(Error::InvalidOperandType),
    }
}

fn compare_op(a: &Value, op: &String, b: &Value) -> (r: Result<Value, Error>)
    ensures
        lift_val(r) == compare(a@, op@, b@),
{
    match (a, b) {
        (Value::Integer(x), Value::Integer(y)) => {
            let x = *x;
            let y = *y;
            if text_is(op, ">") {
                Ok(Value::Bool(x > y))
            } else if text_is(op, "<") {
                Ok(Value::Bool(x < y))
            } else if text_is(op, "<=") {
                Ok(Value::Bool(x <= y))
            } else if text_is(op, ">=") {
                Ok(Value::Bool(x >= y))
            } else if text_is(op, "=") {
                Ok(Value::Bool(x == y))
            } else if text_is(op, "<>") {
                Ok(Value::Bool(x != y))
            } else {
                Err(Error::UnknownOperator)
            }
        },
        _ => Err(Error::InvalidOperandType),
    }
}

/// The mutable part of a run: bindings, lines written, input lines read.
pub struct State {
    variables: Env,
    output: Vec<Value>,
    used: usize,
}

impl State {
    pub closed spec fn world(&self) -> World {
        World { env: self.variables.view_map(), out: vals(self.output@), used: self.used as int }
    }

    pub closed spec fn wf(&self) -> bool {
        self.variables.wf()
    }

    /// A state with no bindings, no output and no input read.
    pub fn new() -> (r: State)
        ensures
            r.wf(),
            r.world() == fresh_world(),
    {
        let r = State { variables: Env::new(), output: Vec::new(), used: 0 };
        proof {
            assert(vals(r.output@) =~= Seq::<Val>::empty());
        }
        r
    }

    /// Every line written so far: printed values and input prompts.
    pub fn output(&self) -> (r: &Vec<Value>)
        ensures
            vals(r@) == self.world().out,
    {
        &self.output
    }

    /// The current value of a variable.
    pub fn variable(&self, name: &String) -> (r: Option<Value>)
        requires
            self.wf(),
        ensures
            match r {
                Some(v) => self.world().env.contains_key(name@) && self.world().env[name@] == v@,
                None => !self.world().env.contains_key(name@),
            },
    {
        self.variables.get(name)
    }

    /// How many input lines were read.
    pub fn inputs_used(&self) -> (r: usize)
        ensures
            r == self.world().used,
    {
        self.used
    }

    fn eval_expr(&self, e: &Expr) -> (r: Result<Value, Error>)
        requires
            self.wf(),
        ensures
            lift_val(r) == eval(self.world().env, e@),
        decreases e,
    {
        match e {
            Expr::Num(n) => Ok(Value::Integer(*n)),
            Expr::Str(s) => Ok(Value::String(s.clone())),
            Expr::Identifier(x) => match self.variables.get(x) {
                Some(v) => Ok(v),
                None => Err(Error::UndefinedVariable),
            },
            Expr::Bin(l, op, r) => {
                let a = match self.eval_expr(l) {
                    Ok(v) => v,
                    Err(x) => {
                        return Err(x);
                    },
                };
                let b = match self.eval_expr(r) {
                    Ok(v) => v,
                    Err(x) => {
                        return Err(x);
                    },
                };
                arith_op(&a, op.text(), &b)
            },
            Expr::Rel(l, op, r) => {
                let a = match self.eval_expr(l) {
                    Ok(v) => v,
                    Err(x) => {
                        return Err(x);
                    },
                };
                let b = match self.eval_expr(r) {
                    Ok(v) => v,
                    Err(x) => {
                        return Err(x);
                    },
                };
                compare_op(&a, op.text(), &b)
            },
            Expr::Call(f, args) => self.call(f, args),
            _ => Err(Error::NotAnExpression),
        }
    }

    /// A builtin call; `SIN` of one integer is the one implemented.
    fn call(&self, f: &String, args: &Vec<Expr>) -> (r: Result<Value, Error>)
        requires
            self.wf(),
        ensures
            lift_val(r) == eval(self.world().env, Node::Call(f@, nodes_of(args@))),
        decreases args,
    {
        proof {
            lemma_nodes_index(args@);
        }
        if !text_is(f, "SIN") {
            return Err(Error::UndefinedFunction);
        }
        if args.len() != 1 {
            return Err(Error::InvalidArgument);
        }
        match self.eval_expr(&args[0]) {
            Ok(Value::Integer(n)) => Ok(Value::Float(Sine { degrees: n })),
            Ok(_) => Err(Error::InvalidArgument),
            Err(x) => Err(x),
        }
    }

    fn eval_stmt(&mut self, ins: &Vec<String>, e: &Expr, fuel: u64) -> (r: Option<Stop>)
        requires
            old(self).wf(),
        ensures
            final(self).wf(),
            (final(self).world(), r) == exec_stmt(lines(ins@), old(self).world(), e@, fuel as nat),
        decreases fuel, 0int,
    {
        if fuel == 0 {
            return Some(Stop::OutOfFuel);
        }
        let ghost w = self.world();
        match e {
            Expr::Print(x) => match self.eval_expr(x) {
                Ok(v) => {
                    let ghost out = self.output@;
                    self.output.push(v);
                    proof {
                        assert(vals(self.output@) =~= vals(out).push(v@));
                    }
                    None
                },
                Err(x) => Some(Stop::Fault(x)),
            },
            Expr::Input(prompt, target) => {
                let ghost out = self.output@;
                let p = Value::String(prompt.clone());
                self.output.push(p);
                proof {
                    assert(vals(self.output@) =~= vals(out).push(p@));
                }
                if self.used >= ins.len() {
                    return Some(Stop::NeedInput);
                }
                let line = trim(&ins[self.used]);
                self.used = self.used + 1;
                match &**target {
                    Expr::Identifier(id) => {
                        let v = match parse_int(&line) {
                            Some(n) => Value::Integer(n),
                            None => Value::String(line),
                        };
                        self.variables.set(id.clone(), v);
                        proof {
                            assert(node_of(**target) == Node::Identifier(id@));
                        }
                        None
                    },
                    _ => Some(Stop::Fault(Error::InvalidInputTarget)),
                }
            },
            Expr::VarDec(id, x) => match self.eval_expr(x) {
                Ok(v) => {
                    self.variables.set(id.clone(), v);
                    None
                },
                Err(x) => Some(Stop::Fault(x)),
            },
            Expr::Assign(id, x) => {
                if !self.variables.contains(id) {
                    return Some(Stop::Fault(Error::AssignToUndeclared));
                }
                match self.eval_expr(x) {
                    Ok(v) => {
                        self.variables.set(id.clone(), v);
                        None
                    },
                    Err(x) => Some(Stop::Fault(x)),
                }
            },
            Expr::If(c, x) => match self.eval_expr(c) {
                Ok(Value::Bool(true)) => self.eval_stmt(ins, x, fuel - 1),
                Ok(Value::Bool(false)) => None,
                Ok(_) => Some(Stop::Fault(Error::NonBooleanCondition)),
                Err(x) => Some(Stop::Fault(x)),
            },
            Expr::For { variable, start, end, step, body } => {
                let a = match self.eval_expr(start) {
                    Ok(Value::Integer(a)) => a,
                    Ok(_) => {
                        return Some(Stop::Fault(Error::InvalidLoopStart));
                    },
                    Err(x) => {
                        return Some(Stop::Fault(x));
                    },
                };
                let b = match self.eval_expr(end) {
                    Ok(Value::Integer(b)) => b,
                    Ok(_) => {
                        return Some(Stop::Fault(Error::InvalidLoopEnd));
                    },
                    Err(x) => {
                        return Some(Stop::Fault(x));
                    },
                };
                let c = match step {
                    None => 1,
                    Some(st) => match self.eval_expr(st) {
                        Ok(Value::Integer(c)) => c,
                        Ok(_) => {
                            return Some(Stop::Fault(Error::InvalidLoopStep));
                        },
                        Err(x) => {
                            return Some(Stop::Fault(x));
                        },
                    },
                };
                self.variables.set(variable.clone(), Value::Integer(a));
                self.for_loop(ins, variable, a, b, c, body, fuel - 1)
            },
            _ => match self.eval_expr(e) {
                Ok(_) => {
                    None
                },
                Err(x) => Some(Stop::Fault(x)),
            },
        }
    }

    fn for_loop(
        &mut self,
        ins: &Vec<String>,
        variable: &String,
        start: i64,
        end: i64,
        step: i64,
        body: &Vec<Expr>,
        fuel: u64,
    ) -> (r: Option<Stop>)
        requires
            old(self).wf(),
        ensures
            final(self).wf(),
            (final(self).world(), r) == run_loop(
                lines(ins@),
                old(self).world(),
                variable@,
                start,
                end,
                step,
                nodes_of(body@),
                fuel as nat,
            ),
        decreases fuel, 1int,
    {
        let ghost target = run_loop(
            lines(ins@),
            self.world(),
            variable@,
            start,
            end,
            step,
            nodes_of(body@),
            fuel as nat,
        );
        let mut counter = start;
        let mut f = fuel;
        loop
            invariant
                self.wf(),
                f <= fuel,
                target == run_loop(
                    lines(ins@),
                    old(self).world(),
                    variable@,
                    start,
                    end,
                    step,
                    nodes_of(body@),
                    fuel as nat,
                ),
                run_loop(
                    lines(ins@),
                    self.world(),
                    variable@,
                    counter,
                    end,
                    step,
                    nodes_of(body@),
                    f as nat,
                ) == target,
            decreases f,
        {
            if !((step > 0 && counter <= end) || (step < 0 && counter >= end)) {
                return None;
            }
            if f == 0 {
                return Some(Stop::OutOfFuel);
            }
            let stop = self.eval_block(ins, body, f - 1);
            if stop.is_some() {
                return stop;
            }
            match counter.checked_add(step) {
                None => {
                    return Some(Stop::Fault(Error::ArithmeticOverflow));
                },
                Some(c2) => {
                    self.variables.set(variable.clone(), Value::Integer(c2));
                    counter = c2;
                    f = f - 1;
                },
            }
        }
    }

    /// Runs statements in order until the end or the first that stops.
    pub fn eval_block(&mut self, ins: &Vec<String>, stmts: &Vec<Expr>, fuel: u64) -> (r: Option<
        Stop,
    >)
        requires
            old(self).wf(),
        ensures
            final(self).wf(),
            (final(self).world(), r) == exec_block(
                lines(ins@),
                old(self).world(),
                nodes_of(stmts@),
                fuel as nat,
            ),
        decreases fuel, 2int,
    {
        let ghost w0 = self.world();
        let ghost ss = nodes_of(stmts@);
        proof {
            lemma_nodes_index(stmts@);
            assert(ss.take(0) =~= Seq::<Node>::empty());
        }
        let mut i: usize = 0;
        while i < stmts.len()
            invariant
                self.wf(),
                w0 == old(self).world(),
                ss == nodes_of(stmts@),
                ss.len() == stmts@.len(),
                forall|k: int| 0 <= k < stmts@.len() ==> #[trigger] ss[k] == node_of(stmts@[k]),
                i <= stmts@.len(),
                exec_block(lines(ins@), w0, ss.take(i as int), fuel as nat) == (
                    self.world(),
                    None::<Stop>,
                ),
            decreases stmts@.len() - i,
        {
            let stop = self.eval_stmt(ins, &stmts[i], fuel);
            proof {
                assert(ss.take(i + 1).drop_last() =~= ss.take(i as int));
                assert(ss.take(i + 1).last() == ss[i as int]);
            }
            if stop.is_some() {
                proof {
                    lemma_block_stop(lines(ins@), w0, ss, i + 1, fuel as nat);
                }
                return stop;
            }
            i = i + 1;
        }
        proof {
            assert(ss.take(i as int) =~= ss);
        }
        None
    }
}

/// A program and the state of its latest run.
pub struct Interpreter {
    exprs: Vec<Expr>,
    state: State,
}

impl Interpreter {
    pub closed spec fn program(&self) -> Seq<Node> {
        nodes_of(self.exprs@)
    }

    pub closed spec fn world(&self) -> World {
        self.state.world()
    }

    pub closed spec fn wf(&self) -> bool {
        self.state.wf()
    }

    /// An interpreter for `exprs` that has not run yet.
    pub fn new(exprs: Vec<Expr>) -> (r: Interpreter)
        ensures
            r.wf(),
            r.program() == nodes_of(exprs@),
            r.world() == fresh_world(),
    {
        Interpreter { exprs, state: State::new() }
    }

    /// Runs the program from empty bindings, reading from `inputs` in order,
    /// with `fuel` steps at most at each level. The result says why the run
    /// stopped early, or is `None` when the program ran to its end.
    pub fn interpret(&mut self, inputs: &Vec<String>, fuel: u64) -> (r: Option<Stop>)
        ensures
            final(self).wf(),
            final(self).program() == old(self).program(),
            (final(self).world(), r) == run_program(lines(inputs@), old(self).program(), fuel as nat),
    {
        self.state = State::new();
        self.state.eval_block(inputs, &self.exprs, fuel)
    }

    /// The state that the latest run left.
    pub fn state(&self) -> (r: &State)
        ensures
            r.wf() == self.wf(),
            r.world() == self.world(),
    {
        &self.state
    }
}

} // verus!
