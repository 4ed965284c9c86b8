//! Properties that hold of every program and every input.
use vstd::prelude::*;
use vstd::arithmetic::div_mod::{lemma_fundamental_div_mod, lemma_mod_pos_bound};
use crate::ast::Node;
use crate::lexer::{lex, lex_from, number_end, TokenKind, TokenView};
use crate::text::{all_digits, decimal, digit_char, digits_value, int_of_text, int_text, is_digit};
use crate::error::Error;
use crate::interpreter::{eval, exec_block, exec_stmt, trunc_div, trunc_rem, Stop, World};
use crate::value::Val;

verus! {

/// Assigning to a name that has no binding fails with `AssignToUndeclared`
/// and leaves the run as it was.
pub proof fn assign_needs_declaration(
    ins: Seq<Seq<char>>,
    w: World,
    id: Seq<char>,
    x: Node,
    fuel: nat,
)
    requires
        fuel > 0,
        !w.env.contains_key(id),
    ensures
        exec_stmt(ins, w, Node::Assign(id, Box::new(x)), fuel) == (
            w,
            Some(Stop::Fault(Error::AssignToUndeclared)),
        ),
{
}

/// A declaration followed at once by an assignment to the same name runs
/// without stopping, and the name ends up bound to the assigned value
/// (provided both right-hand sides evaluate).
pub proof fn declare_then_assign(
    ins: Seq<Seq<char>>,
    w: World,
    id: Seq<char>,
    x: Node,
    y: Node,
    fuel: nat,
)
    requires
        fuel > 0,
        eval(w.env, x) is Ok,
        eval(w.env.insert(id, eval(w.env, x)->Ok_0), y) is Ok,
    ensures
        ({
            let (w2, stop) = exec_block(
                ins,
                w,
                seq![Node::VarDec(id, Box::new(x)), Node::Assign(id, Box::new(y))],
                fuel,
            );
            &&& stop is None
            &&& w2.env.contains_key(id)
            &&& w2.env[id] == eval(w.env.insert(id, eval(w.env, x)->Ok_0), y)->Ok_0
        }),
{
    let ss = seq![Node::VarDec(id, Box::new(x)), Node::Assign(id, Box::new(y))];
    assert(ss.drop_last() =~= seq![Node::VarDec(id, Box::new(x))]);
    assert(ss.drop_last().drop_last() =~= Seq::<Node>::empty());
    assert(ss.drop_last().last() == Node::VarDec(id, Box::new(x)));
    let v = eval(w.env, x)->Ok_0;
    let w1 = World { env: w.env.insert(id, v), ..w };
    assert(exec_block(ins, w, ss.drop_last().drop_last(), fuel) == (w, None::<Stop>));
    assert(exec_block(ins, w, ss.drop_last(), fuel) == exec_stmt(
        ins,
        w,
        Node::VarDec(id, Box::new(x)),
        fuel,
    ));
    assert(exec_stmt(ins, w, Node::VarDec(id, Box::new(x)), fuel) == (w1, None::<Stop>));
    assert(w1.env.contains_key(id));
    assert(ss.last() == Node::Assign(id, Box::new(y)));
    assert(exec_block(ins, w, ss, fuel) == exec_stmt(ins, w1, Node::Assign(id, Box::new(y)), fuel));
}

pub open spec fn num_op(a: i64, op: Seq<char>, b: i64) -> Node {
    Node::Bin(Box::new(Node::Num(a)), op, Box::new(Node::Num(b)))
}

proof fn lemma_trunc(x: int, d: int)
    requires
        d != 0,
    ensures
        d * trunc_div(x, d) + trunc_rem(x, d) == x,
        trunc_rem(x, d) == 0 || ((trunc_rem(x, d) < 0) == (x < 0)),
        -d < trunc_rem(x, d) < d || d < trunc_rem(x, d) < -d,
        x >= 0 ==> 0 <= trunc_div(x, d) * (if d > 0 { 1int } else { -1int }) <= x,
        x < 0 ==> x <= trunc_div(x, d) * (if d > 0 { 1int } else { -1int }) <= 0,
        (d >= 2 || d <= -2) ==> -x <= 2 * trunc_div(x, d) <= x || x <= 2 * trunc_div(x, d) <= -x,
{
    let ax = if x < 0 { -x } else { x };
    let ad = if d < 0 { -d } else { d };
    lemma_fundamental_div_mod(ax, ad);
    lemma_mod_pos_bound(ax, ad);
    let q = ax / ad;
    let r = ax % ad;
    assert(ax == ad * q + r);
    assert(q >= 0) by (nonlinear_arith)
        requires
            ax == ad * q + r,
            0 <= r < ad,
            ax >= 0,
    ;
    assert(q <= ax) by (nonlinear_arith)
        requires
            ax == ad * q + r,
            0 <= r,
            ad >= 1,
            q >= 0,
    ;
    if ad >= 2 {
        assert(2 * q <= ax) by (nonlinear_arith)
            requires
                ax == ad * q + r,
                0 <= r,
                ad >= 2,
                q >= 0,
        ;
    }
    if x == 0 {
    } else if x > 0 && d > 0 {
        assert(trunc_div(x, d) == q && trunc_rem(x, d) == r);
    } else if x < 0 && d < 0 {
        assert(x * -1 == ax && d * -1 == ad);
        assert(trunc_div(x, d) == q && trunc_rem(x, d) == -r);
        assert(d * q + (-r) == x) by (nonlinear_arith)
            requires
                ad == -d,
                ax == -x,
                ax == ad * q + r,
        ;
    } else if x < 0 {
        assert(x * -1 == ax);
        assert(trunc_div(x, d) == -q && trunc_rem(x, d) == -r);
        assert(d * (-q) + (-r) == x) by (nonlinear_arith)
            requires
                ad == d,
                ax == -x,
                ax == ad * q + r,
        ;
    } else {
        assert(d * -1 == ad);
        assert(trunc_div(x, d) == -q && trunc_rem(x, d) == r);
        assert(d * (-q) + r == x) by (nonlinear_arith)
            requires
                ad == -d,
                ax == x,
                ax == ad * q + r,
        ;
    }
}

/// Integer division and remainder agree with truncating division: for a
/// non-zero divisor (and no overflow), `a / b` is `q` and `a % b` is `r` with
/// `b * q + r == a`, `|r| < |b|`, and `r` zero or of the sign of `a`.
/// A zero divisor fails with `DivisionByZero`.
#[verifier::spinoff_prover]
pub proof fn division_law(env: Map<Seq<char>, Val>, a: i64, b: i64)
    ensures
        b == 0 ==> eval(env, num_op(a, "/"@, b)) == Err::<Val, Error>(Error::DivisionByZero),
        b == 0 ==> eval(env, num_op(a, "%"@, b)) == Err::<Val, Error>(Error::DivisionByZero),
        b != 0 && !(a == i64::MIN && b == -1) ==> ({
            let q = trunc_div(a as int, b as int);
            let r = trunc_rem(a as int, b as int);
            &&& eval(env, num_op(a, "/"@, b)) == Ok::<Val, Error>(Val::Integer(q as i64))
            &&& eval(env, num_op(a, "%"@, b)) == Ok::<Val, Error>(Val::Integer(r as i64))
            &&& b * q + r == a
            &&& (-b < r < b || b < r < -b)
            &&& (r == 0 || ((r < 0) == (a < 0)))
        }),
{
    reveal_strlit("/");
    reveal_strlit("%");
    reveal_strlit("+");
    reveal_strlit("-");
    reveal_strlit("*");
    assert("/"@[0] == '/' && "%"@[0] == '%' && "+"@[0] == '+' && "-"@[0] == '-' && "*"@[0] == '*');
    assert("/"@ != "+"@ && "/"@ != "-"@ && "/"@ != "*"@);
    assert("%"@ != "+"@ && "%"@ != "-"@ && "%"@ != "*"@ && "%"@ != "/"@);
    assert(eval(env, Node::Num(a)) == Ok::<Val, Error>(Val::Integer(a)));
    assert(eval(env, Node::Num(b)) == Ok::<Val, Error>(Val::Integer(b)));
    if b != 0 {
        lemma_trunc(a as int, b as int);
        let q = trunc_div(a as int, b as int);
        if !(a == i64::MIN && b == -1) {
            if b == -1 {
                assert(q == -(a as int));
            }
        }
    }
}

proof fn lemma_decimal_digits(n: nat)
    ensures
        decimal(n).len() >= 1,
        all_digits(decimal(n)),
        digits_value(decimal(n)) == n,
    decreases n,
{
    let c = digit_char(n % 10);
    assert(c as int == (n % 10) + '0' as int);
    if n < 10 {
        assert(decimal(n) =~= seq![c]);
        assert(decimal(n).drop_last() =~= Seq::<char>::empty());
        assert(digits_value(decimal(n)) == digits_value(Seq::<char>::empty()) * 10 + (c as int
            - '0' as int));
        assert(n % 10 == n);
    } else {
        lemma_decimal_digits(n / 10);
        let d = decimal(n / 10);
        assert(decimal(n) == d.push(c));
        assert(decimal(n).drop_last() =~= d);
        lemma_fundamental_div_mod(n as int, 10);
        assert(digits_value(decimal(n)) == digits_value(d) * 10 + (c as int - '0' as int));
        assert(digits_value(d) == n / 10);
        assert(n as int == (n / 10) * 10 + n % 10);
        assert forall|i: int| 0 <= i < decimal(n).len() implies is_digit(
            #[trigger] decimal(n)[i],
        ) by {
            if i < d.len() {
                assert(decimal(n)[i] == d[i]);
            }
        }
    }
}

proof fn lemma_number_run(s: Seq<char>, i: int)
    requires
        0 <= i <= s.len(),
        forall|k: int| 0 <= k < s.len() ==> is_digit(#[trigger] s[k]),
    ensures
        number_end(s, i, false) == s.len(),
    decreases s.len() - i,
{
    if i < s.len() {
        assert(is_digit(s[i]));
        lemma_number_run(s, i + 1);
    }
}

/// The canonical text of a number literal's value lexes back to one number
/// token with that same text, and that text reads back as the same value.
pub proof fn number_literal_round_trip(n: i64)
    requires
        n >= 0,
    ensures
        int_text(n as int) == decimal(n as nat),
        lex(int_text(n as int)) == Ok::<Seq<TokenView>, Error>(
            seq![(TokenKind::Number, int_text(n as int))],
        ),
        int_of_text(int_text(n as int)) == Some(n),
{
    let t = decimal(n as nat);
    lemma_decimal_digits(n as nat);
    assert(is_digit(t[0]));
    lemma_number_run(t, 1);
    assert(number_end(t, 0, false) == number_end(t, 1, false));
    assert(t.subrange(0, t.len() as int) =~= t);
    assert(lex_from(t, t.len() as int) == Ok::<Seq<TokenView>, Error>(Seq::empty()));
    assert(seq![(TokenKind::Number, t)] + Seq::<TokenView>::empty() =~= seq![(TokenKind::Number, t)]);
    assert(t[0] != '-' && t[0] != '+');
}

} // verus!
