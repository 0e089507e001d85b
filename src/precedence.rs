//! The pipeline after the lexer agrees with evaluation over expression
//! trees under the usual precedence and left associativity.
use vstd::prelude::*;

use crate::calc::calc_from;
use crate::lexer::{lex, strip};
use crate::{evaluation, token_value};
use crate::normalize::{closes, norm_from, normalize, settle, unary_minus_prefix};
use crate::shunting::{drain, pop_to_open, pop_while_stronger, shunt_from, to_postfix};
use crate::token::{
    EvalError, EvaluationError, LexError, OperationToken, ParenError, SyntaxError, Token,
    TokenType, close_token, number_token, open_token,
};

verus! {

/// An expression tree over the four operators, as a recursive-descent
/// parser of `expr := term (('+'|'-') term)*`, `term := factor (('*'|'/')
/// factor)*`, `factor := number | '-' factor | '(' expr ')'` builds it.
pub enum Expr {
    Num(i64),
    /// A unary minus applied to a factor.
    Neg(Box<Expr>),
    Bin(Box<Expr>, OperationToken, Box<Expr>),
    Group(Box<Expr>),
}

/// How tightly the tree's top binds: a number, a negated factor or a group
/// binds tightest.
pub open spec fn prio(e: Expr) -> u8 {
    match e {
        Expr::Bin(_, op, _) => op.priority(),
        _ => 3,
    }
}

/// The trees that the parser builds: a left operand binds at least as
/// tightly as its operator (left associativity), a right operand strictly
/// more tightly (anything else needs a group); a unary minus applies to a
/// factor.
pub open spec fn parsed_shape(e: Expr) -> bool
    decreases e,
{
    match e {
        Expr::Num(_) => true,
        Expr::Neg(x) => parsed_shape(*x) && prio(*x) == 3,
        Expr::Bin(l, op, r) => parsed_shape(*l) && parsed_shape(*r) && prio(*l) >= op.priority()
            && prio(*r) > op.priority(),
        Expr::Group(inner) => parsed_shape(*inner),
    }
}

/// The tokens of the tree's text: parentheses only where it has a group.
pub open spec fn render(e: Expr) -> Seq<Token>
    decreases e,
{
    match e {
        Expr::Num(n) => seq![number_token(n)],
        Expr::Neg(x) => seq![Token::Operation(OperationToken::Sub)] + render(*x),
        Expr::Bin(l, op, r) => render(*l) + seq![Token::Operation(op)] + render(*r),
        Expr::Group(inner) => seq![open_token()] + render(*inner) + seq![close_token()],
    }
}

/// The tree's value: operands left to right, each operation checked; the
/// first failing operation gives the error. A unary minus multiplies by -1.
pub open spec fn value(e: Expr) -> Result<i64, EvalError>
    decreases e,
{
    match e {
        Expr::Num(n) => Ok(n),
        Expr::Neg(x) => match value(*x) {
            Err(err) => Err(err),
            Ok(v) => OperationToken::Mul.apply(-1i64, v),
        },
        Expr::Bin(l, op, r) => match value(*l) {
            Err(x) => Err(x),
            Ok(a) => match value(*r) {
                Err(x) => Err(x),
                Ok(b) => op.apply(a, b),
            },
        },
        Expr::Group(inner) => value(*inner),
    }
}

/// The tree with each unary minus written as a group `(-1 * x)`.
pub open spec fn desugar(e: Expr) -> Expr
    decreases e,
{
    match e {
        Expr::Num(n) => Expr::Num(n),
        Expr::Neg(x) => Expr::Group(
            Box::new(
                Expr::Bin(Box::new(Expr::Num(-1i64)), OperationToken::Mul, Box::new(desugar(*x))),
            ),
        ),
        Expr::Bin(l, op, r) => Expr::Bin(Box::new(desugar(*l)), op, Box::new(desugar(*r))),
        Expr::Group(inner) => Expr::Group(Box::new(desugar(*inner))),
    }
}

/// The tree has no unary minus.
pub open spec fn plain(e: Expr) -> bool
    decreases e,
{
    match e {
        Expr::Num(_) => true,
        Expr::Neg(_) => false,
        Expr::Bin(l, _, r) => plain(*l) && plain(*r),
        Expr::Group(inner) => plain(*inner),
    }
}

/// The tree in postfix order.
pub open spec fn post(e: Expr) -> Seq<Token>
    decreases e,
{
    match e {
        Expr::Num(n) => seq![number_token(n)],
        Expr::Neg(x) => seq![number_token(-1i64)] + post(*x) + seq![
            Token::Operation(OperationToken::Mul),
        ],
        Expr::Bin(l, op, r) => post(*l) + post(*r) + seq![Token::Operation(op)],
        Expr::Group(inner) => post(*inner),
    }
}

/// The kind of the tree's last token.
pub open spec fn last_kind(e: Expr) -> TokenType
    decreases e,
{
    match e {
        Expr::Num(_) => TokenType::Number,
        Expr::Neg(x) => last_kind(*x),
        Expr::Bin(_, _, r) => last_kind(*r),
        Expr::Group(_) => TokenType::ClosedParenthesis,
    }
}

/// A sequence in reverse order.
pub open spec fn rev(y: Seq<Token>) -> Seq<Token>
    decreases y.len(),
{
    if y.len() == 0 {
        y
    } else {
        seq![y.last()] + rev(y.drop_last())
    }
}

/// Every token is an operator of priority at least `p`.
pub open spec fn ops_at_least(y: Seq<Token>, p: u8) -> bool {
    forall|k: int| 0 <= k < y.len() ==> (#[trigger] y[k] matches Token::Operation(o) && o.priority() >= p)
}

/// The top of the stack, if an operator, binds less tightly than `p`.
pub open spec fn top_below(stack: Seq<Token>, p: u8) -> bool {
    stack.len() == 0 || match stack.last() {
        Token::Operation(o) => o.priority() < p,
        _ => true,
    }
}

/// `s` holds `t` from index `i` on.
pub open spec fn holds_at(s: Seq<Token>, i: int, t: Seq<Token>) -> bool {
    0 <= i && i + t.len() <= s.len() && s.subrange(i, i + t.len()) == t
}

proof fn lemma_rev_prepend(x: Token, y: Seq<Token>)
    ensures
        rev(seq![x] + y) == rev(y) + seq![x],
    decreases y.len(),
{
    let xy = seq![x] + y;
    if y.len() == 0 {
        assert(xy.drop_last() =~= y);
        assert(rev(y) =~= y);
        assert(rev(xy.drop_last()) =~= Seq::<Token>::empty());
        assert(rev(xy) =~= rev(y) + seq![x]);
    } else {
        assert(xy.drop_last() =~= seq![x] + y.drop_last());
        lemma_rev_prepend(x, y.drop_last());
        assert(rev(xy) =~= rev(y) + seq![x]);
    }
}

proof fn lemma_pop_all(out: Seq<Token>, stack: Seq<Token>, y: Seq<Token>, q: u8)
    requires
        ops_at_least(y, q),
        top_below(stack, q),
    ensures
        pop_while_stronger(out, stack + y, q) == (out + rev(y), stack),
    decreases y.len(),
{
    if y.len() == 0 {
        assert(stack + y =~= stack);
        assert(out + rev(y) =~= out);
    } else {
        let sy = stack + y;
        assert(sy.last() == y[y.len() - 1]);
        assert(sy.drop_last() =~= stack + y.drop_last());
        lemma_pop_all(out.push(y.last()), stack, y.drop_last(), q);
        assert(out.push(y.last()) + rev(y.drop_last()) =~= out + rev(y));
    }
}

proof fn lemma_pop_group(out: Seq<Token>, stack: Seq<Token>, y: Seq<Token>)
    requires
        ops_at_least(y, 0),
    ensures
        pop_to_open(out, stack.push(open_token()) + y) == Some((out + rev(y), stack)),
    decreases y.len(),
{
    let sy = stack.push(open_token()) + y;
    if y.len() == 0 {
        assert(sy =~= stack.push(open_token()));
        assert(sy.drop_last() =~= stack);
        assert(out + rev(y) =~= out);
    } else {
        assert(sy.last() == y[y.len() - 1]);
        assert(sy.drop_last() =~= stack.push(open_token()) + y.drop_last());
        lemma_pop_group(out.push(y.last()), stack, y.drop_last());
        assert(out.push(y.last()) + rev(y.drop_last()) =~= out + rev(y));
    }
}

proof fn lemma_drain_ops(out: Seq<Token>, y: Seq<Token>)
    requires
        ops_at_least(y, 0),
    ensures
        drain(out, y) == Ok::<Seq<Token>, crate::token::ParenError>(out + rev(y)),
    decreases y.len(),
{
    if y.len() == 0 {
        assert(out + rev(y) =~= out);
    } else {
        assert(y.last() == y[y.len() - 1]);
        lemma_drain_ops(out.push(y.last()), y.drop_last());
        assert(out.push(y.last()) + rev(y.drop_last()) =~= out + rev(y));
    }
}

proof fn lemma_shunt_expr(e: Expr, s: Seq<Token>, i: int, out: Seq<Token>, stack: Seq<Token>) -> (xy:
    (Seq<Token>, Seq<Token>))
    requires
        parsed_shape(e),
        plain(e),
        holds_at(s, i, render(e)),
        top_below(stack, prio(e)),
    ensures
        xy.0 + rev(xy.1) == post(e),
        ops_at_least(xy.1, prio(e)),
        shunt_from(s, i, out, stack) == shunt_from(
            s,
            i + render(e).len(),
            out + xy.0,
            stack + xy.1,
        ),
    decreases e,
{
    let t = render(e);
    assert(s[i] == t[0]) by {
        assert(s.subrange(i, i + t.len())[0] == t[0]);
    }
    match e {
        Expr::Num(n) => {
            assert(out.push(number_token(n)) =~= out + seq![number_token(n)]);
            assert(stack + Seq::<Token>::empty() =~= stack);
            assert(seq![number_token(n)] + rev(Seq::<Token>::empty()) =~= post(e));
            (seq![number_token(n)], Seq::empty())
        },
        Expr::Neg(_) => (Seq::empty(), Seq::empty()),
        Expr::Group(inner) => {
            let ti = render(*inner);
            assert(holds_at(s, i + 1, ti)) by {
                assert(s.subrange(i + 1, i + 1 + ti.len()) =~= s.subrange(i, i + t.len()).subrange(
                    1,
                    1 + ti.len() as int,
                ));
                assert(t.subrange(1, 1 + ti.len() as int) =~= ti);
            }
            let j = i + 1 + ti.len();
            assert(s[j] == close_token()) by {
                assert(s.subrange(i, i + t.len())[1 + ti.len() as int] == t[1 + ti.len() as int]);
            }
            let xyi = lemma_shunt_expr(*inner, s, i + 1, out, stack.push(open_token()));
            lemma_pop_group(out + xyi.0, stack, xyi.1);
            assert(out + xyi.0 + rev(xyi.1) =~= out + post(e));
            assert(stack + Seq::<Token>::empty() =~= stack);
            assert(post(e) + rev(Seq::<Token>::empty()) =~= post(e));
            (post(e), Seq::empty())
        },
        Expr::Bin(l, op, r) => {
            let tl = render(*l);
            let tr = render(*r);
            let k = i + tl.len();
            assert(holds_at(s, i, tl)) by {
                assert(s.subrange(i, i + tl.len()) =~= s.subrange(i, i + t.len()).subrange(
                    0,
                    tl.len() as int,
                ));
                assert(t.subrange(0, tl.len() as int) =~= tl);
            }
            assert(holds_at(s, k + 1, tr)) by {
                assert(s.subrange(k + 1, k + 1 + tr.len()) =~= s.subrange(
                    i,
                    i + t.len(),
                ).subrange(tl.len() as int + 1, t.len() as int));
                assert(t.subrange(tl.len() as int + 1, t.len() as int) =~= tr);
            }
            assert(s[k] == Token::Operation(op)) by {
                assert(s.subrange(i, i + t.len())[tl.len() as int] == t[tl.len() as int]);
            }
            let xyl = lemma_shunt_expr(*l, s, i, out, stack);
            lemma_pop_all(out + xyl.0, stack, xyl.1, op.priority());
            assert(out + xyl.0 + rev(xyl.1) =~= out + post(*l));
            let xyr = lemma_shunt_expr(*r, s, k + 1, out + post(*l), stack.push(Token::Operation(op)));
            let x = post(*l) + xyr.0;
            let y = seq![Token::Operation(op)] + xyr.1;
            assert(out + post(*l) + xyr.0 =~= out + x);
            assert(stack.push(Token::Operation(op)) + xyr.1 =~= stack + y);
            lemma_rev_prepend(Token::Operation(op), xyr.1);
            assert(x + rev(y) =~= post(e));
            assert(ops_at_least(y, prio(e))) by {
                assert forall|m: int| 0 <= m < y.len() implies (#[trigger] y[m] matches Token::Operation(
                    o,
                ) && o.priority() >= prio(e)) by {
                    if m > 0 {
                        assert(y[m] == xyr.1[m - 1]);
                    }
                }
            }
            (x, y)
        },
    }
}

/// The normaliser turns a parsed tree's tokens into those of the tree
/// without unary minus. Started at depth `d`, it pays on the way the
/// pending unary minuses seen at `d` on top of the stack, which only a
/// factor may complete.
#[verifier::rlimit(60)]
proof fn lemma_norm_expr(
    e: Expr,
    s: Seq<Token>,
    i: int,
    prev: TokenType,
    d: usize,
    pending: Seq<usize>,
    out: Seq<Token>,
)
    requires
        parsed_shape(e),
        holds_at(s, i, render(e)),
        prev == TokenType::Operation || prev == TokenType::OpenedParenthesis,
        forall|m: int| 0 <= m < pending.len() ==> #[trigger] pending[m] <= d,
        d + render(e).len() <= usize::MAX,
        settle(pending, d).1 > 0 ==> prio(e) == 3,
    ensures
        last_kind(e) == TokenType::Number || last_kind(e) == TokenType::ClosedParenthesis,
        norm_from(s, i, prev, d, pending, out) == norm_from(
            s,
            i + render(e).len(),
            last_kind(e),
            d,
            settle(pending, d).0,
            out + render(desugar(e)) + closes(settle(pending, d).1),
        ),
    decreases e,
{
    let t = render(e);
    assert(s[i] == t[0]) by {
        assert(s.subrange(i, i + t.len())[0] == t[0]);
    }
    match e {
        Expr::Num(n) => {
            assert(out + seq![number_token(n)] + closes(settle(pending, d).1) =~= out + (seq![
                number_token(n),
            ] + closes(settle(pending, d).1)));
        },
        Expr::Neg(x) => {
            let tx = render(*x);
            assert(holds_at(s, i + 1, tx)) by {
                assert(s.subrange(i + 1, i + 1 + tx.len()) =~= s.subrange(i, i + t.len()).subrange(
                    1,
                    t.len() as int,
                ));
                assert(t.subrange(1, t.len() as int) =~= tx);
            }
            let p2 = pending.push(d);
            assert(p2.drop_last() =~= pending);
            assert(settle(p2, d) == (settle(pending, d).0, settle(pending, d).1 + 1));
            assert forall|m: int| 0 <= m < p2.len() implies #[trigger] p2[m] <= d by {
                if m < pending.len() {
                    assert(p2[m] == pending[m]);
                }
            }
            lemma_norm_expr(*x, s, i + 1, TokenType::Operation, d, p2, out + unary_minus_prefix());
            let k = settle(pending, d).1;
            let b = Expr::Bin(
                Box::new(Expr::Num(-1i64)),
                OperationToken::Mul,
                Box::new(desugar(*x)),
            );
            assert(render(Expr::Num(-1i64)) =~= seq![number_token(-1i64)]);
            assert(render(b) =~= seq![
                number_token(-1i64),
                Token::Operation(OperationToken::Mul),
            ] + render(desugar(*x)));
            assert(desugar(e) == Expr::Group(Box::new(b)));
            assert(render(desugar(e)) =~= seq![open_token()] + render(b) + seq![close_token()]);
            assert(closes(k + 1) =~= seq![close_token()] + closes(k));
            assert(out + unary_minus_prefix() + render(desugar(*x)) + closes(k + 1) =~= out
                + render(desugar(e)) + closes(k));
        },
        Expr::Group(inner) => {
            let ti = render(*inner);
            assert(holds_at(s, i + 1, ti)) by {
                assert(s.subrange(i + 1, i + 1 + ti.len()) =~= s.subrange(i, i + t.len()).subrange(
                    1,
                    1 + ti.len() as int,
                ));
                assert(t.subrange(1, 1 + ti.len() as int) =~= ti);
            }
            let j = i + 1 + ti.len();
            assert(s[j] == close_token()) by {
                assert(s.subrange(i, i + t.len())[1 + ti.len() as int] == t[1 + ti.len() as int]);
            }
            let d1 = (d + 1) as usize;
            assert(settle(pending, d1) == (pending, 0nat)) by {
                if pending.len() > 0 {
                    assert(pending[pending.len() - 1] <= d);
                }
            }
            assert(closes(0) =~= Seq::<Token>::empty());
            assert(out + seq![open_token()] + closes(0) =~= out + seq![open_token()]);
            lemma_norm_expr(
                *inner,
                s,
                i + 1,
                TokenType::OpenedParenthesis,
                d1,
                pending,
                out + seq![open_token()],
            );
            assert(out + seq![open_token()] + render(desugar(*inner)) + closes(0) =~= out + seq![
                open_token(),
            ] + render(desugar(*inner)));
            let k = settle(pending, d).1;
            assert(out + seq![open_token()] + render(desugar(*inner)) + (seq![close_token()]
                + closes(k)) =~= out + render(desugar(e)) + closes(k));
        },
        Expr::Bin(l, op, r) => {
            let tl = render(*l);
            let tr = render(*r);
            let k = i + tl.len();
            assert(holds_at(s, i, tl)) by {
                assert(s.subrange(i, i + tl.len()) =~= s.subrange(i, i + t.len()).subrange(
                    0,
                    tl.len() as int,
                ));
                assert(t.subrange(0, tl.len() as int) =~= tl);
            }
            assert(holds_at(s, k + 1, tr)) by {
                assert(s.subrange(k + 1, k + 1 + tr.len()) =~= s.subrange(
                    i,
                    i + t.len(),
                ).subrange(tl.len() as int + 1, t.len() as int));
                assert(t.subrange(tl.len() as int + 1, t.len() as int) =~= tr);
            }
            assert(s[k] == Token::Operation(op)) by {
                assert(s.subrange(i, i + t.len())[tl.len() as int] == t[tl.len() as int]);
            }
            assert(settle(pending, d) == (pending, 0nat));
            assert(closes(0) =~= Seq::<Token>::empty());
            lemma_norm_expr(*l, s, i, prev, d, pending, out);
            let dl = render(desugar(*l));
            assert(out + dl + closes(0) =~= out + dl);
            lemma_norm_expr(
                *r,
                s,
                k + 1,
                TokenType::Operation,
                d,
                pending,
                out + dl + seq![Token::Operation(op)],
            );
            assert(out + dl + seq![Token::Operation(op)] + render(desugar(*r)) + closes(0) =~= out
                + render(desugar(e)) + closes(0));
        },
    }
}

/// The calculator on a tree's postfix tokens pushes the tree's value, or
/// stops with its error.
proof fn lemma_calc_expr(e: Expr, s: Seq<Token>, i: int, stack: Seq<i64>)
    requires
        plain(e),
        holds_at(s, i, post(e)),
    ensures
        calc_from(s, i, stack) == (match value(e) {
            Ok(v) => calc_from(s, i + post(e).len(), stack.push(v)),
            Err(x) => Err(x),
        }),
    decreases e,
{
    let t = post(e);
    match e {
        Expr::Num(n) => {
            assert(s[i] == t[0]) by {
                assert(s.subrange(i, i + t.len())[0] == t[0]);
            }
        },
        Expr::Neg(_) => {},
        Expr::Group(inner) => {
            lemma_calc_expr(*inner, s, i, stack);
        },
        Expr::Bin(l, op, r) => {
            let pl = post(*l);
            let pr = post(*r);
            let k = i + pl.len();
            let j = k + pr.len();
            assert(holds_at(s, i, pl)) by {
                assert(s.subrange(i, i + pl.len()) =~= s.subrange(i, i + t.len()).subrange(
                    0,
                    pl.len() as int,
                ));
                assert(t.subrange(0, pl.len() as int) =~= pl);
            }
            assert(holds_at(s, k, pr)) by {
                assert(s.subrange(k, k + pr.len()) =~= s.subrange(i, i + t.len()).subrange(
                    pl.len() as int,
                    pl.len() as int + pr.len(),
                ));
                assert(t.subrange(pl.len() as int, pl.len() as int + pr.len()) =~= pr);
            }
            assert(s[j] == Token::Operation(op)) by {
                assert(s.subrange(i, i + t.len())[pl.len() as int + pr.len()] == t[pl.len() as int + pr.len()]);
            }
            lemma_calc_expr(*l, s, i, stack);
            match value(*l) {
                Ok(a) => {
                    lemma_calc_expr(*r, s, k, stack.push(a));
                    match value(*r) {
                        Ok(b) => {
                            let st = stack.push(a).push(b);
                            assert(st.drop_last().drop_last() =~= stack);
                            assert(st[st.len() - 2] == a);
                        },
                        Err(_) => {},
                    }
                },
                Err(_) => {},
            }
        },
    }
}

/// Writing each unary minus as a group keeps the shape, the binding
/// strength and the value, and leaves no unary minus.
proof fn lemma_desugar(e: Expr)
    requires
        parsed_shape(e),
    ensures
        parsed_shape(desugar(e)),
        plain(desugar(e)),
        prio(desugar(e)) == prio(e),
        value(desugar(e)) == value(e),
    decreases e,
{
    match e {
        Expr::Num(_) => {},
        Expr::Neg(x) => {
            lemma_desugar(*x);
            let b = Expr::Bin(
                Box::new(Expr::Num(-1i64)),
                OperationToken::Mul,
                Box::new(desugar(*x)),
            );
            assert(desugar(e) == Expr::Group(Box::new(b)));
            assert(parsed_shape(Expr::Num(-1i64)));
            assert(prio(Expr::Num(-1i64)) == 3);
            assert(parsed_shape(b));
            assert(plain(Expr::Num(-1i64)));
            assert(plain(b));
            assert(value(Expr::Num(-1i64)) == Ok::<i64, EvalError>(-1i64));
            assert(value(b) == value(e));
        },
        Expr::Bin(l, _, r) => {
            lemma_desugar(*l);
            lemma_desugar(*r);
        },
        Expr::Group(inner) => {
            lemma_desugar(*inner);
        },
    }
}

/// The evaluator agrees with precedence and left associativity: for every
/// tree that a recursive-descent parser builds (numbers, `+ - * /`, groups,
/// and unary minus on any factor), the stages after the lexer, run on the
/// tree's tokens, give the tree's value, or the error of its first failing
/// operation.
pub proof fn lemma_agrees_with_recursive_descent(e: Expr)
    requires
        parsed_shape(e),
        render(e).len() <= usize::MAX,
    ensures
        token_value(render(e)) == (match value(e) {
            Ok(v) => Ok(v),
            Err(x) => Err(EvaluationError::Eval(x)),
        }),
{
    let t = render(e);
    assert(holds_at(t, 0, t)) by {
        assert(t.subrange(0, t.len() as int) =~= t);
    }
    lemma_norm_expr(e, t, 0, TokenType::Operation, 0, Seq::empty(), Seq::empty());
    assert(closes(0) =~= Seq::<Token>::empty());
    let d = desugar(e);
    let td = render(d);
    lemma_desugar(e);
    assert(Seq::<Token>::empty() + td =~= td);
    assert(normalize(t) == Ok::<Seq<Token>, SyntaxError>(td));
    assert(holds_at(td, 0, td)) by {
        assert(td.subrange(0, td.len() as int) =~= td);
    }
    let xy = lemma_shunt_expr(d, td, 0, Seq::empty(), Seq::empty());
    assert(Seq::<Token>::empty() + xy.0 =~= xy.0);
    assert(Seq::<Token>::empty() + xy.1 =~= xy.1);
    lemma_drain_ops(xy.0, xy.1);
    assert(to_postfix(td) == Ok::<Seq<Token>, ParenError>(post(d)));
    let p = post(d);
    assert(holds_at(p, 0, p)) by {
        assert(p.subrange(0, p.len() as int) =~= p);
    }
    lemma_calc_expr(d, p, 0, Seq::empty());
    match value(e) {
        Ok(v) => {
            assert(Seq::<i64>::empty().push(v)[0] == v);
        },
        Err(_) => {},
    }
}

/// The same agreement from text: a text whose tokens, once whitespace is
/// removed, are those of a parsed tree evaluates to the tree's value, or to
/// the error of its first failing operation.
pub proof fn lemma_text_agrees_with_recursive_descent(s: Seq<char>, e: Expr)
    requires
        parsed_shape(e),
        lex(strip(s)) == Ok::<Seq<Token>, LexError>(render(e)),
        render(e).len() <= usize::MAX,
    ensures
        evaluation(s) == (match value(e) {
            Ok(v) => Ok(v),
            Err(x) => Err(EvaluationError::Eval(x)),
        }),
{
    lemma_agrees_with_recursive_descent(e);
}

} // verus!
