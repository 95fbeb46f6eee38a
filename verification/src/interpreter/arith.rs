use crate::bin_operator::BinOperator;
use crate::errors::exec_error::ExecError;
use crate::instruction::bin::rshift::shift_in_range;
use crate::variable::value::{lemma_values, values, Value, Variable};
use vstd::prelude::*;

verus! {

/// `a` multiplied by itself `n` times, `None` once a product leaves `i64`.
pub open spec fn pow_checked(a: i64, n: nat) -> Option<i64>
    decreases n,
{
    if n == 0 {
        Some(1)
    } else {
        match pow_checked(a, (n - 1) as nat) {
            Some(p) => p.checked_mul(a),
            None => None,
        }
    }
}

/// The arithmetic, comparison and bitwise operators that apply to two
/// integers, and that `int_op` runs.
pub open spec fn is_int_operator(op: BinOperator) -> bool {
    op == BinOperator::Subtract || op == BinOperator::Multiply || op == BinOperator::Divide
        || op == BinOperator::Modulo || op == BinOperator::Pow || op == BinOperator::BitwiseAnd
        || op == BinOperator::Xor || op == BinOperator::LShift || op == BinOperator::Lower || op == BinOperator::LowerOrEqual
        || op == BinOperator::Greater || op == BinOperator::GreaterOrEqual
}

/// The operators of [`is_int_operator`] that also apply to each element of
/// an array of integers, with an integer on the other side.
pub open spec fn is_elementwise(op: BinOperator) -> bool {
    op == BinOperator::Subtract || op == BinOperator::Multiply || op == BinOperator::Divide
        || op == BinOperator::Pow || op == BinOperator::BitwiseAnd || op == BinOperator::Xor
}

/// `a op b` on two integers: division and remainder by `0`, a negative
/// exponent and a shift outside `0..=63` are errors; `None` where the result
/// does not fit in an `i64`.
pub open spec fn int_op(op: BinOperator, a: i64, b: i64) -> Option<Result<Value, ExecError>> {
    match op {
        BinOperator::Subtract => match a.checked_sub(b) {
            Some(c) => Some(Ok(Value::Int(c))),
            None => None,
        },
        BinOperator::Multiply => match a.checked_mul(b) {
            Some(c) => Some(Ok(Value::Int(c))),
            None => None,
        },
        BinOperator::Divide => if b == 0 {
            Some(Err(ExecError::ZeroDivision))
        } else {
            match a.checked_div(b) {
                Some(c) => Some(Ok(Value::Int(c))),
                None => None,
            }
        },
        BinOperator::Modulo => if b == 0 {
            Some(Err(ExecError::ZeroModulo))
        } else {
            match a.checked_rem(b) {
                Some(c) => Some(Ok(Value::Int(c))),
                None => None,
            }
        },
        BinOperator::Pow => if b < 0 {
            Some(Err(ExecError::NegativeExponent))
        } else {
            match pow_checked(a, b as nat) {
                Some(c) => Some(Ok(Value::Int(c))),
                None => None,
            }
        },
        BinOperator::BitwiseAnd => Some(Ok(Value::Int(a & b))),
        BinOperator::Xor => Some(Ok(Value::Int(a ^ b))),
        BinOperator::LShift => if shift_in_range(b) {
            Some(Ok(Value::Int(a << (b as u64))))
        } else {
            Some(Err(ExecError::OverflowShift))
        },
        BinOperator::Lower => Some(Ok(Value::Bool(a < b))),
        BinOperator::LowerOrEqual => Some(Ok(Value::Bool(a <= b))),
        BinOperator::Greater => Some(Ok(Value::Bool(a > b))),
        BinOperator::GreaterOrEqual => Some(Ok(Value::Bool(a >= b))),
        _ => None,
    }
}

/// `x op k` (or `k op x` when `k_left`) for each element `x` of `xs`, from
/// the first: the results, or the first error.
pub open spec fn each_op(op: BinOperator, xs: Seq<Value>, k: i64, k_left: bool) -> Option<
    Result<Seq<Value>, ExecError>,
>
    decreases xs.len(),
{
    if xs.len() == 0 {
        Some(Ok(Seq::empty()))
    } else {
        match xs[0] {
            Value::Int(x) => match (if k_left {
                int_op(op, k, x)
            } else {
                int_op(op, x, k)
            }) {
                Some(Ok(v)) => match each_op(op, xs.subrange(1, xs.len() as int), k, k_left) {
                    Some(Ok(vs)) => Some(Ok(seq![v] + vs)),
                    other => other,
                },
                Some(Err(e)) => Some(Err(e)),
                None => None,
            },
            _ => None,
        }
    }
}

/// `lhs op rhs` for the operators of [`is_int_operator`]: two integers, or,
/// for those of [`is_elementwise`], an array of integers and an integer in
/// either order, applied to each element.
pub open spec fn arith_op(op: BinOperator, lhs: Value, rhs: Value) -> Option<
    Result<Value, ExecError>,
> {
    match (lhs, rhs) {
        (Value::Int(a), Value::Int(b)) => int_op(op, a, b),
        (Value::Array(xs), Value::Int(b)) => if is_elementwise(op) {
            match each_op(op, xs, b, false) {
                Some(Ok(vs)) => Some(Ok(Value::Array(vs))),
                Some(Err(e)) => Some(Err(e)),
                None => None,
            }
        } else {
            None
        },
        (Value::Int(a), Value::Array(ys)) => if is_elementwise(op) {
            match each_op(op, ys, a, true) {
                Some(Ok(vs)) => Some(Ok(Value::Array(vs))),
                Some(Err(e)) => Some(Err(e)),
                None => None,
            }
        } else {
            None
        },
        _ => None,
    }
}

proof fn lemma_pow_zero(n: nat)
    ensures
        pow_checked(0i64, n) == Some(if n == 0 { 1i64 } else { 0i64 }),
    decreases n,
{
    if n > 0 {
        lemma_pow_zero((n - 1) as nat);
    }
}

proof fn lemma_pow_one(n: nat)
    ensures
        pow_checked(1i64, n) == Some(1i64),
    decreases n,
{
    if n > 0 {
        lemma_pow_one((n - 1) as nat);
    }
}

proof fn lemma_pow_minus_one(n: nat)
    ensures
        pow_checked(-1i64, n) == Some(if n % 2 == 0 { 1i64 } else { -1i64 }),
    decreases n,
{
    if n > 0 {
        lemma_pow_minus_one((n - 1) as nat);
    }
}

/// `a ** b` for `b >= 0` (see `pow_checked`).
fn pow_exec(a: i64, b: i64) -> (r: Option<i64>)
    requires
        b >= 0,
    ensures
        r == pow_checked(a, b as nat),
{
    if a == 0 {
        proof {
            lemma_pow_zero(b as nat);
        }
        return Some(if b == 0 { 1 } else { 0 });
    }
    if a == 1 {
        proof {
            lemma_pow_one(b as nat);
        }
        return Some(1);
    }
    if a == -1 {
        proof {
            lemma_pow_minus_one(b as nat);
        }
        return Some(if b % 2 == 0 { 1 } else { -1 });
    }
    let mut acc: i64 = 1;
    let mut k: i64 = 0;
    while k < b
        invariant
            0 <= k <= b,
            pow_checked(a, k as nat) == Some(acc),
        decreases b - k,
    {
        match acc.checked_mul(a) {
            Some(c) => {
                acc = c;
            },
            None => {
                proof {
                    lemma_pow_stays_none(a, (k + 1) as nat, b as nat);
                }
                return None;
            },
        }
        k += 1;
    }
    Some(acc)
}

proof fn lemma_pow_stays_none(a: i64, n: nat, m: nat)
    requires
        n <= m,
        pow_checked(a, n) is None,
    ensures
        pow_checked(a, m) is None,
    decreases m - n,
{
    if n < m {
        lemma_pow_stays_none(a, n, (m - 1) as nat);
    }
}

/// `a op b` on two integers (see `int_op`).
pub fn int_operator(op: BinOperator, a: i64, b: i64) -> (r: Option<Result<Variable, ExecError>>)
    ensures
        match r {
            Some(Ok(v)) => int_op(op, a, b) == Some(Ok::<Value, ExecError>(v@)),
            Some(Err(e)) => int_op(op, a, b) == Some(Err::<Value, ExecError>(e)),
            None => int_op(op, a, b) is None,
        },
{
    match op {
        BinOperator::Subtract => match a.checked_sub(b) {
            Some(c) => Some(Ok(Variable::Int(c))),
            None => None,
        },
        BinOperator::Multiply => match a.checked_mul(b) {
            Some(c) => Some(Ok(Variable::Int(c))),
            None => None,
        },
        BinOperator::Divide => if b == 0 {
            Some(Err(ExecError::ZeroDivision))
        } else {
            match a.checked_div(b) {
                Some(c) => Some(Ok(Variable::Int(c))),
                None => None,
            }
        },
        BinOperator::Modulo => if b == 0 {
            Some(Err(ExecError::ZeroModulo))
        } else {
            match a.checked_rem(b) {
                Some(c) => Some(Ok(Variable::Int(c))),
                None => None,
            }
        },
        BinOperator::Pow => if b < 0 {
            Some(Err(ExecError::NegativeExponent))
        } else {
            match pow_exec(a, b) {
                Some(c) => Some(Ok(Variable::Int(c))),
                None => None,
            }
        },
        BinOperator::BitwiseAnd => Some(Ok(Variable::Int(a & b))),
        BinOperator::Xor => Some(Ok(Variable::Int(a ^ b))),
        BinOperator::LShift => if 0 <= b && b <= 63 {
            let s: u64 = b as u64;
            Some(Ok(Variable::Int(a << s)))
        } else {
            Some(Err(ExecError::OverflowShift))
        },
        BinOperator::Lower => Some(Ok(Variable::Bool(a < b))),
        BinOperator::LowerOrEqual => Some(Ok(Variable::Bool(a <= b))),
        BinOperator::Greater => Some(Ok(Variable::Bool(a > b))),
        BinOperator::GreaterOrEqual => Some(Ok(Variable::Bool(a >= b))),
        _ => None,
    }
}

/// The results `p` in front of those of the further elements.
pub open spec fn prepend_op(p: Seq<Value>, res: Option<Result<Seq<Value>, ExecError>>) -> Option<
    Result<Seq<Value>, ExecError>,
> {
    match res {
        Some(Ok(vs)) => Some(Ok(p + vs)),
        other => other,
    }
}

/// [`int_operator`] for each element of `xs` (see `each_op`).
fn each_operator(op: BinOperator, xs: &Vec<Variable>, k: i64, k_left: bool) -> (r: Option<
    Result<Vec<Variable>, ExecError>,
>)
    ensures
        match r {
            Some(Ok(vs)) => each_op(op, values(xs@), k, k_left) == Some(
                Ok::<Seq<Value>, ExecError>(values(vs@)),
            ),
            Some(Err(e)) => each_op(op, values(xs@), k, k_left) == Some(
                Err::<Seq<Value>, ExecError>(e),
            ),
            None => each_op(op, values(xs@), k, k_left) is None,
        },
{
    let ghost x = values(xs@);
    proof {
        lemma_values(xs@);
        assert(x.subrange(0, x.len() as int) =~= x);
    }
    let mut out: Vec<Variable> = Vec::new();
    proof {
        lemma_values(out@);
        let res = each_op(op, x, k, k_left);
        assert(prepend_op(Seq::<Value>::empty(), res) == res) by {
            if let Some(Ok(vs)) = res {
                assert(Seq::<Value>::empty() + vs =~= vs);
            }
        }
    }
    let mut i: usize = 0;
    while i < xs.len()
        invariant
            0 <= i <= xs.len(),
            x == values(xs@),
            x.len() == xs.len(),
            forall|j: int| 0 <= j < xs.len() ==> #[trigger] x[j] == xs@[j]@,
            each_op(op, x, k, k_left) == prepend_op(
                values(out@),
                each_op(op, x.subrange(i as int, x.len() as int), k, k_left),
            ),
        decreases xs.len() - i,
    {
        let ghost w = x.subrange(i as int, x.len() as int);
        proof {
            assert(w[0] == xs@[i as int]@);
            assert(w.subrange(1, w.len() as int) =~= x.subrange(i + 1, x.len() as int));
        }
        let e = match &xs[i] {
            Variable::Int(e) => *e,
            _ => return None,
        };
        let res = if k_left {
            int_operator(op, k, e)
        } else {
            int_operator(op, e, k)
        };
        match res {
            Some(Ok(v)) => {
                let ghost before = out@;
                out.push(v);
                proof {
                    lemma_values(before);
                    lemma_values(out@);
                    assert(values(out@) =~= values(before).push(v@));
                    let rest = each_op(op, x.subrange(i + 1, x.len() as int), k, k_left);
                    if let Some(Ok(vs)) = rest {
                        assert(values(before) + (seq![v@] + vs) =~= values(before).push(v@) + vs);
                    }
                }
            },
            Some(Err(err)) => return Some(Err(err)),
            None => return None,
        }
        i += 1;
    }
    proof {
        assert(x.subrange(xs.len() as int, x.len() as int) =~= Seq::<Value>::empty());
        assert(values(out@) + Seq::<Value>::empty() =~= values(out@));
    }
    Some(Ok(out))
}

/// `lhs op rhs` for the operators of [`is_int_operator`] (see `arith_op`).
pub fn arith_operator(op: BinOperator, lhs: &Variable, rhs: &Variable) -> (r: Option<
    Result<Variable, ExecError>,
>)
    ensures
        match r {
            Some(Ok(v)) => arith_op(op, lhs@, rhs@) == Some(Ok::<Value, ExecError>(v@)),
            Some(Err(e)) => arith_op(op, lhs@, rhs@) == Some(Err::<Value, ExecError>(e)),
            None => arith_op(op, lhs@, rhs@) is None,
        },
{
    match (lhs, rhs) {
        (Variable::Int(a), Variable::Int(b)) => int_operator(op, *a, *b),
        (Variable::Array(xs), Variable::Int(b)) => {
            let elementwise = match op {
                BinOperator::Subtract | BinOperator::Multiply | BinOperator::Divide
                | BinOperator::Pow | BinOperator::BitwiseAnd | BinOperator::Xor => true,
                _ => false,
            };
            if !elementwise {
                return None;
            }
            match each_operator(op, xs, *b, false) {
                Some(Ok(vs)) => Some(Ok(Variable::Array(vs))),
                Some(Err(e)) => Some(Err(e)),
                None => None,
            }
        },
        (Variable::Int(a), Variable::Array(ys)) => {
            let elementwise = match op {
                BinOperator::Subtract | BinOperator::Multiply | BinOperator::Divide
                | BinOperator::Pow | BinOperator::BitwiseAnd | BinOperator::Xor => true,
                _ => false,
            };
            if !elementwise {
                return None;
            }
            match each_operator(op, ys, *a, true) {
                Some(Ok(vs)) => Some(Ok(Variable::Array(vs))),
                Some(Err(e)) => Some(Err(e)),
                None => None,
            }
        },
        _ => None,
    }
}

/// The comparisons order the integers as usual: `<` holds exactly when the
/// left one is smaller, `>` is `<` with the operands swapped, `<=` and `>=`
/// are the negations of `>` and `<`, so that nothing is lower or greater than
/// itself and everything is lower-or-equal and greater-or-equal to itself.
pub proof fn lemma_comparisons(a: i64, b: i64)
    ensures
        int_op(BinOperator::Lower, a, b) == Some(Ok::<Value, ExecError>(Value::Bool(a < b))),
        int_op(BinOperator::Greater, a, b) == int_op(BinOperator::Lower, b, a),
        int_op(BinOperator::LowerOrEqual, a, b) == Some(
            Ok::<Value, ExecError>(Value::Bool(!(b < a))),
        ),
        int_op(BinOperator::GreaterOrEqual, a, b) == Some(
            Ok::<Value, ExecError>(Value::Bool(!(a < b))),
        ),
        int_op(BinOperator::Greater, a, a) == Some(Ok::<Value, ExecError>(Value::Bool(false))),
        int_op(BinOperator::Lower, a, a) == Some(Ok::<Value, ExecError>(Value::Bool(false))),
        int_op(BinOperator::GreaterOrEqual, a, a) == Some(
            Ok::<Value, ExecError>(Value::Bool(true)),
        ),
        int_op(BinOperator::LowerOrEqual, a, a) == Some(Ok::<Value, ExecError>(Value::Bool(true))),
{
}

/// `a - b` is the number that gives `a` when `b` is added to it, and `a * b`
/// the product; each is there exactly when it fits in an `i64`.
pub proof fn lemma_subtract_multiply(a: i64, b: i64)
    ensures
        int_op(BinOperator::Subtract, a, b) is Some <==> i64::MIN <= a - b <= i64::MAX,
        int_op(BinOperator::Subtract, a, b) matches Some(Ok(Value::Int(c))) ==> c + b == a,
        int_op(BinOperator::Multiply, a, b) is Some <==> i64::MIN <= a * b <= i64::MAX,
        int_op(BinOperator::Multiply, a, b) matches Some(Ok(Value::Int(c))) ==> c == a * b,
        int_op(BinOperator::Subtract, a, b) matches Some(r) ==> r is Ok,
        int_op(BinOperator::Multiply, a, b) matches Some(r) ==> r is Ok,
{
}

/// Division and remainder: by `0` they are errors; otherwise the quotient
/// `q` and the remainder `r` give back `a == b * q + r`, the remainder is
/// smaller than the divisor and takes the sign of `a` (the quotient rounds
/// toward zero).
pub proof fn lemma_divide_modulo(a: i64, b: i64)
    ensures
        b == 0 ==> int_op(BinOperator::Divide, a, b) == Some(
            Err::<Value, ExecError>(ExecError::ZeroDivision),
        ),
        b == 0 ==> int_op(BinOperator::Modulo, a, b) == Some(
            Err::<Value, ExecError>(ExecError::ZeroModulo),
        ),
        b != 0 && !(a == i64::MIN && b == -1) ==> (int_op(BinOperator::Divide, a, b) matches Some(
            Ok(Value::Int(q)),
        ) && int_op(BinOperator::Modulo, a, b) matches Some(Ok(Value::Int(r))) && a == b * q + r
            && (if b > 0 {
            -b < r < b
        } else {
            b < r < -b
        }) && (r == 0 || (r > 0) == (a > 0))),
{
    if b != 0 && !(a == i64::MIN && b == -1) {
        let x = a as int;
        let d = b as int;
        if x > 0 && d > 0 {
            lemma_div_parts(x, d);
            let q = x / d;
            let r = x % d;
            assert(a.checked_div(b) == Some(q as i64));
            assert(a.checked_rem(b) == Some(r as i64));
            assert(a == b * (q as i64) + (r as i64));
            assert(if b > 0 { -b < (r as i64) < b } else { b < (r as i64) < -b });
            assert((r as i64) == 0 || ((r as i64) > 0) == (a > 0));
        } else if x < 0 && d < 0 {
            lemma_div_parts(-x, -d);
            let q = (x * -1) / (d * -1);
            let r = ((x * -1) % (d * -1)) * -1;
            assert(x * -1 == -x && d * -1 == -d);
            let nq = (-x) / (-d);
            assert(d * nq == -((-d) * nq)) by (nonlinear_arith);
            assert(a.checked_div(b) == Some(q as i64));
            assert(a.checked_rem(b) == Some(r as i64));
            assert(a == b * (q as i64) + (r as i64));
            assert(if b > 0 { -b < (r as i64) < b } else { b < (r as i64) < -b });
            assert((r as i64) == 0 || ((r as i64) > 0) == (a > 0));
        } else if x < 0 {
            lemma_div_parts(-x, d);
            let q = ((x * -1) / d) * -1;
            let r = ((x * -1) % d) * -1;
            assert(x * -1 == -x);
            let nq = (-x) / d;
            assert(d * (nq * -1) == -(d * nq)) by (nonlinear_arith);
            assert(a.checked_div(b) == Some(q as i64));
            assert(a.checked_rem(b) == Some(r as i64));
            assert(a == b * (q as i64) + (r as i64));
            assert(if b > 0 { -b < (r as i64) < b } else { b < (r as i64) < -b });
            assert((r as i64) == 0 || ((r as i64) > 0) == (a > 0));
        } else if x > 0 {
            lemma_div_parts(x, -d);
            let q = (x / (d * -1)) * -1;
            let r = x % (d * -1);
            assert(d * -1 == -d);
            let nq = x / (-d);
            assert(d * (nq * -1) == (-d) * nq) by (nonlinear_arith);
            assert(a.checked_div(b) == Some(q as i64));
            assert(a.checked_rem(b) == Some(r as i64));
            assert(a == b * (q as i64) + (r as i64));
            assert(if b > 0 { -b < (r as i64) < b } else { b < (r as i64) < -b });
            assert((r as i64) == 0 || ((r as i64) > 0) == (a > 0));
        } else {
            assert(a.checked_div(b) == Some(0i64));
            assert(a.checked_rem(b) == Some(0i64));
            assert(a == b * 0i64 + 0i64);
        }
        let q = a.checked_div(b).unwrap();
        let r = a.checked_rem(b).unwrap();
        assert(int_op(BinOperator::Divide, a, b) == Some(Ok::<Value, ExecError>(Value::Int(q))));
        assert(int_op(BinOperator::Modulo, a, b) == Some(Ok::<Value, ExecError>(Value::Int(r))));
        assert(a == b * q + r);
    }
}

/// Division of a positive number by a positive one.
proof fn lemma_div_parts(x: int, d: int)
    requires
        x > 0,
        d > 0,
    ensures
        x == d * (x / d) + x % d,
        0 <= x % d < d,
        0 <= x / d <= x,
        d > 1 ==> x / d < x,
{
    assert(x == d * (x / d) + x % d) by (nonlinear_arith)
        requires
            d > 0,
    ;
    assert(0 <= x % d < d) by (nonlinear_arith)
        requires
            d > 0,
    ;
    assert(0 <= x / d <= x) by (nonlinear_arith)
        requires
            d > 0,
            x > 0,
    ;
    if d > 1 {
        assert(x / d < x) by (nonlinear_arith)
            requires
                d > 1,
                x > 0,
        ;
    }
}

/// Powers: a negative exponent is an error, `a ** 0` is `1`, and each step
/// of the exponent multiplies by `a`.
pub proof fn lemma_pow(a: i64, n: i64)
    ensures
        n < 0 ==> int_op(BinOperator::Pow, a, n) == Some(
            Err::<Value, ExecError>(ExecError::NegativeExponent),
        ),
        int_op(BinOperator::Pow, a, 0) == Some(Ok::<Value, ExecError>(Value::Int(1))),
        0 <= n < i64::MAX ==> (int_op(BinOperator::Pow, a, n) matches Some(Ok(Value::Int(p)))
            ==> (int_op(BinOperator::Pow, a, (n + 1) as i64) is Some <==> i64::MIN <= p * a
            <= i64::MAX) && (int_op(BinOperator::Pow, a, (n + 1) as i64) matches Some(
            Ok(Value::Int(q)),
        ) ==> q == p * a)),
{
    if 0 <= n < i64::MAX {
        assert(((n + 1) as i64) as nat - 1 == n as nat);
    }
}

/// `&` and `^` are commutative; `a & a` is `a`, `a ^ a` is `0`, and `0` is
/// absorbing for `&` and neutral for `^`.
pub proof fn lemma_bitwise(a: i64, b: i64)
    ensures
        int_op(BinOperator::BitwiseAnd, a, b) == int_op(BinOperator::BitwiseAnd, b, a),
        int_op(BinOperator::Xor, a, b) == int_op(BinOperator::Xor, b, a),
        int_op(BinOperator::BitwiseAnd, a, a) == Some(Ok::<Value, ExecError>(Value::Int(a))),
        int_op(BinOperator::BitwiseAnd, a, 0) == Some(Ok::<Value, ExecError>(Value::Int(0))),
        int_op(BinOperator::Xor, a, a) == Some(Ok::<Value, ExecError>(Value::Int(0))),
        int_op(BinOperator::Xor, a, 0) == Some(Ok::<Value, ExecError>(Value::Int(a))),
{
    assert(a & b == b & a) by (bit_vector);
    assert(a ^ b == b ^ a) by (bit_vector);
    assert(a & a == a) by (bit_vector);
    assert(a & 0 == 0) by (bit_vector);
    assert(a ^ a == 0) by (bit_vector);
    assert(a ^ 0 == a) by (bit_vector);
}

/// A shift outside `0..=63` is an error; shifting by `0` keeps the number,
/// and shifting by one doubles a number that stays in range.
pub proof fn lemma_left_shift(a: i64, b: i64)
    ensures
        !(0 <= b <= 63) ==> int_op(BinOperator::LShift, a, b) == Some(
            Err::<Value, ExecError>(ExecError::OverflowShift),
        ),
        int_op(BinOperator::LShift, a, 0) == Some(Ok::<Value, ExecError>(Value::Int(a))),
        -0x4000_0000_0000_0000 <= a < 0x4000_0000_0000_0000 ==> int_op(BinOperator::LShift, a, 1)
            == Some(Ok::<Value, ExecError>(Value::Int((2 * a) as i64))),
{
    assert(a << 0u64 == a) by (bit_vector);
    if -0x4000_0000_0000_0000 <= a < 0x4000_0000_0000_0000 {
        assert(a << 1u64 == 2 * a) by (bit_vector)
            requires
                -0x4000_0000_0000_0000 <= a < 0x4000_0000_0000_0000,
        ;
    }
}

/// On an array and an integer, an elementwise operator gives an array of the
/// same length whose element at each position is the operator applied to the
/// element there and the integer (in the order the operands were written);
/// the first element on which it fails decides the failure.
pub proof fn lemma_elementwise(op: BinOperator, xs: Seq<Value>, k: i64, k_left: bool)
    ensures
        each_op(op, xs, k, k_left) matches Some(Ok(vs)) ==> vs.len() == xs.len() && forall|i: int|
            0 <= i < xs.len() ==> (#[trigger] xs[i] is Int && (if k_left {
                int_op(op, k, xs[i]->Int_0)
            } else {
                int_op(op, xs[i]->Int_0, k)
            }) == Some(Ok::<Value, ExecError>(vs[i]))),
    decreases xs.len(),
{
    if xs.len() > 0 {
        let rest = xs.subrange(1, xs.len() as int);
        lemma_elementwise(op, rest, k, k_left);
        if let Some(Ok(vs)) = each_op(op, xs, k, k_left) {
            assert forall|i: int| 0 <= i < xs.len() implies (#[trigger] xs[i] is Int && (if k_left {
                int_op(op, k, xs[i]->Int_0)
            } else {
                int_op(op, xs[i]->Int_0, k)
            }) == Some(Ok::<Value, ExecError>(vs[i]))) by {
                if i > 0 {
                    assert(xs[i] == rest[i - 1]);
                }
            }
        }
    }
}

} // verus!
