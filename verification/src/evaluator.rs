//! Expression evaluation. Every term of an expression is rendered into one
//! accumulating buffer, left to right; if any term produced a text value the
//! result is the buffer as text, otherwise the buffer is re-parsed as a
//! base-10 integer, defaulting to zero when that parse fails.
use vstd::prelude::*;

use crate::ling_number::{decode_in_bounds, in_i64, numeral_value};
use crate::parser::parse_value;
use crate::{Environment, EvalError, EvalErrorModel, Value, ValueModel};

verus! {

/// One term of an expression: a literal, a variable reference, or a
/// nested expression.
pub enum Term {
    /// A string literal as it stands in the source, delimiters included.
    StringLiteral(String),
    /// A number literal as it stands in the source: a base-10 literal or
    /// a numeral string.
    NumberLiteral(String),
    /// A reference to a variable by name.
    VariableName(String),
    /// A parenthesised expression standing as a term.
    Nested(Expr),
}

/// An expression: a non-empty sequence of terms.
pub struct Expr {
    pub terms: Vec<Term>,
}

// ---------------------------------------------------------------------
// Decimal rendering
// ---------------------------------------------------------------------
/// The character for decimal digit `d`.
pub open spec fn digit_char(d: int) -> char {
    if d == 0 {
        '0'
    } else if d == 1 {
        '1'
    } else if d == 2 {
        '2'
    } else if d == 3 {
        '3'
    } else if d == 4 {
        '4'
    } else if d == 5 {
        '5'
    } else if d == 6 {
        '6'
    } else if d == 7 {
        '7'
    } else if d == 8 {
        '8'
    } else {
        '9'
    }
}

/// Decimal rendering of a non-negative integer, most significant digit
/// first.
pub open spec fn dec_digits(n: int) -> Seq<char>
    decreases n,
{
    if n < 10 {
        seq![digit_char(n)]
    } else {
        dec_digits(n / 10).push(digit_char(n % 10))
    }
}

/// Decimal rendering of a signed integer.
pub open spec fn int_rendering(n: int) -> Seq<char> {
    if n < 0 {
        seq!['-'] + dec_digits(-n)
    } else {
        dec_digits(n)
    }
}

/// The characters a value contributes to the buffer: its text, or its
/// decimal rendering.
pub open spec fn value_rendering(v: ValueModel) -> Seq<char> {
    match v {
        ValueModel::Integer(n) => int_rendering(n),
        ValueModel::Text(s) => s,
    }
}

fn digit_str(d: u64) -> (r: &'static str)
    requires
        d < 10,
    ensures
        r@ == seq![digit_char(d as int)],
{
    proof {
        reveal_strlit("0");
        reveal_strlit("1");
        reveal_strlit("2");
        reveal_strlit("3");
        reveal_strlit("4");
        reveal_strlit("5");
        reveal_strlit("6");
        reveal_strlit("7");
        reveal_strlit("8");
        reveal_strlit("9");
    }
    if d == 0 {
        "0"
    } else if d == 1 {
        "1"
    } else if d == 2 {
        "2"
    } else if d == 3 {
        "3"
    } else if d == 4 {
        "4"
    } else if d == 5 {
        "5"
    } else if d == 6 {
        "6"
    } else if d == 7 {
        "7"
    } else if d == 8 {
        "8"
    } else {
        "9"
    }
}

fn push_dec_digits(n: u64, out: &mut String)
    ensures
        final(out)@ == old(out)@ + dec_digits(n as int),
    decreases n,
{
    if n >= 10 {
        push_dec_digits(n / 10, out);
    }
    out.append(digit_str(n % 10));
    proof {
        if n >= 10 {
            assert(dec_digits(n as int) == dec_digits(n as int / 10).push(
                digit_char(n as int % 10),
            ));
        }
        assert(old(out)@ + dec_digits(n as int) =~= out@);
    }
}

/// Renders `n` in decimal, a minus sign first when it is negative.
pub fn render_int(n: i64) -> (r: String)
    ensures
        r@ == int_rendering(n as int),
{
    let mut out = String::new();
    if n < 0 {
        proof {
            reveal_strlit("-");
        }
        out.append("-");
        let m: u64 = (-(n as i128)) as u64;
        push_dec_digits(m, &mut out);
        proof {
            assert(m as int == -(n as int));
            assert(out@ =~= int_rendering(n as int));
        }
    } else {
        push_dec_digits(n as u64, &mut out);
        proof {
            assert(out@ =~= int_rendering(n as int));
        }
    }
    out
}

// ---------------------------------------------------------------------
// Base-10 parsing
// ---------------------------------------------------------------------
/// Face value of a decimal digit character, if `c` is one.
pub open spec fn dec_digit_val(c: char) -> Option<int> {
    if c == '0' {
        Some(0int)
    } else if c == '1' {
        Some(1int)
    } else if c == '2' {
        Some(2int)
    } else if c == '3' {
        Some(3int)
    } else if c == '4' {
        Some(4int)
    } else if c == '5' {
        Some(5int)
    } else if c == '6' {
        Some(6int)
    } else if c == '7' {
        Some(7int)
    } else if c == '8' {
        Some(8int)
    } else if c == '9' {
        Some(9int)
    } else {
        None
    }
}

pub open spec fn all_dec_digits(s: Seq<char>) -> bool {
    forall|i: int| 0 <= i < s.len() ==> dec_digit_val(s[i]) is Some
}

/// Value of a sequence of decimal digits.
pub open spec fn digits_value(s: Seq<char>) -> int
    decreases s.len(),
{
    if s.len() == 0 {
        0int
    } else {
        digits_value(s.drop_last()) * 10 + dec_digit_val(s.last())->Some_0
    }
}

/// What base-10 parsing of `s` into a 64-bit integer yields: an optional
/// sign, then at least one digit and nothing else, with the value inside
/// the `i64` range.
pub open spec fn parse_digits_signed(body: Seq<char>, sign: int) -> Option<int> {
    if body.len() == 0 || !all_dec_digits(body) {
        None
    } else {
        let v = sign * digits_value(body);
        if in_i64(v) {
            Some(v)
        } else {
            None
        }
    }
}

pub open spec fn parse_i64_spec(s: Seq<char>) -> Option<int> {
    if s.len() == 0 {
        None
    } else if s[0] == '-' {
        parse_digits_signed(s.subrange(1, s.len() as int), -1)
    } else if s[0] == '+' {
        parse_digits_signed(s.subrange(1, s.len() as int), 1)
    } else {
        parse_digits_signed(s, 1)
    }
}

/// The buffer re-parse of the concatenation rule: the parsed value, or
/// zero when the buffer is no 64-bit integer.
pub open spec fn parse_or_zero(s: Seq<char>) -> int {
    match parse_i64_spec(s) {
        Some(v) => v,
        None => 0int,
    }
}

proof fn lemma_digits_value_mono(body: Seq<char>, k: int)
    requires
        all_dec_digits(body),
        0 <= k <= body.len(),
    ensures
        0 <= digits_value(body.subrange(0, k)) <= digits_value(body),
    decreases body.len(),
{
    if body.len() == 0 {
        assert(body.subrange(0, k) =~= body);
    } else {
        assert(body.drop_last() =~= body.subrange(0, body.len() - 1));
        lemma_digits_value_mono(body.drop_last(), if k < body.len() { k } else { k - 1 });
        if k == body.len() {
            assert(body.subrange(0, k) =~= body);
        } else {
            assert(body.drop_last().subrange(0, k) =~= body.subrange(0, k));
        }
    }
}

fn dec_digit_of(c: char) -> (r: Option<i64>)
    ensures
        match r {
            Some(v) => dec_digit_val(c) == Some(v as int),
            None => dec_digit_val(c) is None,
        },
{
    if c == '0' {
        Some(0)
    } else if c == '1' {
        Some(1)
    } else if c == '2' {
        Some(2)
    } else if c == '3' {
        Some(3)
    } else if c == '4' {
        Some(4)
    } else if c == '5' {
        Some(5)
    } else if c == '6' {
        Some(6)
    } else if c == '7' {
        Some(7)
    } else if c == '8' {
        Some(8)
    } else if c == '9' {
        Some(9)
    } else {
        None
    }
}

/// Parses `s` as a base-10 64-bit integer, as the buffer re-parse of the
/// concatenation rule demands.
pub(crate) fn parse_i64(s: &str) -> (r: Option<i64>)
    ensures
        match r {
            Some(v) => parse_i64_spec(s@) == Some(v as int),
            None => parse_i64_spec(s@) is None,
        },
{
    let n: usize = s.unicode_len();
    if n == 0 {
        return None;
    }
    let c0 = s.get_char(0);
    let neg: bool = c0 == '-';
    let start: usize = if c0 == '-' || c0 == '+' {
        1
    } else {
        0
    };
    let ghost body: Seq<char> = s@.subrange(start as int, n as int);
    let ghost sign: int = if neg {
        -1int
    } else {
        1int
    };
    proof {
        if start == 0 {
            assert(body =~= s@);
        }
    }
    if start == n {
        return None;
    }
    let mut acc: i64 = 0;
    let mut i: usize = start;
    while i < n
        invariant
            start <= i <= n,
            n == s@.len(),
            0 < n,
            start == 0 || start == 1,
            start < n,
            body == s@.subrange(start as int, n as int),
            sign == if neg { -1int } else { 1int },
            neg == (s@[0] == '-'),
            start == 1 ==> (s@[0] == '-' || s@[0] == '+'),
            start == 0 ==> (s@[0] != '-' && s@[0] != '+'),
            all_dec_digits(body.subrange(0, i - start)),
            acc as int == if neg {
                -digits_value(body.subrange(0, i - start))
            } else {
                digits_value(body.subrange(0, i - start))
            },
        decreases n - i,
    {
        let c = s.get_char(i);
        let ghost k: int = i - start;
        proof {
            assert(body[k] == s@[i as int]);
            assert(body.subrange(0, k + 1).drop_last() =~= body.subrange(0, k));
            assert(body.subrange(0, k + 1).last() == body[k]);
        }
        match dec_digit_of(c) {
            None => {
                proof {
                    assert(dec_digit_val(body[k]) is None);
                    assert(!all_dec_digits(body));
                }
                return None;
            },
            Some(d) => {
                let ghost prefix = body.subrange(0, k);
                let ghost next = body.subrange(0, k + 1);
                proof {
                    assert(digits_value(next) == digits_value(prefix) * 10 + d);
                    assert(all_dec_digits(next)) by {
                        assert(forall|j: int|
                            0 <= j < next.len() ==> next[j] == #[trigger] body[j]);
                    }
                    lemma_digits_value_mono(prefix, k);
                    assert(prefix.subrange(0, k) =~= prefix);
                    assert(digits_value(prefix) >= 0);
                }
                if neg {
                    let step = match acc.checked_mul(10) {
                        Some(x) => x.checked_sub(d),
                        None => None,
                    };
                    match step {
                        Some(x) => {
                            acc = x;
                        },
                        None => {
                            proof {
                                assert(acc as int * 10 - d < i64::MIN);
                                assert((-1int) * digits_value(next) == acc as int * 10 - d);
                                overflow_means_none(body, k, -1int);
                            }
                            return None;
                        },
                    }
                } else {
                    let step = match acc.checked_mul(10) {
                        Some(x) => x.checked_add(d),
                        None => None,
                    };
                    match step {
                        Some(x) => {
                            acc = x;
                        },
                        None => {
                            proof {
                                assert(acc as int * 10 + d > i64::MAX);
                                assert(1int * digits_value(next) == acc as int * 10 + d);
                                overflow_means_none(body, k, 1int);
                                assert(start == 0 ==> body =~= s@);
                            }
                            return None;
                        },
                    }
                }
            },
        }
        i = i + 1;
    }
    proof {
        assert(body.subrange(0, n - start) =~= body);
    }
    Some(acc)
}

/// If the running value through digit `k` already leaves the `i64`
/// range, the parse of the whole body yields nothing.
proof fn overflow_means_none(body: Seq<char>, k: int, sign: int)
    requires
        0 <= k < body.len(),
        sign == 1 || sign == -1,
        all_dec_digits(body.subrange(0, k + 1)),
        !in_i64(sign * digits_value(body.subrange(0, k + 1))),
    ensures
        parse_digits_signed(body, sign) is None,
{
    if all_dec_digits(body) {
        lemma_digits_value_mono(body, k + 1);
        let v = digits_value(body.subrange(0, k + 1));
        let w = digits_value(body);
        assert(0 <= v <= w);
        if sign == 1 {
            assert(v > i64::MAX);
            assert(w > i64::MAX);
            assert(!in_i64(1 * w));
        } else {
            assert((-1) * v < i64::MIN);
            assert((-1) * w <= (-1) * v);
            assert(!in_i64((-1) * w));
        }
    }
}

// ---------------------------------------------------------------------
// Evaluation
// ---------------------------------------------------------------------
/// The content a string literal contributes: what stands between its
/// two delimiter characters. A literal shorter than two characters has
/// no content.
pub open spec fn string_content(s: Seq<char>) -> Seq<char> {
    if s.len() >= 2 {
        s.subrange(1, s.len() - 1)
    } else {
        Seq::empty()
    }
}

/// Whether a character lies outside the ASCII range, which routes a
/// number literal through the numeral decoder.
pub open spec fn is_wide(c: char) -> bool {
    c as u32 > 127
}

/// What evaluating one term against `env` yields.
pub open spec fn term_eval(t: Term, env: Map<Seq<char>, ValueModel>) -> Result<
    ValueModel,
    EvalErrorModel,
>
    decreases t,
{
    match t {
        Term::StringLiteral(s) => Ok(ValueModel::Text(string_content(s@))),
        Term::NumberLiteral(s) => if s@.len() == 0 {
            Err(EvalErrorModel::InvalidNumeral(s@))
        } else if is_wide(s@[0]) {
            if decode_in_bounds(s@) {
                Ok(ValueModel::Integer(numeral_value(s@)))
            } else {
                Err(EvalErrorModel::InvalidNumeral(s@))
            }
        } else {
            match parse_i64_spec(s@) {
                Some(v) => Ok(ValueModel::Integer(v)),
                None => Err(EvalErrorModel::InvalidNumeral(s@)),
            }
        },
        Term::VariableName(s) => if env.contains_key(s@) {
            Ok(env[s@])
        } else {
            Err(EvalErrorModel::UndefinedVariable(s@))
        },
        Term::Nested(e) => expr_eval(e, env),
    }
}

/// The buffer and the any-text flag after evaluating `terms` left to
/// right, or the first error met.
pub open spec fn expr_scan(terms: Seq<Term>, env: Map<Seq<char>, ValueModel>) -> Result<
    (Seq<char>, bool),
    EvalErrorModel,
>
    decreases terms,
{
    if terms.len() == 0 {
        Ok((Seq::empty(), false))
    } else {
        match expr_scan(terms.drop_last(), env) {
            Err(e) => Err(e),
            Ok((buf, any_text)) => match term_eval(terms.last(), env) {
                Err(e) => Err(e),
                Ok(v) => Ok((buf + value_rendering(v), any_text || v is Text)),
            },
        }
    }
}

/// What evaluating an expression against `env` yields: the buffer as
/// text if any term was text, else the buffer re-parsed as an integer,
/// zero when that parse fails.
pub open spec fn expr_eval(e: Expr, env: Map<Seq<char>, ValueModel>) -> Result<
    ValueModel,
    EvalErrorModel,
>
    decreases e,
{
    match expr_scan(e.terms@, env) {
        Err(er) => Err(er),
        Ok((buf, any_text)) => if any_text {
            Ok(ValueModel::Text(buf))
        } else {
            Ok(ValueModel::Integer(parse_or_zero(buf)))
        },
    }
}

/// The model of an evaluation outcome.
pub open spec fn eval_result_model(r: Result<Value, EvalError>) -> Result<
    ValueModel,
    EvalErrorModel,
> {
    match r {
        Ok(v) => Ok(v@),
        Err(e) => Err(e@),
    }
}

proof fn lemma_dec_digits_props(n: int)
    requires
        n >= 0,
    ensures
        dec_digits(n).len() >= 1,
        all_dec_digits(dec_digits(n)),
        digits_value(dec_digits(n)) == n,
        dec_digit_val(dec_digits(n)[0]) is Some,
    decreases n,
{
    if n < 10 {
        assert(dec_digits(n) =~= seq![digit_char(n)]);
        assert(dec_digits(n).drop_last() =~= Seq::<char>::empty());
        assert(dec_digits(n).last() == digit_char(n));
        assert(dec_digit_val(digit_char(n)) == Some(n));
        assert(digits_value(dec_digits(n)) == digits_value(Seq::<char>::empty()) * 10 + n);
    } else {
        lemma_dec_digits_props(n / 10);
        let t = dec_digits(n / 10);
        let c = digit_char(n % 10);
        assert(dec_digits(n) == t.push(c));
        assert(t.push(c).drop_last() =~= t);
        assert(t.push(c).last() == c);
        assert(all_dec_digits(t.push(c))) by {
            assert(forall|i: int| 0 <= i < t.len() ==> t.push(c)[i] == #[trigger] t[i]);
        }
        assert(digits_value(t.push(c)) == n);
        assert(t.push(c)[0] == t[0]);
    }
}

/// The decimal rendering of any 64-bit integer parses back to it.
pub proof fn lemma_parse_of_rendering(n: int)
    requires
        in_i64(n),
    ensures
        parse_i64_spec(int_rendering(n)) == Some(n),
{
    if n < 0 {
        lemma_dec_digits_props(-n);
        let s = int_rendering(n);
        let body = dec_digits(-n);
        assert(s[0] == '-');
        assert(s.subrange(1, s.len() as int) =~= body);
        assert(parse_digits_signed(body, -1) == Some((-1) * digits_value(body)));
        assert((-1) * digits_value(body) == n);
    } else {
        lemma_dec_digits_props(n);
        let s = int_rendering(n);
        assert(s == dec_digits(n));
        assert(dec_digit_val(s[0]) is Some);
        assert(s[0] != '-' && s[0] != '+');
        assert(parse_digits_signed(s, 1) == Some(1 * digits_value(s)));
    }
}

/// Every integer an expression evaluates to lies in the 64-bit range.
pub proof fn lemma_parse_or_zero_in_range(s: Seq<char>)
    ensures
        in_i64(parse_or_zero(s)),
{
}

/// Law (concatenation rule): an expression of one text term and one
/// numeral term, in that order, evaluates to a text value holding the
/// text followed by the numeral's decimal rendering.
pub proof fn lemma_text_then_numeral_concat(
    e: Expr,
    env: Map<Seq<char>, ValueModel>,
    ta: Seq<char>,
    nb: int,
)
    requires
        e.terms@.len() == 2,
        term_eval(e.terms@[0], env) == Ok::<ValueModel, EvalErrorModel>(ValueModel::Text(ta)),
        term_eval(e.terms@[1], env) == Ok::<ValueModel, EvalErrorModel>(ValueModel::Integer(nb)),
    ensures
        expr_eval(e, env) == Ok::<ValueModel, EvalErrorModel>(
            ValueModel::Text(ta + int_rendering(nb)),
        ),
{
    let ts = e.terms@;
    assert(ts.drop_last() =~= ts.subrange(0, 1));
    assert(ts.drop_last().drop_last() =~= Seq::<Term>::empty());
    assert(ts.drop_last().last() == ts[0]);
    assert(ts.last() == ts[1]);
    assert(expr_scan(Seq::<Term>::empty(), env) == Ok::<_, EvalErrorModel>(
        (Seq::<char>::empty(), false),
    ));
    assert(expr_scan(ts.drop_last(), env) == Ok::<_, EvalErrorModel>((Seq::<char>::empty() + ta, true)));
    assert(Seq::<char>::empty() + ta =~= ta);
    assert(expr_scan(ts, env) == Ok::<_, EvalErrorModel>((ta + int_rendering(nb), true)));
}

proof fn lemma_expr_scan_err_extends(terms: Seq<Term>, env: Map<Seq<char>, ValueModel>, m: int)
    requires
        0 <= m <= terms.len(),
        expr_scan(terms.subrange(0, m), env) is Err,
    ensures
        expr_scan(terms, env) == expr_scan(terms.subrange(0, m), env),
    decreases terms.len(),
{
    if m == terms.len() {
        assert(terms.subrange(0, m) =~= terms);
    } else {
        assert(terms.drop_last() =~= terms.subrange(0, terms.len() - 1));
        assert(terms.drop_last().subrange(0, m) =~= terms.subrange(0, m));
        lemma_expr_scan_err_extends(terms.drop_last(), env, m);
    }
}

/// Evaluates an expression: every term is rendered into one buffer in
/// term order, and the result is text if any term was text, else the
/// re-parsed integer.
pub fn evaluate_expression(e: &Expr, env: &Environment) -> (r: Result<Value, EvalError>)
    ensures
        eval_result_model(r) == expr_eval(*e, env@),
    decreases *e,
{
    let mut buf = String::new();
    let mut any_text: bool = false;
    let n = e.terms.len();
    let mut i: usize = 0;
    while i < n
        invariant
            n == e.terms@.len(),
            0 <= i <= n,
            expr_scan(e.terms@.subrange(0, i as int), env@) == Ok::<_, EvalErrorModel>(
                (buf@, any_text),
            ),
        decreases n - i,
    {
        proof {
            assert(e.terms@.subrange(0, i + 1).drop_last() =~= e.terms@.subrange(0, i as int));
            assert(e.terms@.subrange(0, i + 1).last() == e.terms@[i as int]);
        }
        match parse_value(&e.terms[i], env) {
            Err(er) => {
                proof {
                    lemma_expr_scan_err_extends(e.terms@, env@, i + 1);
                }
                return Err(er);
            },
            Ok(v) => {
                match &v {
                    Value::Text(s) => {
                        buf.append(s.as_str());
                        any_text = true;
                    },
                    Value::Integer(m) => {
                        let rendered = render_int(*m);
                        buf.append(rendered.as_str());
                    },
                }
            },
        }
        i = i + 1;
    }
    proof {
        assert(e.terms@.subrange(0, n as int) =~= e.terms@);
    }
    if any_text {
        Ok(Value::Text(buf))
    } else {
        match parse_i64(buf.as_str()) {
            Some(v) => Ok(Value::Integer(v)),
            None => Ok(Value::Integer(0)),
        }
    }
}

} // verus!
