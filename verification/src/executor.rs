//! Tree-walking execution: statements run in document order, declarations
//! bind values in the environment, prints render values into the program
//! output, one line each.
use vstd::prelude::*;

use crate::evaluator::{
    evaluate_expression, expr_eval, expr_scan, term_eval, value_rendering, Expr, Term,
};
use crate::{Environment, EvalError, EvalErrorModel, Value, ValueModel};

verus! {

/// A statement: a variable declaration or a print statement.
pub enum Stmt {
    /// Binds the value of an expression to a name.
    VarDecl { name: String, value: Expr },
    /// Renders the value of an expression to the program output,
    /// terminated by a newline.
    Print { value: Expr },
}

/// A program: its statements in document order.
pub struct Program {
    pub statements: Vec<Stmt>,
}

/// What one statement does to the environment and the output, or the
/// error it stops with.
pub open spec fn stmt_step(s: Stmt, env: Map<Seq<char>, ValueModel>, out: Seq<char>) -> (
    Map<Seq<char>, ValueModel>,
    Seq<char>,
    Option<EvalErrorModel>,
) {
    match s {
        Stmt::VarDecl { name, value } => match expr_eval(value, env) {
            Ok(v) => (env.insert(name@, v), out, None),
            Err(e) => (env, out, Some(e)),
        },
        Stmt::Print { value } => match expr_eval(value, env) {
            Ok(v) => (env, out + value_rendering(v) + seq!['\n'], None),
            Err(e) => (env, out, Some(e)),
        },
    }
}

/// The environment and the output after running `stmts` in order from
/// the given state, stopping at the first error.
pub open spec fn run_program(
    stmts: Seq<Stmt>,
    env: Map<Seq<char>, ValueModel>,
    out: Seq<char>,
) -> (Map<Seq<char>, ValueModel>, Seq<char>, Option<EvalErrorModel>)
    decreases stmts.len(),
{
    if stmts.len() == 0 {
        (env, out, None)
    } else {
        let p = run_program(stmts.drop_last(), env, out);
        if p.2 is Some {
            p
        } else {
            stmt_step(stmts.last(), p.0, p.1)
        }
    }
}

/// An integer that an expression evaluates to always lies in the
/// 64-bit range.
proof fn lemma_expr_eval_integer_in_range(e: Expr, env: Map<Seq<char>, ValueModel>)
    ensures
        match expr_eval(e, env) {
            Ok(v) => v matches ValueModel::Integer(n) ==> crate::ling_number::in_i64(n),
            Err(_) => true,
        },
{
    match expr_scan(e.terms@, env) {
        Ok(p) => {
            if !p.1 {
                crate::evaluator::lemma_parse_or_zero_in_range(p.0);
            }
        },
        Err(_) => {},
    }
}

/// Printing a bound variable renders its value and one newline.
proof fn lemma_print_var_step(
    p: Stmt,
    name: Seq<char>,
    env: Map<Seq<char>, ValueModel>,
    out: Seq<char>,
    v: ValueModel,
)
    requires
        ({
            &&& p matches Stmt::Print { value: pe }
            &&& pe.terms@.len() == 1
            &&& pe.terms@[0] matches Term::VariableName(pn)
            &&& pn@ == name
        }),
        env.contains_key(name),
        env[name] == v,
        v matches ValueModel::Integer(n) ==> crate::ling_number::in_i64(n),
    ensures
        stmt_step(p, env, out) == (env, out + value_rendering(v) + seq!['\n'], None::<
            EvalErrorModel,
        >),
{
    let pe = p->Print_value;
    let ts = pe.terms@;
    assert(ts.drop_last() =~= Seq::<Term>::empty());
    assert(ts.last() == ts[0]);
    assert(expr_scan(ts, env) == Ok::<_, EvalErrorModel>(
        (Seq::<char>::empty() + value_rendering(v), v is Text),
    ));
    assert(Seq::<char>::empty() + value_rendering(v) =~= value_rendering(v));
    match v {
        ValueModel::Text(s) => {
            assert(expr_eval(pe, env) == Ok::<ValueModel, EvalErrorModel>(v));
        },
        ValueModel::Integer(n) => {
            crate::evaluator::lemma_parse_of_rendering(n);
            assert(expr_eval(pe, env) == Ok::<ValueModel, EvalErrorModel>(v));
        },
    }
}

/// Law: declaring a variable and then printing it yields exactly the
/// declared value's rendering followed by one newline, and leaves the
/// value bound to the name.
pub proof fn lemma_declare_then_print(
    d: Stmt,
    p: Stmt,
    name: Seq<char>,
    env: Map<Seq<char>, ValueModel>,
    out: Seq<char>,
    v: ValueModel,
)
    requires
        ({
            &&& d matches Stmt::VarDecl { name: dn, value: e }
            &&& dn@ == name
            &&& expr_eval(e, env) == Ok::<ValueModel, EvalErrorModel>(v)
        }),
        ({
            &&& p matches Stmt::Print { value: pe }
            &&& pe.terms@.len() == 1
            &&& pe.terms@[0] matches Term::VariableName(pn)
            &&& pn@ == name
        }),
    ensures
        run_program(seq![d, p], env, out) == (
            env.insert(name, v),
            out + value_rendering(v) + seq!['\n'],
            None::<EvalErrorModel>,
        ),
{
    let prog = seq![d, p];
    assert(prog.drop_last() =~= seq![d]);
    assert(seq![d].drop_last() =~= Seq::<Stmt>::empty());
    assert(prog.last() == p);
    assert(seq![d].last() == d);
    let e = d->VarDecl_value;
    lemma_expr_eval_integer_in_range(e, env);
    assert(run_program(Seq::<Stmt>::empty(), env, out) == (env, out, None::<EvalErrorModel>));
    assert(run_program(seq![d], env, out) == (env.insert(name, v), out, None::<EvalErrorModel>));
    lemma_print_var_step(p, name, env.insert(name, v), out, v);
}

/// Law: re-declaring a name rebinds it, and a subsequent print
/// observes only the latest value.
pub proof fn lemma_redeclare_then_print(
    d1: Stmt,
    d2: Stmt,
    p: Stmt,
    name: Seq<char>,
    env: Map<Seq<char>, ValueModel>,
    out: Seq<char>,
    v1: ValueModel,
    v2: ValueModel,
)
    requires
        ({
            &&& d1 matches Stmt::VarDecl { name: n1, value: e1 }
            &&& n1@ == name
            &&& expr_eval(e1, env) == Ok::<ValueModel, EvalErrorModel>(v1)
        }),
        ({
            &&& d2 matches Stmt::VarDecl { name: n2, value: e2 }
            &&& n2@ == name
            &&& expr_eval(e2, env.insert(name, v1)) == Ok::<ValueModel, EvalErrorModel>(v2)
        }),
        ({
            &&& p matches Stmt::Print { value: pe }
            &&& pe.terms@.len() == 1
            &&& pe.terms@[0] matches Term::VariableName(pn)
            &&& pn@ == name
        }),
    ensures
        run_program(seq![d1, d2, p], env, out) == (
            env.insert(name, v2),
            out + value_rendering(v2) + seq!['\n'],
            None::<EvalErrorModel>,
        ),
{
    let prog = seq![d1, d2, p];
    assert(prog.drop_last() =~= seq![d1, d2]);
    assert(seq![d1, d2].drop_last() =~= seq![d1]);
    assert(seq![d1].drop_last() =~= Seq::<Stmt>::empty());
    assert(prog.last() == p);
    assert(seq![d1, d2].last() == d2);
    assert(seq![d1].last() == d1);
    let e2 = d2->VarDecl_value;
    lemma_expr_eval_integer_in_range(e2, env.insert(name, v1));
    assert(run_program(Seq::<Stmt>::empty(), env, out) == (env, out, None::<EvalErrorModel>));
    assert(run_program(seq![d1], env, out) == (env.insert(name, v1), out, None::<EvalErrorModel>));
    assert(run_program(seq![d1, d2], env, out) == (
        env.insert(name, v1).insert(name, v2),
        out,
        None::<EvalErrorModel>,
    ));
    assert(env.insert(name, v1).insert(name, v2) =~= env.insert(name, v2));
    lemma_print_var_step(p, name, env.insert(name, v2), out, v2);
}

/// Law: printing an undefined variable name fails with the
/// undefined-variable error naming that exact identifier, and changes
/// neither the bindings nor the output.
pub proof fn lemma_print_undefined(
    p: Stmt,
    name: Seq<char>,
    env: Map<Seq<char>, ValueModel>,
    out: Seq<char>,
)
    requires
        ({
            &&& p matches Stmt::Print { value: pe }
            &&& pe.terms@.len() == 1
            &&& pe.terms@[0] matches Term::VariableName(pn)
            &&& pn@ == name
        }),
        !env.contains_key(name),
    ensures
        run_program(seq![p], env, out) == (
            env,
            out,
            Some(EvalErrorModel::UndefinedVariable(name)),
        ),
{
    let prog = seq![p];
    assert(prog.drop_last() =~= Seq::<Stmt>::empty());
    assert(prog.last() == p);
    let pe = p->Print_value;
    let ts = pe.terms@;
    assert(ts.drop_last() =~= Seq::<Term>::empty());
    assert(ts.last() == ts[0]);
    assert(term_eval(ts[0], env) == Err::<ValueModel, EvalErrorModel>(
        EvalErrorModel::UndefinedVariable(name),
    ));
    assert(expr_scan(Seq::<Term>::empty(), env) == Ok::<_, EvalErrorModel>(
        (Seq::<char>::empty(), false),
    ));
    assert(run_program(Seq::<Stmt>::empty(), env, out) == (env, out, None::<EvalErrorModel>));
    assert(expr_scan(ts, env) == Err::<(Seq<char>, bool), EvalErrorModel>(
        EvalErrorModel::UndefinedVariable(name),
    ));
}

proof fn lemma_run_err_extends(
    stmts: Seq<Stmt>,
    env: Map<Seq<char>, ValueModel>,
    out: Seq<char>,
    m: int,
)
    requires
        0 <= m <= stmts.len(),
        run_program(stmts.subrange(0, m), env, out).2 is Some,
    ensures
        run_program(stmts, env, out) == run_program(stmts.subrange(0, m), env, out),
    decreases stmts.len(),
{
    if m == stmts.len() {
        assert(stmts.subrange(0, m) =~= stmts);
    } else {
        assert(stmts.drop_last() =~= stmts.subrange(0, stmts.len() - 1));
        assert(stmts.drop_last().subrange(0, m) =~= stmts.subrange(0, m));
        lemma_run_err_extends(stmts.drop_last(), env, out, m);
    }
}

/// Runs a program: declarations bind their evaluated value, overwriting
/// any prior binding; prints append the value's rendering and a newline
/// to `out`. Stops at the first error, leaving the bindings and the
/// output made so far in place.
pub fn execute_program(p: &Program, env: &mut Environment, out: &mut String) -> (r: Result<
    (),
    EvalError,
>)
    ensures
        final(env)@ == run_program(p.statements@, old(env)@, old(out)@).0,
        final(out)@ == run_program(p.statements@, old(env)@, old(out)@).1,
        match r {
            Ok(_) => run_program(p.statements@, old(env)@, old(out)@).2 is None,
            Err(e) => run_program(p.statements@, old(env)@, old(out)@).2 == Some(e@),
        },
{
    let ghost env0 = env@;
    let ghost out0 = out@;
    let n = p.statements.len();
    let mut i: usize = 0;
    while i < n
        invariant
            n == p.statements@.len(),
            0 <= i <= n,
            env0 == old(env)@,
            out0 == old(out)@,
            run_program(p.statements@.subrange(0, i as int), env0, out0) == (
                env@,
                out@,
                None::<EvalErrorModel>,
            ),
        decreases n - i,
    {
        proof {
            assert(p.statements@.subrange(0, i + 1).drop_last() =~= p.statements@.subrange(
                0,
                i as int,
            ));
            assert(p.statements@.subrange(0, i + 1).last() == p.statements@[i as int]);
        }
        match &p.statements[i] {
            Stmt::VarDecl { name, value } => {
                match evaluate_expression(value, env) {
                    Ok(v) => {
                        env.set_var(name.clone(), v);
                    },
                    Err(e) => {
                        proof {
                            assert(stmt_step(p.statements@[i as int], env@, out@) == (
                                env@,
                                out@,
                                Some(e@),
                            ));
                            assert(run_program(p.statements@.subrange(0, i + 1), env0, out0) == (
                                env@,
                                out@,
                                Some(e@),
                            ));
                            lemma_run_err_extends(p.statements@, env0, out0, i + 1);
                        }
                        return Err(e);
                    },
                }
            },
            Stmt::Print { value } => {
                match evaluate_expression(value, env) {
                    Ok(v) => {
                        proof {
                            reveal_strlit("\n");
                        }
                        match &v {
                            Value::Integer(m) => {
                                let rendered = crate::evaluator::render_int(*m);
                                out.append(rendered.as_str());
                            },
                            Value::Text(s) => {
                                out.append(s.as_str());
                            },
                        }
                        out.append("\n");
                        proof {
                            assert(out@ =~= run_program(
                                p.statements@.subrange(0, i + 1),
                                env0,
                                out0,
                            ).1);
                        }
                    },
                    Err(e) => {
                        proof {
                            assert(stmt_step(p.statements@[i as int], env@, out@) == (
                                env@,
                                out@,
                                Some(e@),
                            ));
                            assert(run_program(p.statements@.subrange(0, i + 1), env0, out0) == (
                                env@,
                                out@,
                                Some(e@),
                            ));
                            lemma_run_err_extends(p.statements@, env0, out0, i + 1);
                        }
                        return Err(e);
                    },
                }
            },
        }
        i = i + 1;
    }
    proof {
        assert(p.statements@.subrange(0, n as int) =~= p.statements@);
    }
    Ok(())
}

} // verus!
