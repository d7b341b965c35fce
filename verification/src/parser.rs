//! Evaluation of a single term against the environment.
use vstd::prelude::*;

use crate::evaluator::{
    evaluate_expression, eval_result_model, parse_i64, string_content, term_eval, Term,
};
use crate::ling_number::chinese_to_number;
use crate::{Environment, EvalError, Value};

verus! {

/// Resolves one term to a value: a string literal contributes what
/// stands between its delimiters, a number literal is decoded as a
/// numeral string when it starts outside the ASCII range and parsed as
/// base 10 otherwise, a variable name is looked up, and a nested
/// expression is evaluated.
pub fn parse_value(t: &Term, env: &Environment) -> (r: Result<Value, EvalError>)
    ensures
        eval_result_model(r) == term_eval(*t, env@),
    decreases *t,
{
    match t {
        Term::StringLiteral(s) => {
            let n: usize = s.as_str().unicode_len();
            if n >= 2 {
                let content = s.as_str().substring_char(1, n - 1);
                Ok(Value::Text(String::from_str(content)))
            } else {
                proof {
                    assert(string_content(s@) =~= Seq::<char>::empty());
                }
                Ok(Value::Text(String::new()))
            }
        },
        Term::NumberLiteral(s) => {
            let n: usize = s.as_str().unicode_len();
            if n == 0 {
                return Err(EvalError::InvalidNumeral(s.clone()));
            }
            let c = s.as_str().get_char(0);
            if c as u32 > 127 {
                match chinese_to_number(s.as_str()) {
                    Some(v) => Ok(Value::Integer(v)),
                    None => Err(EvalError::InvalidNumeral(s.clone())),
                }
            } else {
                match parse_i64(s.as_str()) {
                    Some(v) => Ok(Value::Integer(v)),
                    None => Err(EvalError::InvalidNumeral(s.clone())),
                }
            }
        },
        Term::VariableName(name) => {
            match env.get_var(name.as_str()) {
                Some(v) => Ok(v.clone()),
                None => Err(EvalError::UndefinedVariable(name.clone())),
            }
        },
        Term::Nested(e) => evaluate_expression(e, env),
    }
}

} // verus!
