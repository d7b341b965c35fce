//! Back end of a small scripting language: a numeral decoder, a typed value
//! model with a name-to-value environment, an expression evaluator, a
//! tree-walking executor, and a native-code generator built on an
//! instruction builder.
use vstd::prelude::*;

pub mod codegen;
pub mod evaluator;
pub mod executor;
pub mod ling_number;
pub mod llvm;
pub mod parser;

verus! {

/// Marker type for the grammar front end; the driver that parses
/// source text derives its parser implementation on its own copy.
pub struct ChineseLangParser;

/// A runtime value: a 64-bit integer or a piece of text.
#[derive(Debug)]
pub enum Value {
    Integer(i64),
    Text(String),
}

/// Mathematical model of a [`Value`].
pub enum ValueModel {
    Integer(int),
    Text(Seq<char>),
}

impl View for Value {
    type V = ValueModel;

    open spec fn view(&self) -> ValueModel {
        match self {
            Value::Integer(n) => ValueModel::Integer(*n as int),
            Value::Text(s) => ValueModel::Text(s@),
        }
    }
}

impl Clone for Value {
    fn clone(&self) -> (r: Self)
        ensures
            r@ == self@,
    {
        match self {
            Value::Integer(n) => Value::Integer(*n),
            Value::Text(s) => Value::Text(s.clone()),
        }
    }
}

/// An evaluation failure. Every error is local to one interpretation run.
#[derive(Debug)]
pub enum EvalError {
    /// A variable was referenced with no prior binding; carries the name.
    UndefinedVariable(String),
    /// A number literal yielded no usable value; carries the literal.
    InvalidNumeral(String),
}

/// Mathematical model of an [`EvalError`].
pub enum EvalErrorModel {
    UndefinedVariable(Seq<char>),
    InvalidNumeral(Seq<char>),
}

impl View for EvalError {
    type V = EvalErrorModel;

    open spec fn view(&self) -> EvalErrorModel {
        match self {
            EvalError::UndefinedVariable(s) => EvalErrorModel::UndefinedVariable(s@),
            EvalError::InvalidNumeral(s) => EvalErrorModel::InvalidNumeral(s@),
        }
    }
}

/// Character-by-character string comparison.
pub(crate) fn str_eq(a: &str, b: &str) -> (r: bool)
    ensures
        r == (a@ == b@),
{
    let n: usize = a.unicode_len();
    if n != b.unicode_len() {
        return false;
    }
    let mut i: usize = 0;
    while i < n
        invariant
            n == a@.len() == b@.len(),
            0 <= i <= n,
            forall|j: int| 0 <= j < i ==> a@[j] == b@[j],
        decreases n - i,
    {
        if a.get_char(i) != b.get_char(i) {
            return false;
        }
        i = i + 1;
    }
    proof {
        assert(a@ =~= b@);
    }
    true
}

/// The name-to-value bindings of one interpretation run. Binding a name
/// overwrites any prior binding for it; there is no shadowing or scoping.
pub struct Environment {
    variables: Vec<(String, Value)>,
}

impl Default for Environment {
    fn default() -> (r: Self)
        ensures
            r@ == Map::<Seq<char>, ValueModel>::empty(),
    {
        Self::new()
    }
}

spec fn map_of(entries: Seq<(String, Value)>) -> Map<Seq<char>, ValueModel>
    decreases entries.len(),
{
    if entries.len() == 0 {
        Map::empty()
    } else {
        map_of(entries.drop_last()).insert(entries.last().0@, entries.last().1@)
    }
}

impl View for Environment {
    type V = Map<Seq<char>, ValueModel>;

    closed spec fn view(&self) -> Map<Seq<char>, ValueModel> {
        map_of(self.variables@)
    }
}

proof fn lemma_map_of_found(entries: Seq<(String, Value)>, i: int)
    requires
        0 <= i < entries.len(),
        forall|j: int| i < j < entries.len() ==> entries[j].0@ != entries[i].0@,
    ensures
        map_of(entries).contains_key(entries[i].0@),
        map_of(entries)[entries[i].0@] == entries[i].1@,
    decreases entries.len(),
{
    if i < entries.len() - 1 {
        lemma_map_of_found(entries.drop_last(), i);
    }
}

proof fn lemma_map_of_absent(entries: Seq<(String, Value)>, k: Seq<char>)
    requires
        forall|i: int| 0 <= i < entries.len() ==> entries[i].0@ != k,
    ensures
        !map_of(entries).contains_key(k),
    decreases entries.len(),
{
    if entries.len() > 0 {
        lemma_map_of_absent(entries.drop_last(), k);
    }
}

impl Environment {
    /// Creates an environment with no bindings.
    pub fn new() -> (r: Self)
        ensures
            r@ == Map::<Seq<char>, ValueModel>::empty(),
    {
        Environment { variables: Vec::new() }
    }

    /// Index of the latest binding for `name`, if there is one.
    fn find_latest(&self, name: &str) -> (r: Option<usize>)
        ensures
            match r {
                Some(i) => i < self.variables@.len() && self.variables@[i as int].0@ == name@
                    && forall|j: int|
                    i < j < self.variables@.len() ==> self.variables@[j].0@ != name@,
                None => forall|j: int|
                    0 <= j < self.variables@.len() ==> self.variables@[j].0@ != name@,
            },
    {
        let n = self.variables.len();
        let mut i: usize = n;
        while i > 0
            invariant
                n == self.variables@.len(),
                0 <= i <= n,
                forall|j: int| i <= j < n ==> self.variables@[j].0@ != name@,
            decreases i,
        {
            let k = i - 1;
            if str_eq(self.variables[k].0.as_str(), name) {
                return Some(k);
            }
            i = k;
        }
        None
    }

    /// Binds `name` to `value`, overwriting any prior binding.
    pub fn set_var(&mut self, name: String, value: Value)
        ensures
            final(self)@ == old(self)@.insert(name@, value@),
    {
        let ghost before = self.variables@;
        self.variables.push((name, value));
        proof {
            assert(self.variables@.drop_last() =~= before);
        }
    }

    /// Looks `name` up; `None` exactly when it has no binding.
    pub fn get_var(&self, name: &str) -> (r: Option<&Value>)
        ensures
            match r {
                Some(v) => self@.contains_key(name@) && v@ == self@[name@],
                None => !self@.contains_key(name@),
            },
    {
        match self.find_latest(name) {
            Some(i) => {
                proof {
                    lemma_map_of_found(self.variables@, i as int);
                }
                Some(&self.variables[i].1)
            },
            None => {
                proof {
                    lemma_map_of_absent(self.variables@, name@);
                }
                None
            },
        }
    }
}

} // verus!
