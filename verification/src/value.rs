//! The executable representation of one interpreter value.

use vstd::prelude::*;
use crate::model::LuaVal;

verus! {

/// One slot of the interpreter, as stored.  Heap kinds carry the identity of
/// the object they denote.
pub enum Value {
    Nil,
    Bool(bool),
    Num(i64),
    Str(String),
    Table(usize),
    Fun(usize),
    User(usize),
}

impl View for Value {
    type V = LuaVal;

    open spec fn view(&self) -> LuaVal {
        match self {
            Value::Nil => LuaVal::Nil,
            Value::Bool(b) => LuaVal::Bool(*b),
            Value::Num(n) => LuaVal::Num(*n),
            Value::Str(s) => LuaVal::Str(s@),
            Value::Table(id) => LuaVal::Table(*id as int),
            Value::Fun(id) => LuaVal::Fun(*id as int),
            Value::User(id) => LuaVal::User(*id as int),
        }
    }
}

impl Value {
    /// A copy of the value, denoting the same model value.
    pub fn duplicate(&self) -> (r: Value)
        ensures
            r@ == self@,
    {
        match self {
            Value::Nil => Value::Nil,
            Value::Bool(b) => Value::Bool(*b),
            Value::Num(n) => Value::Num(*n),
            Value::Str(s) => Value::Str(s.clone()),
            Value::Table(id) => Value::Table(*id),
            Value::Fun(id) => Value::Fun(*id),
            Value::User(id) => Value::User(*id),
        }
    }
}

/// Interpreter equality of two slots: structural on scalars and strings,
/// identity on heap objects.  This agrees with equality of the model values.
pub fn value_eq(a: &Value, b: &Value) -> (r: bool)
    ensures
        r == (a@ == b@),
{
    match (a, b) {
        (Value::Nil, Value::Nil) => true,
        (Value::Bool(x), Value::Bool(y)) => *x == *y,
        (Value::Num(x), Value::Num(y)) => *x == *y,
        (Value::Str(x), Value::Str(y)) => *x == *y,
        (Value::Table(x), Value::Table(y)) => *x == *y,
        (Value::Fun(x), Value::Fun(y)) => *x == *y,
        (Value::User(x), Value::User(y)) => *x == *y,
        _ => false,
    }
}

} // verus!
