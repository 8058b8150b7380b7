use vstd::prelude::*;
use vstd::string::*;
use std::rc::Rc;
use crate::ast::{Statement, names_text, names_to_string};
use crate::token::{int_text, bool_text, i32_to_string, bool_to_string};

verus! {

/// A runtime value. A function is a closure: its parameter names, its body,
/// and the index of the environment frame that was current where its literal
/// was evaluated.
#[derive(Debug)]
pub enum Object {
    Integer(i32),
    Boolean(bool),
    Null,
    ReturnValue(Box<Object>),
    Function(Rc<Vec<String>>, Rc<Vec<Statement>>, usize),
}

/// Display form of a value.
pub open spec fn object_text(o: Object) -> Seq<char>
    decreases o,
{
    match o {
        Object::Integer(i) => int_text(i as int),
        Object::Boolean(b) => bool_text(b),
        Object::Null => "null"@,
        Object::ReturnValue(x) => object_text(*x),
        Object::Function(ps, _, _) => "fn("@ + names_text(ps@, ","@) + ") {...}"@,
    }
}

impl Object {
    /// Display form: a return wrapper shows its inner value, a function its
    /// parameters.
    pub fn to_string(&self) -> (r: String)
        ensures
            r@ == object_text(*self),
        decreases self,
    {
        match self {
            Object::Integer(i) => i32_to_string(*i),
            Object::Boolean(b) => bool_to_string(*b),
            Object::Null => String::from_str("null"),
            Object::ReturnValue(x) => x.to_string(),
            Object::Function(ps, _, _) => {
                let mut out = String::from_str("fn(");
                out.append(names_to_string(ps, ",").as_str());
                out.append(") {...}");
                out
            },
        }
    }

    /// A copy equal to the value; a closure's parameters and body are shared.
    pub fn copy(&self) -> (r: Object)
        ensures
            r == *self,
        decreases self,
    {
        match self {
            Object::Integer(i) => Object::Integer(*i),
            Object::Boolean(b) => Object::Boolean(*b),
            Object::Null => Object::Null,
            Object::ReturnValue(x) => Object::ReturnValue(Box::new(x.copy())),
            Object::Function(ps, body, f) => Object::Function(Rc::clone(ps), Rc::clone(body), *f),
        }
    }
}

} // verus!
