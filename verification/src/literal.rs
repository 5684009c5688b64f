use vstd::prelude::*;
use vstd::string::StringExecFns;
use std::rc::Rc;
use crate::callable::LoxCallable;
use crate::function::share;

verus! {

/// A value of the language, as the scanner decodes it and as the evaluator
/// computes it. A number is held as the 64 bits of its IEEE 754 double.
#[derive(Debug)]
pub enum Literal {
    Number(u64),
    String(String),
    Bool(bool),
    Function(Rc<LoxCallable>),
    Nil,
    /// The content of a variable declared without an initializer.
    NilImplicit,
}

/// What a value prints as: finished text, or a number whose decimal form the
/// host still has to write.
#[derive(Debug)]
pub enum Fragment {
    Text(String),
    Number(u64),
}

impl Literal {
    /// The text that a value other than a number prints as.
    pub open spec fn text(&self) -> Seq<char> {
        match self {
            Literal::Number(_) => Seq::empty(),
            Literal::String(text) => text@,
            Literal::Bool(true) => "true"@,
            Literal::Bool(false) => "false"@,
            Literal::Function(callable) => callable.spec_display(),
            Literal::Nil => "nil"@,
            Literal::NilImplicit => "nil_implicit"@,
        }
    }

    /// Whether `shown` is what the value prints as: for a number the number
    /// itself, to be written in decimal; for every other value its text.
    pub open spec fn shows_as(&self, shown: Fragment) -> bool {
        match self {
            Literal::Number(bits) => shown == Fragment::Number(*bits),
            _ => shown matches Fragment::Text(text) && text@ == self.text(),
        }
    }

    /// The printed form of a value.
    pub fn display(&self) -> (shown: Fragment)
        ensures
            self.shows_as(shown),
    {
        match self {
            Literal::Number(bits) => Fragment::Number(*bits),
            Literal::String(text) => Fragment::Text(text.clone()),
            Literal::Bool(value) => {
                if *value {
                    Fragment::Text(String::from_str("true"))
                } else {
                    Fragment::Text(String::from_str("false"))
                }
            },
            Literal::Function(callable) => Fragment::Text(callable.display()),
            Literal::Nil => Fragment::Text(String::from_str("nil")),
            Literal::NilImplicit => Fragment::Text(String::from_str("nil_implicit")),
        }
    }
}

impl Clone for Literal {
    fn clone(&self) -> (copy: Self)
        ensures
            copy == *self,
    {
        match self {
            Literal::Number(bits) => Literal::Number(*bits),
            Literal::String(text) => Literal::String(text.clone()),
            Literal::Bool(value) => Literal::Bool(*value),
            Literal::Function(callable) => Literal::Function(share(callable)),
            Literal::Nil => Literal::Nil,
            Literal::NilImplicit => Literal::NilImplicit,
        }
    }
}

} // verus!
