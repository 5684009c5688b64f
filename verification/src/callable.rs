use vstd::prelude::*;
use crate::function::LoxFunction;
use crate::native_functions::Clock;

verus! {

/// What a call can be made on: the built-in clock or a declared function.
#[derive(Debug)]
pub enum LoxCallable {
    Clock(Clock),
    Function(LoxFunction),
}

impl LoxCallable {
    /// The number of arguments a call must supply.
    pub open spec fn spec_arity(&self) -> nat {
        match self {
            LoxCallable::Clock(_) => 0,
            LoxCallable::Function(function) => function.params@.len(),
        }
    }

    /// The text a callable prints as.
    pub open spec fn spec_display(&self) -> Seq<char> {
        match self {
            LoxCallable::Clock(_) => "native clock function"@,
            LoxCallable::Function(function) => "<fn "@ + function.name.lexeme@ + ">"@,
        }
    }

    pub fn arity(&self) -> (count: usize)
        ensures
            count == self.spec_arity(),
    {
        match self {
            LoxCallable::Clock(clock) => clock.arity(),
            LoxCallable::Function(function) => function.arity(),
        }
    }

    pub fn display(&self) -> (text: String)
        ensures
            text@ == self.spec_display(),
    {
        match self {
            LoxCallable::Clock(clock) => clock.display(),
            LoxCallable::Function(function) => function.display(),
        }
    }
}

} // verus!
