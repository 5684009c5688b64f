use vstd::prelude::*;
use vstd::string::StringExecFns;
use std::rc::Rc;
use crate::stmt::{FunctionStmt, Stmt};
use crate::token::Token;

verus! {

/// A declared function together with the scope it was declared in.
#[derive(Debug)]
pub struct LoxFunction {
    pub name: Token,
    pub params: Vec<Token>,
    pub body: Rc<Vec<Stmt>>,
    /// The handle of the scope that was current at the declaration.
    pub closure: usize,
}

/// A second handle on a shared value.
///
/// Wraps `Rc::clone`, which hands out another pointer to the same allocation:
/// the value behind the result is the value behind the argument.
#[verifier::external_body]
pub(crate) fn share<T>(shared: &Rc<T>) -> (handle: Rc<T>)
    ensures
        handle == *shared,
{
    Rc::clone(shared)
}

/// A copy of a list of tokens.
pub(crate) fn copy_tokens(tokens: &Vec<Token>) -> (copy: Vec<Token>)
    ensures
        copy@ == tokens@,
{
    let mut copy: Vec<Token> = Vec::new();
    let mut index: usize = 0;
    while index < tokens.len()
        invariant
            index <= tokens.len(),
            copy@ == tokens@.take(index as int),
        decreases tokens.len() - index,
    {
        copy.push(tokens[index].clone());
        index += 1;
    }
    assert(tokens@.take(index as int) == tokens@);
    copy
}

impl LoxFunction {
    /// Whether `self` is the function that `declaration` declares in the scope
    /// `closure`.
    pub open spec fn declared_by(&self, declaration: FunctionStmt, closure: usize) -> bool {
        &&& self.name == declaration.name
        &&& self.params@ == declaration.params@
        &&& self.body == declaration.body
        &&& self.closure == closure
    }

    pub fn new(declaration: &FunctionStmt, closure: usize) -> (function: LoxFunction)
        ensures
            function.declared_by(*declaration, closure),
    {
        LoxFunction {
            name: declaration.name.clone(),
            params: copy_tokens(&declaration.params),
            body: share(&declaration.body),
            closure,
        }
    }

    pub fn arity(&self) -> (count: usize)
        ensures
            count == self.params@.len(),
    {
        self.params.len()
    }

    pub fn display(&self) -> (text: String)
        ensures
            text@ == "<fn "@ + self.name.lexeme@ + ">"@,
    {
        let mut text = String::from_str("<fn ");
        text.append(self.name.lexeme.as_str());
        text.append(">");
        text
    }
}

} // verus!
