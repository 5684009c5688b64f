use vstd::prelude::*;
use std::rc::Rc;
use crate::expr::Expr;
use crate::grammar::{Expression, Statement};
use crate::token::Token;

verus! {

/// A statement of the language.
#[derive(Debug)]
pub enum Stmt {
    Block(BlockStmt),
    Expression(ExpressionStmt),
    Function(FunctionStmt),
    If(IfStmt),
    Print(PrintStmt),
    Return(ReturnStmt),
    Var(VarStmt),
    While(WhileStmt),
}

/// Statements in braces; they run in a scope of their own.
#[derive(Debug)]
pub struct BlockStmt {
    pub statements: Rc<Vec<Stmt>>,
}

impl BlockStmt {
    pub fn new(statements: Rc<Vec<Stmt>>) -> (node: BlockStmt)
        ensures
            node == (BlockStmt { statements }),
    {
        BlockStmt { statements }
    }
}

/// An expression evaluated for its effect.
#[derive(Debug)]
pub struct ExpressionStmt {
    pub expression: Rc<Expr>,
}

impl ExpressionStmt {
    pub fn new(expression: Rc<Expr>) -> (node: ExpressionStmt)
        ensures
            node == (ExpressionStmt { expression }),
    {
        ExpressionStmt { expression }
    }
}

/// A function declaration.
#[derive(Debug)]
pub struct FunctionStmt {
    pub name: Token,
    pub params: Vec<Token>,
    pub body: Rc<Vec<Stmt>>,
}

impl FunctionStmt {
    pub fn new(name: Token, params: Vec<Token>, body: Rc<Vec<Stmt>>) -> (node: FunctionStmt)
        ensures
            node == (FunctionStmt { name, params, body }),
    {
        FunctionStmt { name, params, body }
    }
}

/// `if` with an optional `else`.
#[derive(Debug)]
pub struct IfStmt {
    pub condition: Rc<Expr>,
    pub then_branch: Rc<Stmt>,
    pub else_branch: Option<Rc<Stmt>>,
}

impl IfStmt {
    pub fn new(condition: Rc<Expr>, then_branch: Rc<Stmt>, else_branch: Option<Rc<Stmt>>) -> (node: IfStmt)
        ensures
            node == (IfStmt { condition, then_branch, else_branch }),
    {
        IfStmt { condition, then_branch, else_branch }
    }
}

/// `print`.
#[derive(Debug)]
pub struct PrintStmt {
    pub expression: Rc<Expr>,
}

impl PrintStmt {
    pub fn new(expression: Rc<Expr>) -> (node: PrintStmt)
        ensures
            node == (PrintStmt { expression }),
    {
        PrintStmt { expression }
    }
}

/// `return` with an optional value; `keyword` is kept for diagnostics.
#[derive(Debug)]
pub struct ReturnStmt {
    pub keyword: Token,
    pub value: Option<Rc<Expr>>,
}

impl ReturnStmt {
    pub fn new(keyword: Token, value: Option<Rc<Expr>>) -> (node: ReturnStmt)
        ensures
            node == (ReturnStmt { keyword, value }),
    {
        ReturnStmt { keyword, value }
    }
}

/// A variable declaration with an optional initializer.
#[derive(Debug)]
pub struct VarStmt {
    pub name: Token,
    pub initializer: Option<Rc<Expr>>,
}

impl VarStmt {
    pub fn new(name: Token, initializer: Option<Rc<Expr>>) -> (node: VarStmt)
        ensures
            node == (VarStmt { name, initializer }),
    {
        VarStmt { name, initializer }
    }
}

/// `while`.
#[derive(Debug)]
pub struct WhileStmt {
    pub condition: Rc<Expr>,
    pub body: Rc<Stmt>,
}

impl WhileStmt {
    pub fn new(condition: Rc<Expr>, body: Rc<Stmt>) -> (node: WhileStmt)
        ensures
            node == (WhileStmt { condition, body }),
    {
        WhileStmt { condition, body }
    }
}

/// The trees of the first `count` statements of a list.
pub open spec fn trees_to(list: Seq<Stmt>, count: nat) -> Seq<Statement>
    decreases list, count,
{
    if count == 0 || count > list.len() {
        Seq::empty()
    } else {
        trees_to(list, (count - 1) as nat).push(list[count - 1].view())
    }
}

/// The trees of a list of statements.
pub open spec fn trees(list: Seq<Stmt>) -> Seq<Statement>
    decreases list, list.len() + 1,
{
    trees_to(list, list.len())
}

/// The tree of an expression that may be missing.
pub open spec fn optional(expression: Option<Rc<Expr>>) -> Option<Expression> {
    match expression {
        Some(given) => Some(given.view()),
        None => None,
    }
}

impl Stmt {
    /// The statement as a tree of plain values.
    pub open spec fn view(&self) -> Statement
        decreases self,
    {
        match self {
            Stmt::Block(node) => Statement::Block { statements: trees(node.statements@) },
            Stmt::Expression(node) => Statement::Expression { expression: node.expression.view() },
            Stmt::Function(node) => Statement::Function {
                name: node.name,
                params: node.params@,
                body: trees(node.body@),
            },
            Stmt::If(node) => Statement::If {
                condition: node.condition.view(),
                then_branch: Box::new(node.then_branch.view()),
                else_branch: match node.else_branch {
                    Some(other) => Some(Box::new(other.view())),
                    None => None,
                },
            },
            Stmt::Print(node) => Statement::Print { expression: node.expression.view() },
            Stmt::Return(node) => Statement::Return {
                keyword: node.keyword,
                value: optional(node.value),
            },
            Stmt::Var(node) => Statement::Var {
                name: node.name,
                initializer: optional(node.initializer),
            },
            Stmt::While(node) => Statement::While {
                condition: node.condition.view(),
                body: Box::new(node.body.view()),
            },
        }
    }
}

/// The trees of a list depend on no more of it than they cover.
pub proof fn lemma_trees_to(list: Seq<Stmt>, longer: Seq<Stmt>, count: nat)
    requires
        count <= list.len() <= longer.len(),
        forall|i: int| 0 <= i < count ==> list[i] == longer[i],
    ensures
        trees_to(list, count) == trees_to(longer, count),
        trees_to(list, count).len() == count,
    decreases count,
{
    if count > 0 {
        lemma_trees_to(list, longer, (count - 1) as nat);
    }
}

/// The trees of a list are the trees of its members, in order.
pub proof fn lemma_trees_index(list: Seq<Stmt>, count: nat, index: int)
    requires
        0 <= index < count <= list.len(),
    ensures
        trees_to(list, count).len() == count,
        trees_to(list, count)[index] == list[index].view(),
    decreases count,
{
    lemma_trees_to(list, list, (count - 1) as nat);
    if index < count - 1 {
        lemma_trees_index(list, (count - 1) as nat, index);
    }
}

/// The trees of a list with one more statement are the trees of the list with
/// the tree of that statement added.
pub proof fn lemma_trees_push(list: Seq<Stmt>, last: Stmt)
    ensures
        trees(list.push(last)) == trees(list).push(last.view()),
        trees(list).len() == list.len(),
{
    lemma_trees_to(list, list.push(last), list.len());
}

} // verus!
