use vstd::prelude::*;
use std::rc::Rc;
use crate::grammar::Expression;
use crate::literal::Literal;
use crate::token::Token;

verus! {

/// An expression of the language.
#[derive(Debug)]
pub enum Expr {
    Assign(AssignExpr),
    Binary(BinaryExpr),
    Call(CallExpr),
    Grouping(GroupingExpr),
    Literal(LiteralExpr),
    Logical(LogicalExpr),
    Unary(UnaryExpr),
    Variable(VariableExpr),
}

/// `name = value`.
#[derive(Debug)]
pub struct AssignExpr {
    pub name: Token,
    pub value: Rc<Expr>,
}

impl AssignExpr {
    pub fn new(name: Token, value: Rc<Expr>) -> (node: AssignExpr)
        ensures
            node == (AssignExpr { name, value }),
    {
        AssignExpr { name, value }
    }
}

/// An arithmetic, relational or equality operator between two operands.
#[derive(Debug)]
pub struct BinaryExpr {
    pub left: Rc<Expr>,
    pub operator: Token,
    pub right: Rc<Expr>,
}

impl BinaryExpr {
    pub fn new(left: Rc<Expr>, operator: Token, right: Rc<Expr>) -> (node: BinaryExpr)
        ensures
            node == (BinaryExpr { left, operator, right }),
    {
        BinaryExpr { left, operator, right }
    }
}

/// A call; `paren` is the closing parenthesis, kept for diagnostics.
#[derive(Debug)]
pub struct CallExpr {
    pub callee: Rc<Expr>,
    pub paren: Token,
    pub arguments: Vec<Rc<Expr>>,
}

impl CallExpr {
    pub fn new(callee: Rc<Expr>, paren: Token, arguments: Vec<Rc<Expr>>) -> (node: CallExpr)
        ensures
            node == (CallExpr { callee, paren, arguments }),
    {
        CallExpr { callee, paren, arguments }
    }
}

/// An expression in parentheses.
#[derive(Debug)]
pub struct GroupingExpr {
    pub expression: Rc<Expr>,
}

impl GroupingExpr {
    pub fn new(expression: Rc<Expr>) -> (node: GroupingExpr)
        ensures
            node == (GroupingExpr { expression }),
    {
        GroupingExpr { expression }
    }
}

/// A literal value.
#[derive(Debug)]
pub struct LiteralExpr {
    pub value: Option<Literal>,
}

impl LiteralExpr {
    pub fn new(value: Option<Literal>) -> (node: LiteralExpr)
        ensures
            node == (LiteralExpr { value }),
    {
        LiteralExpr { value }
    }
}

/// `and` or `or` between two operands.
#[derive(Debug)]
pub struct LogicalExpr {
    pub left: Rc<Expr>,
    pub operator: Token,
    pub right: Rc<Expr>,
}

impl LogicalExpr {
    pub fn new(left: Rc<Expr>, operator: Token, right: Rc<Expr>) -> (node: LogicalExpr)
        ensures
            node == (LogicalExpr { left, operator, right }),
    {
        LogicalExpr { left, operator, right }
    }
}

/// `!` or `-` before an operand.
#[derive(Debug)]
pub struct UnaryExpr {
    pub operator: Token,
    pub right: Rc<Expr>,
}

impl UnaryExpr {
    pub fn new(operator: Token, right: Rc<Expr>) -> (node: UnaryExpr)
        ensures
            node == (UnaryExpr { operator, right }),
    {
        UnaryExpr { operator, right }
    }
}

/// A variable read.
#[derive(Debug)]
pub struct VariableExpr {
    pub name: Token,
}

impl VariableExpr {
    pub fn new(name: Token) -> (node: VariableExpr)
        ensures
            node == (VariableExpr { name }),
    {
        VariableExpr { name }
    }
}

/// The trees of the first `count` expressions of a list.
pub open spec fn trees_to(list: Seq<Rc<Expr>>, count: nat) -> Seq<Expression>
    decreases list, count,
{
    if count == 0 || count > list.len() {
        Seq::empty()
    } else {
        trees_to(list, (count - 1) as nat).push(list[count - 1].view())
    }
}

/// The trees of a list of expressions.
pub open spec fn trees(list: Seq<Rc<Expr>>) -> Seq<Expression>
    decreases list, list.len() + 1,
{
    trees_to(list, list.len())
}

impl Expr {
    /// The expression as a tree of plain values.
    pub open spec fn view(&self) -> Expression
        decreases self,
    {
        match self {
            Expr::Assign(node) => Expression::Assign {
                name: node.name,
                value: Box::new(node.value.view()),
            },
            Expr::Binary(node) => Expression::Binary {
                left: Box::new(node.left.view()),
                operator: node.operator,
                right: Box::new(node.right.view()),
            },
            Expr::Call(node) => Expression::Call {
                callee: Box::new(node.callee.view()),
                paren: node.paren,
                arguments: trees(node.arguments@),
            },
            Expr::Grouping(node) => Expression::Grouping {
                expression: Box::new(node.expression.view()),
            },
            Expr::Literal(node) => Expression::Literal { value: node.value },
            Expr::Logical(node) => Expression::Logical {
                left: Box::new(node.left.view()),
                operator: node.operator,
                right: Box::new(node.right.view()),
            },
            Expr::Unary(node) => Expression::Unary {
                operator: node.operator,
                right: Box::new(node.right.view()),
            },
            Expr::Variable(node) => Expression::Variable { name: node.name },
        }
    }
}

/// The trees of a list depend on no more of it than they cover.
pub proof fn lemma_trees_to(list: Seq<Rc<Expr>>, longer: Seq<Rc<Expr>>, count: nat)
    requires
        count <= list.len() <= longer.len(),
        forall|i: int| 0 <= i < count ==> list[i] == longer[i],
    ensures
        trees_to(list, count) == trees_to(longer, count),
        trees_to(list, count).len() == count,
    decreases count,
{
    if count > 0 {
        lemma_trees_to(list, longer, (count - 1) as nat);
    }
}

/// The trees of a list are the trees of its members, in order.
pub proof fn lemma_trees_index(list: Seq<Rc<Expr>>, count: nat, index: int)
    requires
        0 <= index < count <= list.len(),
    ensures
        trees_to(list, count).len() == count,
        trees_to(list, count)[index] == list[index].view(),
    decreases count,
{
    lemma_trees_to(list, list, (count - 1) as nat);
    if index < count - 1 {
        lemma_trees_index(list, (count - 1) as nat, index);
    }
}

/// The trees of a list with one more expression are the trees of the list
/// with the tree of that expression added.
pub proof fn lemma_trees_push(list: Seq<Rc<Expr>>, last: Rc<Expr>)
    ensures
        trees(list.push(last)) == trees(list).push(last.view()),
        trees(list).len() == list.len(),
{
    lemma_trees_to(list, list.push(last), list.len());
}

} // verus!
