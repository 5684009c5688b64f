use vstd::prelude::*;
use vstd::string::StringExecFns;
use std::rc::Rc;
use crate::expr::Expr;
use crate::literal::{Fragment, Literal};

verus! {

/// Writes expressions in prefix form, each operator with its operands in one
/// pair of parentheses: `1 + 2 * 3` becomes `(+ 1 (* 2 3))`.
pub struct AstPrinter {}

/// A piece of what the printer writes: text, or a number that the host has
/// yet to write in decimal.
pub enum Piece {
    Text(Seq<char>),
    Number(u64),
}

/// The piece that a fragment stands for.
pub open spec fn piece(fragment: Fragment) -> Piece {
    match fragment {
        Fragment::Text(text) => Piece::Text(text@),
        Fragment::Number(bits) => Piece::Number(bits),
    }
}

/// The pieces that a list of fragments stands for.
pub open spec fn pieces(fragments: Seq<Fragment>) -> Seq<Piece> {
    fragments.map_values(|fragment: Fragment| piece(fragment))
}

/// What a literal is written as; a missing one, as `nil`.
pub open spec fn written_literal(value: Option<Literal>) -> Piece {
    match value {
        Some(Literal::Number(bits)) => Piece::Number(bits),
        Some(literal) => Piece::Text(literal.text()),
        None => Piece::Text("nil"@),
    }
}

/// What the expressions from `from` on are written as, each behind a space.
pub open spec fn written_list(list: Seq<Rc<Expr>>, from: int) -> Seq<Piece>
    decreases list, list.len() - from,
{
    if 0 <= from < list.len() {
        seq![Piece::Text(" "@)] + written(*list[from]) + written_list(list, from + 1)
    } else {
        seq![]
    }
}

/// `(name`, each part behind a space, `)`.
pub open spec fn grouped(name: Seq<char>, parts: Seq<Piece>) -> Seq<Piece> {
    seq![Piece::Text("("@ + name)] + parts + seq![Piece::Text(")"@)]
}

/// What an expression is written as.
pub open spec fn written(expr: Expr) -> Seq<Piece>
    decreases expr,
{
    let space = seq![Piece::Text(" "@)];
    match expr {
        Expr::Assign(node) => grouped(
            "="@,
            space + seq![Piece::Text(node.name.lexeme@)] + space + written(*node.value),
        ),
        Expr::Binary(node) => grouped(
            node.operator.lexeme@,
            space + written(*node.left) + space + written(*node.right),
        ),
        Expr::Call(node) => grouped(
            "call"@,
            space + written(*node.callee) + written_list(node.arguments@, 0),
        ),
        Expr::Grouping(node) => grouped("group"@, space + written(*node.expression)),
        Expr::Literal(node) => seq![written_literal(node.value)],
        Expr::Logical(node) => grouped(
            node.operator.lexeme@,
            space + written(*node.left) + space + written(*node.right),
        ),
        Expr::Unary(node) => grouped(node.operator.lexeme@, space + written(*node.right)),
        Expr::Variable(node) => seq![Piece::Text(node.name.lexeme@)],
    }
}

impl AstPrinter {
    pub fn new() -> (printer: AstPrinter)
        ensures
            printer == (AstPrinter {  }),
    {
        AstPrinter {  }
    }

    /// Writes an expression: the pieces in order, to be put one behind the
    /// other.
    pub fn print(&mut self, expr: &Expr) -> (out: Vec<Fragment>)
        ensures
            pieces(out@) == written(*expr),
    {
        let mut out: Vec<Fragment> = Vec::new();
        assert(pieces(out@) == Seq::<Piece>::empty());
        Self::write(expr, &mut out);
        out
    }

    fn text(out: &mut Vec<Fragment>, text: String)
        ensures
            pieces(final(out)@) == pieces(old(out)@) + seq![Piece::Text(text@)],
    {
        out.push(Fragment::Text(text));
        assert(pieces(out@) =~= pieces(old(out)@) + seq![Piece::Text(text@)]);
    }

    fn open(out: &mut Vec<Fragment>, name: &str)
        ensures
            pieces(final(out)@) == pieces(old(out)@) + seq![Piece::Text("("@ + name@)],
    {
        let mut text = String::from_str("(");
        text.append(name);
        Self::text(out, text);
    }

    fn literal(out: &mut Vec<Fragment>, value: &Option<Literal>)
        ensures
            pieces(final(out)@) == pieces(old(out)@) + seq![written_literal(*value)],
    {
        match value {
            Some(literal) => {
                let shown = literal.display();
                out.push(shown);
                assert(pieces(out@) =~= pieces(old(out)@) + seq![written_literal(*value)]);
            },
            None => Self::text(out, String::from_str("nil")),
        }
    }

    fn write(expr: &Expr, out: &mut Vec<Fragment>)
        ensures
            pieces(final(out)@) == pieces(old(out)@) + written(*expr),
        decreases *expr,
    {
        match expr {
            Expr::Assign(node) => {
                assert(decreases_to!(*expr => expr->Assign_0));
                Self::open(out, "=");
                Self::text(out, String::from_str(" "));
                Self::text(out, node.name.lexeme.clone());
                Self::text(out, String::from_str(" "));
                Self::write(&node.value, out);
                Self::text(out, String::from_str(")"));
            },
            Expr::Binary(node) => {
                assert(decreases_to!(*expr => expr->Binary_0));
                Self::open(out, node.operator.lexeme.as_str());
                Self::text(out, String::from_str(" "));
                Self::write(&node.left, out);
                Self::text(out, String::from_str(" "));
                Self::write(&node.right, out);
                Self::text(out, String::from_str(")"));
            },
            Expr::Call(node) => {
                assert(decreases_to!(*expr => expr->Call_0));
                Self::open(out, "call");
                Self::text(out, String::from_str(" "));
                Self::write(&node.callee, out);
                let ghost head = pieces(out@);
                let mut index: usize = 0;
                while index < node.arguments.len()
                    invariant
                        index <= node.arguments@.len(),
                        *expr is Call,
                        expr->Call_0 == *node,
                        head + written_list(node.arguments@, 0) == pieces(out@) + written_list(
                            node.arguments@,
                            index as int,
                        ),
                    decreases node.arguments@.len() - index,
                {
                    proof {
                        assert(decreases_to!(*expr => expr->Call_0));
                        vstd::std_specs::vec::axiom_vec_index_decreases(
                            node.arguments,
                            index as int,
                        );
                    }
                    Self::text(out, String::from_str(" "));
                    Self::write(&node.arguments[index], out);
                    index += 1;
                }
                Self::text(out, String::from_str(")"));
            },
            Expr::Grouping(node) => {
                assert(decreases_to!(*expr => expr->Grouping_0));
                Self::open(out, "group");
                Self::text(out, String::from_str(" "));
                Self::write(&node.expression, out);
                Self::text(out, String::from_str(")"));
            },
            Expr::Literal(node) => Self::literal(out, &node.value),
            Expr::Logical(node) => {
                assert(decreases_to!(*expr => expr->Logical_0));
                Self::open(out, node.operator.lexeme.as_str());
                Self::text(out, String::from_str(" "));
                Self::write(&node.left, out);
                Self::text(out, String::from_str(" "));
                Self::write(&node.right, out);
                Self::text(out, String::from_str(")"));
            },
            Expr::Unary(node) => {
                assert(decreases_to!(*expr => expr->Unary_0));
                Self::open(out, node.operator.lexeme.as_str());
                Self::text(out, String::from_str(" "));
                Self::write(&node.right, out);
                Self::text(out, String::from_str(")"));
            },
            Expr::Variable(node) => Self::text(out, node.name.lexeme.clone()),
        }
    }
}

} // verus!
