use vstd::prelude::*;
use crate::grammar::{
    arguments, assignment, at_end, binary, block, block_rest, call, check, condition, declaration, expression, expression_statement, finish_call, function, if_statement, kind_at,
    more_arguments, more_calls, more_operands, more_parameters, moved, parameters, primary,
    print_statement, program, program_rest, return_statement, signature, statement, unary,
    var_declaration, while_statement, Cursor, Expression, Fault, Level, Parsed, Program,
    Statement, MAX_ARGUMENTS_COUNT,
};
use crate::literal::Literal;
use crate::token::Token;
use crate::token_type::TokenType;

verus! {

/// How tightly an expression holds together: the number of the loosest rule
/// of the grammar that yields it without parentheses, from 0 for an
/// assignment to 9 for a literal, a name or a group.
pub open spec fn rank(e: Expression) -> nat {
    match e {
        Expression::Assign { .. } => 0,
        Expression::Logical { operator, .. } => if operator.token_type == TokenType::Or {
            1
        } else {
            2
        },
        Expression::Binary { operator, .. } => if Level::Equality.has(operator.token_type) {
            3
        } else if Level::Comparison.has(operator.token_type) {
            4
        } else if Level::Term.has(operator.token_type) {
            5
        } else {
            6
        },
        Expression::Unary { .. } => 7,
        Expression::Call { .. } => 8,
        _ => 9,
    }
}

/// Whether a tree is one that the grammar yields: every operator is one of
/// its level, every operand holds together at least as tightly as its place
/// asks for, names are names, and no call has more than 255 arguments.
pub open spec fn well_formed(e: Expression) -> bool
    decreases e,
{
    match e {
        Expression::Assign { name, value } => name.token_type == TokenType::Identifier
            && well_formed(*value),
        Expression::Logical { left, operator, right } => {
            &&& operator.token_type == TokenType::Or || operator.token_type == TokenType::And
            &&& rank(*left) >= rank(e)
            &&& rank(*right) > rank(e)
            &&& well_formed(*left)
            &&& well_formed(*right)
        },
        Expression::Binary { left, operator, right } => {
            &&& Level::Equality.has(operator.token_type) || Level::Comparison.has(
                operator.token_type,
            ) || Level::Term.has(operator.token_type) || Level::Factor.has(operator.token_type)
            &&& rank(*left) >= rank(e)
            &&& rank(*right) > rank(e)
            &&& well_formed(*left)
            &&& well_formed(*right)
        },
        Expression::Unary { operator, right } => {
            &&& operator.token_type == TokenType::Bang || operator.token_type == TokenType::Minus
            &&& rank(*right) >= 7
            &&& well_formed(*right)
        },
        Expression::Call { callee, paren, arguments } => {
            &&& rank(*callee) >= 8
            &&& well_formed(*callee)
            &&& paren.token_type == TokenType::RightParen
            &&& arguments.len() <= MAX_ARGUMENTS_COUNT
            &&& forall|i: int| 0 <= i < arguments.len() ==> well_formed(#[trigger] arguments[i])
        },
        Expression::Grouping { expression } => well_formed(*expression),
        Expression::Literal { value } => true,
        Expression::Variable { name } => name.token_type == TokenType::Identifier,
    }
}

/// The number of tokens that the arguments from `from` on take, commas
/// included.
pub open spec fn list_width(list: Seq<Expression>, from: int) -> nat
    decreases list, list.len() - from,
{
    if 0 <= from < list.len() {
        width(list[from]) + list_width(list, from + 1) + if from > 0 {
            1nat
        } else {
            0nat
        }
    } else {
        0
    }
}

/// The number of tokens that spell an expression.
pub open spec fn width(e: Expression) -> nat
    decreases e,
{
    match e {
        Expression::Assign { name, value } => 2 + width(*value),
        Expression::Logical { left, operator, right } => width(*left) + 1 + width(*right),
        Expression::Binary { left, operator, right } => width(*left) + 1 + width(*right),
        Expression::Unary { operator, right } => 1 + width(*right),
        Expression::Call { callee, paren, arguments } => width(*callee) + 2 + list_width(
            arguments,
            0,
        ),
        Expression::Grouping { expression } => 2 + width(*expression),
        Expression::Literal { value } => 1,
        Expression::Variable { name } => 1,
    }
}

/// The literal that a token stands for, if it stands for one.
pub open spec fn literal_of(token: Token) -> Option<Option<Literal>> {
    match token.token_type {
        TokenType::False => Some(Some(Literal::Bool(false))),
        TokenType::True => Some(Some(Literal::Bool(true))),
        TokenType::Nil => Some(Some(Literal::Nil)),
        TokenType::Number | TokenType::String => Some(token.literal),
        _ => None,
    }
}

/// Whether the token at `at` is `token`.
pub open spec fn stands(tokens: Seq<Token>, at: int, token: Token) -> bool {
    0 <= at < tokens.len() && tokens[at] == token
}

/// Whether the tokens from `at` on spell the arguments from `from` on, each
/// but the first behind a comma.
pub open spec fn list_spelt(list: Seq<Expression>, from: int, tokens: Seq<Token>, at: int) -> bool
    decreases list, list.len() - from,
{
    if 0 <= from < list.len() {
        if from > 0 {
            &&& kind_at(tokens, at) == TokenType::Comma
            &&& spelt(list[from], tokens, at + 1)
            &&& list_spelt(list, from + 1, tokens, at + 1 + width(list[from]))
        } else {
            &&& spelt(list[from], tokens, at)
            &&& list_spelt(list, from + 1, tokens, at + width(list[from]))
        }
    } else {
        true
    }
}

/// Whether the tokens from `at` on spell the expression: its own tokens in
/// their places, with the tokens of its parts between them.
pub open spec fn spelt(e: Expression, tokens: Seq<Token>, at: int) -> bool
    decreases e,
{
    match e {
        Expression::Assign { name, value } => {
            &&& stands(tokens, at, name)
            &&& kind_at(tokens, at + 1) == TokenType::Equal
            &&& spelt(*value, tokens, at + 2)
        },
        Expression::Logical { left, operator, right } => {
            &&& spelt(*left, tokens, at)
            &&& stands(tokens, at + width(*left), operator)
            &&& spelt(*right, tokens, at + width(*left) + 1)
        },
        Expression::Binary { left, operator, right } => {
            &&& spelt(*left, tokens, at)
            &&& stands(tokens, at + width(*left), operator)
            &&& spelt(*right, tokens, at + width(*left) + 1)
        },
        Expression::Unary { operator, right } => {
            &&& stands(tokens, at, operator)
            &&& spelt(*right, tokens, at + 1)
        },
        Expression::Call { callee, paren, arguments } => {
            &&& spelt(*callee, tokens, at)
            &&& kind_at(tokens, at + width(*callee)) == TokenType::LeftParen
            &&& list_spelt(arguments, 0, tokens, at + width(*callee) + 1)
            &&& stands(tokens, at + width(e) - 1, paren)
        },
        Expression::Grouping { expression } => {
            &&& kind_at(tokens, at) == TokenType::LeftParen
            &&& spelt(*expression, tokens, at + 1)
            &&& kind_at(tokens, at + 1 + width(*expression)) == TokenType::RightParen
        },
        Expression::Literal { value } => 0 <= at < tokens.len() && literal_of(tokens[at]) == Some(
            value,
        ),
        Expression::Variable { name } => stands(tokens, at, name),
    }
}

/// Whether a token of this kind behind an expression makes the rule with the
/// given number read on: `=` behind the target of an assignment, a binary
/// operator behind its left operand, `(` behind a callee.
pub open spec fn continues(rule: nat, kind: TokenType) -> bool {
    ||| rule == 0 && kind == TokenType::Equal
    ||| rule <= 1 && Level::Or.has(kind)
    ||| rule <= 2 && Level::And.has(kind)
    ||| rule <= 3 && Level::Equality.has(kind)
    ||| rule <= 4 && Level::Comparison.has(kind)
    ||| rule <= 5 && Level::Term.has(kind)
    ||| rule <= 6 && Level::Factor.has(kind)
    ||| rule <= 8 && kind == TokenType::LeftParen
}

/// What the rule with the given number makes of the tokens from the cursor
/// on.
pub open spec fn parse_with(rule: nat, tokens: Seq<Token>, c: Cursor) -> Parsed<Expression> {
    if rule == 0 {
        expression(tokens, c)
    } else if rule == 1 {
        binary(tokens, c, Level::Or)
    } else if rule == 2 {
        binary(tokens, c, Level::And)
    } else if rule == 3 {
        binary(tokens, c, Level::Equality)
    } else if rule == 4 {
        binary(tokens, c, Level::Comparison)
    } else if rule == 5 {
        binary(tokens, c, Level::Term)
    } else if rule == 6 {
        binary(tokens, c, Level::Factor)
    } else if rule == 7 {
        unary(tokens, c)
    } else if rule == 8 {
        call(tokens, c)
    } else {
        primary(tokens, c)
    }
}

/// The level of binary operators that a rule from 1 to 6 stands for.
pub open spec fn level_of(rule: nat) -> Level {
    if rule <= 1 {
        Level::Or
    } else if rule == 2 {
        Level::And
    } else if rule == 3 {
        Level::Equality
    } else if rule == 4 {
        Level::Comparison
    } else if rule == 5 {
        Level::Term
    } else {
        Level::Factor
    }
}

/// The tokens of an expression are at least one, and all of them inside the
/// list.
pub proof fn lemma_width(e: Expression, tokens: Seq<Token>, at: int)
    requires
        spelt(e, tokens, at),
        0 <= at,
    ensures
        width(e) >= 1,
        at + width(e) <= tokens.len(),
    decreases e,
{
    match e {
        Expression::Assign { name, value } => {
            lemma_width(*value, tokens, at + 2);
        },
        Expression::Logical { left, operator, right } => {
            lemma_width(*left, tokens, at);
            lemma_width(*right, tokens, at + width(*left) + 1);
        },
        Expression::Binary { left, operator, right } => {
            lemma_width(*left, tokens, at);
            lemma_width(*right, tokens, at + width(*left) + 1);
        },
        Expression::Unary { operator, right } => {
            lemma_width(*right, tokens, at + 1);
        },
        Expression::Call { callee, paren, arguments } => {
            lemma_width(*callee, tokens, at);
        },
        Expression::Grouping { expression } => {
            lemma_width(*expression, tokens, at + 1);
        },
        Expression::Literal { value } => {},
        Expression::Variable { name } => {},
    }
}

/// An expression that holds together as tightly as a call starts with a
/// literal, a name or an opening parenthesis.
pub proof fn lemma_first(e: Expression, tokens: Seq<Token>, at: int)
    requires
        spelt(e, tokens, at),
        well_formed(e),
        rank(e) >= 8,
    ensures
        kind_at(tokens, at) != TokenType::Bang,
        kind_at(tokens, at) != TokenType::Minus,
    decreases e,
{
    match e {
        Expression::Call { callee, paren, arguments } => {
            lemma_first(*callee, tokens, at);
        },
        _ => {},
    }
}

/// The kinds of token that an expression can start with.
pub open spec fn starts_expression(kind: TokenType) -> bool {
    kind == TokenType::False || kind == TokenType::True || kind == TokenType::Nil || kind
        == TokenType::Number || kind == TokenType::String || kind == TokenType::LeftParen || kind
        == TokenType::Identifier || kind == TokenType::Bang || kind == TokenType::Minus
}

/// An expression starts with a token that starts an expression.
pub proof fn lemma_start(e: Expression, tokens: Seq<Token>, at: int)
    requires
        spelt(e, tokens, at),
        well_formed(e),
    ensures
        starts_expression(kind_at(tokens, at)),
    decreases e,
{
    match e {
        Expression::Logical { left, operator, right } => {
            lemma_start(*left, tokens, at);
        },
        Expression::Binary { left, operator, right } => {
            lemma_start(*left, tokens, at);
        },
        Expression::Call { callee, paren, arguments } => {
            lemma_start(*callee, tokens, at);
        },
        _ => {},
    }
}

/// A name that nothing follows on is read as a variable by every rule.
pub proof fn lemma_name(rule: nat, name: Token, tokens: Seq<Token>, at: int, faults: Seq<Fault>)
    requires
        rule <= 9,
        stands(tokens, at, name),
        name.token_type == TokenType::Identifier,
        !continues(rule, kind_at(tokens, at + 1)),
    ensures
        parse_with(rule, tokens, Cursor { at, faults }) == (Parsed {
            node: Some(Expression::Variable { name }),
            cursor: Cursor { at: at + 1, faults },
        }),
    decreases 10 - rule,
{
    let c = Cursor { at, faults };
    let found = Parsed { node: Some(Expression::Variable { name }), cursor: c.step() };
    if rule < 9 {
        lemma_name(rule + 1, name, tokens, at, faults);
    }
    assert(moved(tokens, c, c.step()));
    if rule == 9 {
        assert(primary(tokens, c) == found);
    } else if rule == 8 {
        assert(more_calls(tokens, c.step(), Expression::Variable { name }) == found);
        assert(call(tokens, c) == found);
    } else if rule == 7 {
        assert(unary(tokens, c) == found);
    } else if rule >= 1 {
        let level = level_of(rule);
        assert(more_operands(tokens, c.step(), level, Expression::Variable { name }) == found);
        assert(binary(tokens, c, level) == found);
    } else {
        assert(assignment(tokens, c) == found);
    }
}

/// The result of a rule that reads exactly the expression `e` from `at` on.
pub open spec fn reads(e: Expression, at: int, faults: Seq<Fault>) -> Parsed<Expression> {
    Parsed { node: Some(e), cursor: Cursor { at: at + width(e), faults } }
}

/// Reading the arguments behind the first `from` gives the whole list.
#[verifier::rlimit(40)]
pub proof fn lemma_more_arguments(
    list: Seq<Expression>,
    from: int,
    tokens: Seq<Token>,
    at: int,
    faults: Seq<Fault>,
)
    requires
        0 <= at,
        1 <= from <= list.len() <= MAX_ARGUMENTS_COUNT,
        forall|i: int| 0 <= i < list.len() ==> well_formed(#[trigger] list[i]),
        list_spelt(list, from, tokens, at),
        kind_at(tokens, at + list_width(list, from)) == TokenType::RightParen,
    ensures
        more_arguments(tokens, Cursor { at, faults }, list.take(from)) == (Parsed {
            node: Some(list),
            cursor: Cursor { at: at + list_width(list, from), faults },
        }),
    decreases list, list.len() - from, 0nat,
{
    let c = Cursor { at, faults };
    if from < list.len() {
        let e = list[from];
        let behind = at + 1 + width(e);
        lemma_width(e, tokens, at + 1);
        assert(list_spelt(list, from + 1, tokens, behind));
        if from + 1 < list.len() {
            assert(kind_at(tokens, behind) == TokenType::Comma);
        } else {
            assert(list_width(list, from + 1) == 0);
        }
        lemma_parse(0, e, tokens, at + 1, faults);
        lemma_more_arguments(list, from + 1, tokens, behind, faults);
        assert(list.take(from).push(e) == list.take(from + 1));
        assert(list.take(from).len() < MAX_ARGUMENTS_COUNT);
    } else {
        assert(list.take(from) == list);
        assert(list_width(list, from) == 0);
    }
}

/// Reading the arguments of a call gives the list that is spelt.
#[verifier::rlimit(40)]
pub proof fn lemma_arguments(list: Seq<Expression>, tokens: Seq<Token>, at: int, faults: Seq<Fault>)
    requires
        0 <= at,
        list.len() <= MAX_ARGUMENTS_COUNT,
        forall|i: int| 0 <= i < list.len() ==> well_formed(#[trigger] list[i]),
        list_spelt(list, 0, tokens, at),
        kind_at(tokens, at + list_width(list, 0)) == TokenType::RightParen,
    ensures
        arguments(tokens, Cursor { at, faults }) == (Parsed {
            node: Some(list),
            cursor: Cursor { at: at + list_width(list, 0), faults },
        }),
    decreases list, list.len() + 1, 0nat,
{
    if list.len() == 0 {
        assert(list == Seq::<Expression>::empty());
    } else {
        let e = list[0];
        lemma_start(e, tokens, at);
        lemma_width(e, tokens, at);
        assert(list_spelt(list, 1, tokens, at + width(e)));
        if 1 < list.len() {
            assert(kind_at(tokens, at + width(e)) == TokenType::Comma);
        } else {
            assert(list_width(list, 1) == 0);
        }
        lemma_parse(0, e, tokens, at, faults);
        lemma_more_arguments(list, 1, tokens, at + width(e), faults);
        assert(list.take(1) == seq![e]);
    }
}

/// Reading a call from its start comes to the calls made on it, with the
/// expression itself as the callee so far.
#[verifier::rlimit(40)]
pub proof fn lemma_calls(e: Expression, tokens: Seq<Token>, at: int, faults: Seq<Fault>)
    requires
        0 <= at,
        well_formed(e),
        rank(e) >= 8,
        spelt(e, tokens, at),
    ensures
        call(tokens, Cursor { at, faults }) == more_calls(
            tokens,
            Cursor { at: at + width(e), faults },
            e,
        ),
    decreases e, 4nat, 0nat,
{
    lemma_width(e, tokens, at);
    match e {
        Expression::Call { callee, paren, arguments } => {
            let open = at + width(*callee);
            lemma_width(*callee, tokens, at);
            lemma_calls(*callee, tokens, at, faults);
            lemma_arguments(arguments, tokens, open + 1, faults);
            let given = crate::grammar::arguments(tokens, Cursor { at: open + 1, faults });
            assert(given.cursor.at == at + width(e) - 1);
            assert(finish_call(tokens, Cursor { at: open + 1, faults }, *callee) == reads(
                e,
                at,
                faults,
            ));
        },
        _ => {
            lemma_parse(9, e, tokens, at, faults);
        },
    }
}

/// Reading one level of binary operators from the start of `e` comes to the
/// operators that follow `e`, with `e` itself as the left operand so far.
#[verifier::rlimit(40)]
pub proof fn lemma_operands(rule: nat, e: Expression, tokens: Seq<Token>, at: int, faults: Seq<Fault>)
    requires
        0 <= at,
        1 <= rule <= 6,
        well_formed(e),
        rank(e) >= rule,
        spelt(e, tokens, at),
        !continues(rule + 1, kind_at(tokens, at + width(e))),
    ensures
        binary(tokens, Cursor { at, faults }, level_of(rule)) == more_operands(
            tokens,
            Cursor { at: at + width(e), faults },
            level_of(rule),
            e,
        ),
    decreases e, 2 * (10 - rule), 0nat,
{
    let level = level_of(rule);
    lemma_width(e, tokens, at);
    if rank(e) > rule {
        lemma_parse(rule + 1, e, tokens, at, faults);
    } else {
        let (left, operator, right) = if e is Logical {
            (*e->Logical_left, e->Logical_operator, *e->Logical_right)
        } else {
            (*e->Binary_left, e->Binary_operator, *e->Binary_right)
        };
        let middle = at + width(left);
        lemma_width(left, tokens, at);
        lemma_width(right, tokens, middle + 1);
        assert(level.has(operator.token_type));
        lemma_operands(rule, left, tokens, at, faults);
        lemma_parse(rule + 1, right, tokens, middle + 1, faults);
        assert(level.join(left, operator, right) == e);
        assert(moved(
            tokens,
            Cursor { at: middle, faults },
            Cursor { at: at + width(e), faults },
        ));
    }
}

/// A literal, a name and a group are read back by the rule for them.
#[verifier::rlimit(40)]
pub proof fn lemma_primary(e: Expression, tokens: Seq<Token>, at: int, faults: Seq<Fault>)
    requires
        0 <= at,
        well_formed(e),
        rank(e) >= 9,
        spelt(e, tokens, at),
    ensures
        primary(tokens, Cursor { at, faults }) == reads(e, at, faults),
    decreases e, 2nat, 0nat,
{
    match e {
        Expression::Grouping { expression: inner } => {
            lemma_width(*inner, tokens, at + 1);
            lemma_parse(0, *inner, tokens, at + 1, faults);
        },
        _ => {},
    }
}

/// An expression that holds together as tightly as a unary one is read back
/// by the rule for unary expressions.
#[verifier::rlimit(40)]
pub proof fn lemma_unary(e: Expression, tokens: Seq<Token>, at: int, faults: Seq<Fault>)
    requires
        0 <= at,
        well_formed(e),
        rank(e) >= 7,
        spelt(e, tokens, at),
        !continues(7, kind_at(tokens, at + width(e))),
    ensures
        unary(tokens, Cursor { at, faults }) == reads(e, at, faults),
    decreases e, 6nat, 0nat,
{
    match e {
        Expression::Unary { operator, right } => {
            lemma_parse(7, *right, tokens, at + 1, faults);
        },
        _ => {
            lemma_first(e, tokens, at);
            lemma_parse(8, e, tokens, at, faults);
        },
    }
}

/// Every expression is read back by the rule for assignments.
#[verifier::rlimit(40)]
pub proof fn lemma_assignment(e: Expression, tokens: Seq<Token>, at: int, faults: Seq<Fault>)
    requires
        0 <= at,
        well_formed(e),
        spelt(e, tokens, at),
        !continues(0, kind_at(tokens, at + width(e))),
    ensures
        assignment(tokens, Cursor { at, faults }) == reads(e, at, faults),
    decreases e, 20nat, 0nat,
{
    lemma_width(e, tokens, at);
    match e {
        Expression::Assign { name, value } => {
            lemma_name(1, name, tokens, at, faults);
            lemma_width(*value, tokens, at + 2);
            lemma_parse(0, *value, tokens, at + 2, faults);
        },
        _ => {
            lemma_parse(1, e, tokens, at, faults);
        },
    }
}

/// Parsing gives back the tree. Where the tokens from `at` on spell a tree
/// that the grammar yields, and the token behind them does not make the rule
/// read on, the rule reads exactly these tokens, reports nothing, and the
/// tree is its result.
pub proof fn lemma_parse(rule: nat, e: Expression, tokens: Seq<Token>, at: int, faults: Seq<Fault>)
    requires
        0 <= at,
        rule <= 9,
        well_formed(e),
        rank(e) >= rule,
        spelt(e, tokens, at),
        !continues(rule, kind_at(tokens, at + width(e))),
    ensures
        parse_with(rule, tokens, Cursor { at, faults }) == reads(e, at, faults),
    decreases e, 2 * (10 - rule) + 1, 0nat,
{
    if rule == 9 {
        lemma_primary(e, tokens, at, faults);
    } else if rule == 8 {
        lemma_calls(e, tokens, at, faults);
    } else if rule == 7 {
        lemma_unary(e, tokens, at, faults);
    } else if rule >= 1 {
        lemma_operands(rule, e, tokens, at, faults);
    } else {
        lemma_assignment(e, tokens, at, faults);
    }
}

/// Whether a statement is one that can stand where the grammar asks for a
/// statement: everything but a declaration.
pub open spec fn simple(s: Statement) -> bool {
    !(s is Var) && !(s is Function)
}

/// Whether a statement ends in an `if` without `else`, so that an `else`
/// behind it would be taken for its own.
pub open spec fn dangling(s: Statement) -> bool
    decreases s,
{
    match s {
        Statement::If { condition, then_branch, else_branch } => match else_branch {
            Some(other) => dangling(*other),
            None => true,
        },
        Statement::While { condition, body } => dangling(*body),
        _ => false,
    }
}

/// Whether every statement from `from` on is one that the grammar yields.
pub open spec fn all_well_formed(list: Seq<Statement>, from: int) -> bool
    decreases list, list.len() - from,
{
    if 0 <= from < list.len() {
        statement_well_formed(list[from]) && all_well_formed(list, from + 1)
    } else {
        true
    }
}

/// Whether a statement is one that the grammar yields: its expressions are,
/// the branches of `if` and the body of `while` are statements and no
/// declarations, the branch before an `else` does not end in an `if` without
/// one, and names are names.
pub open spec fn statement_well_formed(s: Statement) -> bool
    decreases s,
{
    match s {
        Statement::Block { statements } => all_well_formed(statements, 0),
        Statement::Expression { expression } => well_formed(expression),
        Statement::Function { name, params, body } => {
            &&& name.token_type == TokenType::Identifier
            &&& params.len() <= MAX_ARGUMENTS_COUNT
            &&& forall|i: int|
                0 <= i < params.len() ==> (#[trigger] params[i]).token_type
                    == TokenType::Identifier
            &&& all_well_formed(body, 0)
        },
        Statement::If { condition, then_branch, else_branch } => {
            &&& well_formed(condition)
            &&& simple(*then_branch)
            &&& statement_well_formed(*then_branch)
            &&& match else_branch {
                Some(other) => simple(*other) && statement_well_formed(*other) && !dangling(
                    *then_branch,
                ),
                None => true,
            }
        },
        Statement::Print { expression } => well_formed(expression),
        Statement::Return { keyword, value } => keyword.token_type == TokenType::Return && match value {
            Some(expression) => well_formed(expression),
            None => true,
        },
        Statement::Var { name, initializer } => name.token_type == TokenType::Identifier && match initializer {
            Some(expression) => well_formed(expression),
            None => true,
        },
        Statement::While { condition, body } => well_formed(condition) && simple(*body)
            && statement_well_formed(*body),
    }
}

/// The number of tokens that the statements from `from` on take.
pub open spec fn statements_width(list: Seq<Statement>, from: int) -> nat
    decreases list, list.len() - from,
{
    if 0 <= from < list.len() {
        statement_width(list[from]) + statements_width(list, from + 1)
    } else {
        0
    }
}

/// The number of tokens that a list of parameters takes, commas included.
pub open spec fn parameters_width(count: nat) -> nat {
    if count == 0 {
        0
    } else {
        (2 * count - 1) as nat
    }
}

/// The number of tokens that spell a statement.
pub open spec fn statement_width(s: Statement) -> nat
    decreases s,
{
    match s {
        Statement::Block { statements } => 2 + statements_width(statements, 0),
        Statement::Expression { expression } => width(expression) + 1,
        Statement::Function { name, params, body } => 6 + parameters_width(params.len())
            + statements_width(body, 0),
        Statement::If { condition, then_branch, else_branch } => 3 + width(condition)
            + statement_width(*then_branch) + match else_branch {
            Some(other) => 1 + statement_width(*other),
            None => 0,
        },
        Statement::Print { expression } => 2 + width(expression),
        Statement::Return { keyword, value } => 2 + match value {
            Some(expression) => width(expression),
            None => 0,
        },
        Statement::Var { name, initializer } => 3 + match initializer {
            Some(expression) => 1 + width(expression),
            None => 0,
        },
        Statement::While { condition, body } => 3 + width(condition) + statement_width(*body),
    }
}

/// Whether the tokens from `at` on spell the statements from `from` on, one
/// behind the other.
pub open spec fn statements_spelt(list: Seq<Statement>, from: int, tokens: Seq<Token>, at: int) -> bool
    decreases list, list.len() - from,
{
    if 0 <= from < list.len() {
        statement_spelt(list[from], tokens, at) && statements_spelt(
            list,
            from + 1,
            tokens,
            at + statement_width(list[from]),
        )
    } else {
        true
    }
}

/// Whether the tokens from `at` on are the parameters from `from` on, each
/// but the first behind a comma.
pub open spec fn parameters_spelt(params: Seq<Token>, from: int, tokens: Seq<Token>, at: int) -> bool
    decreases params.len() - from,
{
    if 0 <= from < params.len() {
        if from > 0 {
            kind_at(tokens, at) == TokenType::Comma && stands(tokens, at + 1, params[from])
                && parameters_spelt(params, from + 1, tokens, at + 2)
        } else {
            stands(tokens, at, params[from]) && parameters_spelt(params, from + 1, tokens, at + 1)
        }
    } else {
        true
    }
}

/// Whether the tokens from `at` on spell the statement: its keywords and
/// punctuation in their places, with the tokens of its parts between them.
pub open spec fn statement_spelt(s: Statement, tokens: Seq<Token>, at: int) -> bool
    decreases s,
{
    match s {
        Statement::Block { statements } => {
            &&& kind_at(tokens, at) == TokenType::LeftBrace
            &&& statements_spelt(statements, 0, tokens, at + 1)
            &&& kind_at(tokens, at + 1 + statements_width(statements, 0)) == TokenType::RightBrace
        },
        Statement::Expression { expression } => {
            &&& spelt(expression, tokens, at)
            &&& kind_at(tokens, at + width(expression)) == TokenType::Semicolon
        },
        Statement::Function { name, params, body } => {
            let open = at + 3 + parameters_width(params.len());
            &&& kind_at(tokens, at) == TokenType::Fun
            &&& stands(tokens, at + 1, name)
            &&& kind_at(tokens, at + 2) == TokenType::LeftParen
            &&& parameters_spelt(params, 0, tokens, at + 3)
            &&& kind_at(tokens, open) == TokenType::RightParen
            &&& kind_at(tokens, open + 1) == TokenType::LeftBrace
            &&& statements_spelt(body, 0, tokens, open + 2)
            &&& kind_at(tokens, open + 2 + statements_width(body, 0)) == TokenType::RightBrace
        },
        Statement::If { condition, then_branch, else_branch } => {
            let then = at + 3 + width(condition);
            &&& kind_at(tokens, at) == TokenType::If
            &&& kind_at(tokens, at + 1) == TokenType::LeftParen
            &&& spelt(condition, tokens, at + 2)
            &&& kind_at(tokens, then - 1) == TokenType::RightParen
            &&& statement_spelt(*then_branch, tokens, then)
            &&& match else_branch {
                Some(other) => {
                    &&& kind_at(tokens, then + statement_width(*then_branch)) == TokenType::Else
                    &&& statement_spelt(*other, tokens, then + statement_width(*then_branch) + 1)
                },
                None => true,
            }
        },
        Statement::Print { expression } => {
            &&& kind_at(tokens, at) == TokenType::Print
            &&& spelt(expression, tokens, at + 1)
            &&& kind_at(tokens, at + 1 + width(expression)) == TokenType::Semicolon
        },
        Statement::Return { keyword, value } => {
            &&& stands(tokens, at, keyword)
            &&& match value {
                Some(expression) => spelt(expression, tokens, at + 1) && kind_at(
                    tokens,
                    at + 1 + width(expression),
                ) == TokenType::Semicolon,
                None => kind_at(tokens, at + 1) == TokenType::Semicolon,
            }
        },
        Statement::Var { name, initializer } => {
            &&& kind_at(tokens, at) == TokenType::Var
            &&& stands(tokens, at + 1, name)
            &&& match initializer {
                Some(expression) => {
                    &&& kind_at(tokens, at + 2) == TokenType::Equal
                    &&& spelt(expression, tokens, at + 3)
                    &&& kind_at(tokens, at + 3 + width(expression)) == TokenType::Semicolon
                },
                None => kind_at(tokens, at + 2) == TokenType::Semicolon,
            }
        },
        Statement::While { condition, body } => {
            let then = at + 3 + width(condition);
            &&& kind_at(tokens, at) == TokenType::While
            &&& kind_at(tokens, at + 1) == TokenType::LeftParen
            &&& spelt(condition, tokens, at + 2)
            &&& kind_at(tokens, then - 1) == TokenType::RightParen
            &&& statement_spelt(*body, tokens, then)
        },
    }
}

/// The result of a rule that reads exactly the statement `s` from `at` on.
pub open spec fn reads_statement(s: Statement, at: int, faults: Seq<Fault>) -> Parsed<Statement> {
    Parsed { node: Some(s), cursor: Cursor { at: at + statement_width(s), faults } }
}

/// The kinds of token that a statement can start with.
pub open spec fn starts_statement(kind: TokenType) -> bool {
    starts_expression(kind) || kind == TokenType::LeftBrace || kind == TokenType::Fun || kind
        == TokenType::If || kind == TokenType::Print || kind == TokenType::Return || kind
        == TokenType::Var || kind == TokenType::While
}

/// A statement starts with a token that starts a statement, and its tokens
/// are inside the list.
pub proof fn lemma_statement_start(s: Statement, tokens: Seq<Token>, at: int)
    requires
        0 <= at,
        statement_spelt(s, tokens, at),
        statement_well_formed(s),
    ensures
        starts_statement(kind_at(tokens, at)),
        s is Expression ==> starts_expression(kind_at(tokens, at)),
        statement_width(s) >= 1,
    decreases s,
{
    match s {
        Statement::Expression { expression } => {
            lemma_start(expression, tokens, at);
        },
        _ => {},
    }
}

/// The tokens of a statement are inside the list.
pub proof fn lemma_inside(s: Statement, tokens: Seq<Token>, at: int)
    requires
        0 <= at,
        statement_spelt(s, tokens, at),
    ensures
        at + statement_width(s) <= tokens.len(),
    decreases s,
{
    match s {
        Statement::Expression { expression } => {
            lemma_width(expression, tokens, at);
        },
        Statement::If { condition, then_branch, else_branch } => {
            match else_branch {
                Some(other) => {
                    lemma_inside(
                        *other,
                        tokens,
                        at + 4 + width(condition) + statement_width(*then_branch),
                    );
                },
                None => {
                    lemma_width(condition, tokens, at + 2);
                    lemma_inside(*then_branch, tokens, at + 3 + width(condition));
                },
            }
        },
        Statement::Print { expression } => {
            lemma_width(expression, tokens, at + 1);
        },
        Statement::Return { keyword, value } => {
            match value {
                Some(e) => {
                    lemma_width(e, tokens, at + 1);
                },
                None => {},
            }
        },
        Statement::Var { name, initializer } => {
            match initializer {
                Some(e) => {
                    lemma_width(e, tokens, at + 3);
                },
                None => {},
            }
        },
        Statement::While { condition, body } => {
            lemma_width(condition, tokens, at + 2);
            lemma_inside(*body, tokens, at + 3 + width(condition));
        },
        _ => {},
    }
}

/// Reading the parameters behind the first `from` gives the whole list.
pub proof fn lemma_more_parameters(
    params: Seq<Token>,
    from: int,
    tokens: Seq<Token>,
    at: int,
    faults: Seq<Fault>,
)
    requires
        0 <= at,
        1 <= from <= params.len() <= MAX_ARGUMENTS_COUNT,
        forall|i: int|
            0 <= i < params.len() ==> (#[trigger] params[i]).token_type == TokenType::Identifier,
        parameters_spelt(params, from, tokens, at),
        kind_at(tokens, at + 2 * (params.len() - from)) == TokenType::RightParen,
    ensures
        more_parameters(tokens, Cursor { at, faults }, params.take(from)) == (Parsed {
            node: Some(params),
            cursor: Cursor { at: at + 2 * (params.len() - from), faults },
        }),
    decreases params.len() - from,
{
    if from < params.len() {
        lemma_more_parameters(params, from + 1, tokens, at + 2, faults);
        assert(params.take(from).push(params[from]) == params.take(from + 1));
        assert(params.take(from).len() < MAX_ARGUMENTS_COUNT);
    } else {
        assert(params.take(from) == params);
    }
}

/// Reading the head of a function declaration gives its name and its
/// parameters.
pub proof fn lemma_signature(
    name: Token,
    params: Seq<Token>,
    tokens: Seq<Token>,
    at: int,
    faults: Seq<Fault>,
)
    requires
        0 <= at,
        name.token_type == TokenType::Identifier,
        params.len() <= MAX_ARGUMENTS_COUNT,
        forall|i: int|
            0 <= i < params.len() ==> (#[trigger] params[i]).token_type == TokenType::Identifier,
        stands(tokens, at, name),
        kind_at(tokens, at + 1) == TokenType::LeftParen,
        parameters_spelt(params, 0, tokens, at + 2),
        kind_at(tokens, at + 2 + parameters_width(params.len())) == TokenType::RightParen,
    ensures
        signature(tokens, Cursor { at, faults }, "function"@) == (Parsed {
            node: Some((name, params)),
            cursor: Cursor { at: at + 3 + parameters_width(params.len()), faults },
        }),
{
    let c = Cursor { at: at + 2, faults };
    if params.len() == 0 {
        assert(params == Seq::<Token>::empty());
    } else {
        lemma_more_parameters(params, 1, tokens, at + 3, faults);
        assert(params.take(1) == seq![params[0]]);
        assert(parameters_spelt(params, 1, tokens, at + 3));
    }
    assert(parameters(tokens, c) == (Parsed {
        node: Some(params),
        cursor: Cursor { at: at + 3 + parameters_width(params.len()), faults },
    }));
}

/// Reading the condition of an `if` or a `while` gives the expression in
/// the parentheses.
pub proof fn lemma_condition(
    e: Expression,
    tokens: Seq<Token>,
    at: int,
    faults: Seq<Fault>,
    before: Seq<char>,
    after: Seq<char>,
)
    requires
        0 <= at,
        well_formed(e),
        kind_at(tokens, at) == TokenType::LeftParen,
        spelt(e, tokens, at + 1),
        kind_at(tokens, at + 1 + width(e)) == TokenType::RightParen,
    ensures
        condition(tokens, Cursor { at, faults }, before, after) == (Parsed {
            node: Some(e),
            cursor: Cursor { at: at + 2 + width(e), faults },
        }),
{
    lemma_parse(0, e, tokens, at + 1, faults);
}

/// Reading the statements of a block behind the first `from` gives the
/// whole list.
#[verifier::rlimit(40)]
pub proof fn lemma_block_rest(
    list: Seq<Statement>,
    from: int,
    tokens: Seq<Token>,
    at: int,
    faults: Seq<Fault>,
)
    requires
        0 <= at,
        0 <= from <= list.len(),
        all_well_formed(list, from),
        statements_spelt(list, from, tokens, at),
        kind_at(tokens, at + statements_width(list, from)) == TokenType::RightBrace,
    ensures
        block_rest(tokens, Cursor { at, faults }, list.take(from)) == (Parsed {
            node: Some(list),
            cursor: Cursor { at: at + statements_width(list, from) + 1, faults },
        }),
    decreases list, list.len() - from, 0nat,
{
    if from < list.len() {
        let s = list[from];
        let behind = at + statement_width(s);
        lemma_statement_start(s, tokens, at);
        assert(statements_spelt(list, from + 1, tokens, behind));
        assert(all_well_formed(list, from + 1));
        if from + 1 < list.len() {
            lemma_statement_start(list[from + 1], tokens, behind);
        } else {
            assert(statements_width(list, from + 1) == 0);
        }
        lemma_declaration(s, tokens, at, faults);
        lemma_block_rest(list, from + 1, tokens, behind, faults);
        assert(list.take(from).push(s) == list.take(from + 1));
    } else {
        assert(list.take(from) == list);
        assert(statements_width(list, from) == 0);
    }
}

/// A variable declaration is read back.
pub proof fn lemma_var(s: Statement, tokens: Seq<Token>, at: int, faults: Seq<Fault>)
    requires
        0 <= at,
        s is Var,
        statement_well_formed(s),
        statement_spelt(s, tokens, at),
    ensures
        var_declaration(tokens, Cursor { at: at + 1, faults }) == reads_statement(s, at, faults),
{
    match s {
        Statement::Var { name, initializer: Some(e) } => {
            lemma_parse(0, e, tokens, at + 3, faults);
        },
        _ => {},
    }
}

/// An expression statement is read back.
pub proof fn lemma_expression_statement(s: Statement, tokens: Seq<Token>, at: int, faults: Seq<Fault>)
    requires
        0 <= at,
        s is Expression,
        statement_well_formed(s),
        statement_spelt(s, tokens, at),
    ensures
        expression_statement(tokens, Cursor { at, faults }) == reads_statement(s, at, faults),
{
    match s {
        Statement::Expression { expression } => {
            lemma_parse(0, expression, tokens, at, faults);
        },
        _ => {},
    }
}

/// A print statement is read back.
pub proof fn lemma_print(s: Statement, tokens: Seq<Token>, at: int, faults: Seq<Fault>)
    requires
        0 <= at,
        s is Print,
        statement_well_formed(s),
        statement_spelt(s, tokens, at),
    ensures
        print_statement(tokens, Cursor { at: at + 1, faults }) == reads_statement(s, at, faults),
{
    match s {
        Statement::Print { expression } => {
            lemma_parse(0, expression, tokens, at + 1, faults);
        },
        _ => {},
    }
}

/// A return statement is read back.
pub proof fn lemma_return(s: Statement, tokens: Seq<Token>, at: int, faults: Seq<Fault>)
    requires
        0 <= at,
        s is Return,
        statement_well_formed(s),
        statement_spelt(s, tokens, at),
    ensures
        return_statement(tokens, Cursor { at: at + 1, faults }, tokens[at]) == reads_statement(
            s,
            at,
            faults,
        ),
{
    match s {
        Statement::Return { keyword, value: Some(e) } => {
            lemma_start(e, tokens, at + 1);
            lemma_parse(0, e, tokens, at + 1, faults);
        },
        _ => {},
    }
}

/// A function declaration is read back.
#[verifier::rlimit(40)]
pub proof fn lemma_function(s: Statement, tokens: Seq<Token>, at: int, faults: Seq<Fault>)
    requires
        0 <= at,
        s is Function,
        statement_well_formed(s),
        statement_spelt(s, tokens, at),
    ensures
        function(tokens, Cursor { at: at + 1, faults }, "function"@) == reads_statement(
            s,
            at,
            faults,
        ),
    decreases s, 0nat, 0nat,
{
    match s {
        Statement::Function { name, params, body } => {
            let open = at + 3 + parameters_width(params.len());
            lemma_signature(name, params, tokens, at + 1, faults);
            lemma_block(body, tokens, open + 2, faults);
        },
        _ => {},
    }
}

/// The condition and the first branch of an `if` statement are read back.
#[verifier::rlimit(40)]
pub proof fn lemma_if_then(s: Statement, tokens: Seq<Token>, at: int, faults: Seq<Fault>)
    requires
        0 <= at,
        s is If,
        statement_well_formed(s),
        statement_spelt(s, tokens, at),
        dangling(s) ==> kind_at(tokens, at + statement_width(s)) != TokenType::Else,
    ensures
        condition(
            tokens,
            Cursor { at: at + 1, faults },
            "Expect '(' after 'if'."@,
            "Expect ')' after if condition."@,
        ) == (Parsed {
            node: Some(s->If_condition),
            cursor: Cursor { at: at + 3 + width(s->If_condition), faults },
        }),
        statement(tokens, Cursor { at: at + 3 + width(s->If_condition), faults })
            == reads_statement(*s->If_then_branch, at + 3 + width(s->If_condition), faults),
        at + 3 + width(s->If_condition) + statement_width(*s->If_then_branch) <= tokens.len(),
        statement_width(*s->If_then_branch) >= 1,
    decreases s, 0nat, 0nat,
{
    let test = s->If_condition;
    let then_branch = *s->If_then_branch;
    let then = at + 3 + width(test);
    lemma_width(test, tokens, at + 2);
    lemma_condition(
        test,
        tokens,
        at + 1,
        faults,
        "Expect '(' after 'if'."@,
        "Expect ')' after if condition."@,
    );
    lemma_statement_start(then_branch, tokens, then);
    lemma_inside(then_branch, tokens, then);
    lemma_statement(then_branch, tokens, then, faults);
}

/// An `if` statement is made of what its parts are read as.
pub proof fn lemma_if_parts(
    tokens: Seq<Token>,
    c: Cursor,
    test: Expression,
    then_branch: Statement,
    else_branch: Option<Box<Statement>>,
    first: Cursor,
    second: Cursor,
    third: Cursor,
)
    requires
        condition(tokens, c, "Expect '(' after 'if'."@, "Expect ')' after if condition."@)
            == (Parsed { node: Some(test), cursor: first }),
        moved(tokens, c, first),
        statement(tokens, first) == (Parsed { node: Some(then_branch), cursor: second }),
        moved(tokens, c, second),
        match else_branch {
            Some(other) => check(tokens, second, TokenType::Else) && statement(
                tokens,
                second.step(),
            ) == (Parsed { node: Some(*other), cursor: third }),
            None => !check(tokens, second, TokenType::Else) && third == second,
        },
    ensures
        if_statement(tokens, c) == (Parsed {
            node: Some(
                Statement::If { condition: test, then_branch: Box::new(then_branch), else_branch },
            ),
            cursor: third,
        }),
{
}

/// The second branch of an `if` statement is read back, where there is one;
/// where there is none, no `else` follows.
#[verifier::rlimit(40)]
pub proof fn lemma_if_else(s: Statement, tokens: Seq<Token>, at: int, faults: Seq<Fault>)
    requires
        0 <= at,
        s is If,
        statement_well_formed(s),
        statement_spelt(s, tokens, at),
        dangling(s) ==> kind_at(tokens, at + statement_width(s)) != TokenType::Else,
    ensures
        ({
            let behind = at + 3 + width(s->If_condition) + statement_width(*s->If_then_branch);
            match s->If_else_branch {
                Some(other) => {
                    &&& kind_at(tokens, behind) == TokenType::Else
                    &&& statement(tokens, Cursor { at: behind + 1, faults }) == (Parsed {
                        node: Some(*other),
                        cursor: Cursor { at: at + statement_width(s), faults },
                    })
                },
                None => kind_at(tokens, behind) != TokenType::Else && behind == at
                    + statement_width(s),
            }
        }),
    decreases s, 0nat, 0nat,
{
    let behind = at + 3 + width(s->If_condition) + statement_width(*s->If_then_branch);
    match s->If_else_branch {
        Some(other) => {
            lemma_statement(*other, tokens, behind + 1, faults);
        },
        None => {},
    }
}

/// An `if` statement is read back.
#[verifier::rlimit(40)]
pub proof fn lemma_if(s: Statement, tokens: Seq<Token>, at: int, faults: Seq<Fault>)
    requires
        0 <= at,
        s is If,
        statement_well_formed(s),
        statement_spelt(s, tokens, at),
        dangling(s) ==> kind_at(tokens, at + statement_width(s)) != TokenType::Else,
    ensures
        if_statement(tokens, Cursor { at: at + 1, faults }) == reads_statement(s, at, faults),
    decreases s, 1nat, 0nat,
{
    let test = s->If_condition;
    let then_branch = *s->If_then_branch;
    let else_branch = s->If_else_branch;
    let then = at + 3 + width(test);
    let behind = then + statement_width(then_branch);
    lemma_if_then(s, tokens, at, faults);
    lemma_if_else(s, tokens, at, faults);
    lemma_if_parts(
        tokens,
        Cursor { at: at + 1, faults },
        test,
        then_branch,
        else_branch,
        Cursor { at: then, faults },
        Cursor { at: behind, faults },
        Cursor { at: at + statement_width(s), faults },
    );
}

/// A `while` statement is read back.
#[verifier::rlimit(40)]
pub proof fn lemma_while(s: Statement, tokens: Seq<Token>, at: int, faults: Seq<Fault>)
    requires
        0 <= at,
        s is While,
        statement_well_formed(s),
        statement_spelt(s, tokens, at),
        dangling(s) ==> kind_at(tokens, at + statement_width(s)) != TokenType::Else,
    ensures
        while_statement(tokens, Cursor { at: at + 1, faults }) == reads_statement(s, at, faults),
    decreases s, 0nat, 0nat,
{
    match s {
        Statement::While { condition: test, body } => {
            let then = at + 3 + width(test);
            lemma_width(test, tokens, at + 2);
            lemma_condition(
                test,
                tokens,
                at + 1,
                faults,
                "Expect '(' after 'while'."@,
                "Expect ')' after condition."@,
            );
            lemma_statement(*body, tokens, then, faults);
        },
        _ => {},
    }
}

/// The statements of a block and its closing brace are read back.
pub proof fn lemma_block(list: Seq<Statement>, tokens: Seq<Token>, at: int, faults: Seq<Fault>)
    requires
        0 <= at,
        all_well_formed(list, 0),
        statements_spelt(list, 0, tokens, at),
        kind_at(tokens, at + statements_width(list, 0)) == TokenType::RightBrace,
    ensures
        block(tokens, Cursor { at, faults }) == (Parsed {
            node: Some(list),
            cursor: Cursor { at: at + statements_width(list, 0) + 1, faults },
        }),
    decreases list, list.len() + 1, 0nat,
{
    lemma_block_rest(list, 0, tokens, at, faults);
    assert(list.take(0) == Seq::<Statement>::empty());
}

/// Parsing gives back the statement. Where the tokens from `at` on spell a
/// statement that the grammar yields, and no `else` follows one that ends in
/// an `if` without `else`, a declaration reads exactly these tokens, reports
/// nothing, and the statement is its result.
#[verifier::rlimit(40)]
pub proof fn lemma_declaration(s: Statement, tokens: Seq<Token>, at: int, faults: Seq<Fault>)
    requires
        0 <= at,
        statement_well_formed(s),
        statement_spelt(s, tokens, at),
        dangling(s) ==> kind_at(tokens, at + statement_width(s)) != TokenType::Else,
    ensures
        declaration(tokens, Cursor { at, faults }) == reads_statement(s, at, faults),
    decreases s, 3nat, 0nat,
{
    let c = Cursor { at, faults };
    lemma_statement_start(s, tokens, at);
    let found = if check(tokens, c, TokenType::Var) {
        var_declaration(tokens, c.step())
    } else if check(tokens, c, TokenType::Fun) {
        function(tokens, c.step(), "function"@)
    } else {
        statement(tokens, c)
    };
    assert(found == reads_statement(s, at, faults)) by {
        if s is Var {
            lemma_var(s, tokens, at, faults);
        } else if s is Function {
            lemma_function(s, tokens, at, faults);
        } else {
            lemma_statement(s, tokens, at, faults);
        }
    }
}

/// Parsing gives back the statement, where a statement and no declaration
/// is asked for.
#[verifier::rlimit(40)]
pub proof fn lemma_statement(s: Statement, tokens: Seq<Token>, at: int, faults: Seq<Fault>)
    requires
        0 <= at,
        simple(s),
        statement_well_formed(s),
        statement_spelt(s, tokens, at),
        dangling(s) ==> kind_at(tokens, at + statement_width(s)) != TokenType::Else,
    ensures
        statement(tokens, Cursor { at, faults }) == reads_statement(s, at, faults),
    decreases s, 2nat, 0nat,
{
    let c = Cursor { at, faults };
    lemma_statement_start(s, tokens, at);
    if s is Block {
        lemma_block(s->Block_statements, tokens, at + 1, faults);
    } else if s is Expression {
        lemma_expression_statement(s, tokens, at, faults);
    } else if s is If {
        lemma_if(s, tokens, at, faults);
    } else if s is Print {
        lemma_print(s, tokens, at, faults);
    } else if s is Return {
        lemma_return(s, tokens, at, faults);
    } else if s is While {
        lemma_while(s, tokens, at, faults);
    }
}

/// Reading the rest of a program behind its first `from` statements gives
/// the whole list.
#[verifier::rlimit(40)]
pub proof fn lemma_program_rest(
    list: Seq<Statement>,
    from: int,
    tokens: Seq<Token>,
    at: int,
    faults: Seq<Fault>,
)
    requires
        0 <= at,
        0 <= from <= list.len(),
        all_well_formed(list, from),
        statements_spelt(list, from, tokens, at),
        at_end(tokens, at + statements_width(list, from)),
    ensures
        program_rest(tokens, Cursor { at, faults }, list.take(from)) == (Program {
            statements: list,
            faults,
        }),
    decreases list.len() - from,
{
    if from < list.len() {
        let s = list[from];
        let behind = at + statement_width(s);
        lemma_statement_start(s, tokens, at);
        assert(statements_spelt(list, from + 1, tokens, behind));
        assert(all_well_formed(list, from + 1));
        if from + 1 < list.len() {
            lemma_statement_start(list[from + 1], tokens, behind);
        } else {
            assert(statements_width(list, from + 1) == 0);
        }
        lemma_declaration(s, tokens, at, faults);
        lemma_program_rest(list, from + 1, tokens, behind, faults);
        assert(list.take(from).push(s) == list.take(from + 1));
        lemma_inside(s, tokens, at);
    } else {
        assert(list.take(from) == list);
        assert(statements_width(list, from) == 0);
    }
}

/// Parsing gives back the program. Where a token list spells statements
/// that the grammar yields, one behind the other up to the end of input,
/// parsing it reports nothing, and the statements are its result.
pub proof fn lemma_program(list: Seq<Statement>, tokens: Seq<Token>)
    requires
        all_well_formed(list, 0),
        statements_spelt(list, 0, tokens, 0),
        at_end(tokens, statements_width(list, 0) as int),
    ensures
        program(tokens) == (Program { statements: list, faults: Seq::empty() }),
{
    lemma_program_rest(list, 0, tokens, 0, Seq::empty());
    assert(list.take(0) == Seq::<Statement>::empty());
}

} // verus!
