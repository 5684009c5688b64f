use vstd::prelude::*;
use crate::literal::Literal;
use crate::token::Token;
use crate::token_type::TokenType;

verus! {

/// An expression as a tree of plain values: what `Expr` holds, with its lists
/// as sequences.
#[allow(inconsistent_fields)]
pub enum Expression {
    Assign { name: Token, value: Box<Expression> },
    Binary { left: Box<Expression>, operator: Token, right: Box<Expression> },
    Call { callee: Box<Expression>, paren: Token, arguments: Seq<Expression> },
    Grouping { expression: Box<Expression> },
    Literal { value: Option<Literal> },
    Logical { left: Box<Expression>, operator: Token, right: Box<Expression> },
    Unary { operator: Token, right: Box<Expression> },
    Variable { name: Token },
}

/// A statement as a tree of plain values: what `Stmt` holds, with its lists as
/// sequences.
#[allow(inconsistent_fields)]
pub enum Statement {
    Block { statements: Seq<Statement> },
    Expression { expression: Expression },
    Function { name: Token, params: Seq<Token>, body: Seq<Statement> },
    If { condition: Expression, then_branch: Box<Statement>, else_branch: Option<Box<Statement>> },
    Print { expression: Expression },
    Return { keyword: Token, value: Option<Expression> },
    Var { name: Token, initializer: Option<Expression> },
    While { condition: Expression, body: Box<Statement> },
}

/// A syntax error: the index of the token it is reported at, and the message.
pub struct Fault {
    pub at: int,
    pub message: Seq<char>,
}

/// Where the parser stands: the index of the next token, and the errors
/// reported so far.
pub struct Cursor {
    pub at: int,
    pub faults: Seq<Fault>,
}

impl Cursor {
    /// The cursor one token further.
    pub open spec fn step(self) -> Cursor {
        Cursor { at: self.at + 1, faults: self.faults }
    }

    /// The cursor after an error was reported at token `at`.
    pub open spec fn blame(self, at: int, message: Seq<char>) -> Cursor {
        Cursor { at: self.at, faults: self.faults.push(Fault { at, message }) }
    }
}

/// What parsing one construct gives: its tree, or none where it ended in an
/// error, and the cursor behind it.
pub struct Parsed<T> {
    pub node: Option<T>,
    pub cursor: Cursor,
}

/// The binary operators by precedence, loosest first.
pub enum Level {
    Or,
    And,
    Equality,
    Comparison,
    Term,
    Factor,
}

impl Level {
    pub open spec fn index(self) -> nat {
        match self {
            Level::Or => 0,
            Level::And => 1,
            Level::Equality => 2,
            Level::Comparison => 3,
            Level::Term => 4,
            Level::Factor => 5,
        }
    }

    /// The level that binds next tighter; the operands of `Factor` are unary
    /// expressions.
    pub open spec fn tighter(self) -> Level {
        match self {
            Level::Or => Level::And,
            Level::And => Level::Equality,
            Level::Equality => Level::Comparison,
            Level::Comparison => Level::Term,
            _ => Level::Factor,
        }
    }

    /// Whether a token of this kind is an operator of the level.
    pub open spec fn has(self, kind: TokenType) -> bool {
        match self {
            Level::Or => kind == TokenType::Or,
            Level::And => kind == TokenType::And,
            Level::Equality => kind == TokenType::BangEqual || kind == TokenType::EqualEqual,
            Level::Comparison => kind == TokenType::Greater || kind == TokenType::GreaterEqual
                || kind == TokenType::Less || kind == TokenType::LessEqual,
            Level::Term => kind == TokenType::Minus || kind == TokenType::Plus,
            Level::Factor => kind == TokenType::Slash || kind == TokenType::Star,
        }
    }

    /// The node for `left operator right` at this level.
    pub open spec fn join(self, left: Expression, operator: Token, right: Expression) -> Expression {
        match self {
            Level::Or | Level::And => Expression::Logical {
                left: Box::new(left),
                operator,
                right: Box::new(right),
            },
            _ => Expression::Binary { left: Box::new(left), operator, right: Box::new(right) },
        }
    }
}

/// The most arguments or parameters that pass without a complaint.
pub const MAX_ARGUMENTS_COUNT: usize = 255;

/// The kind of the token at `at`; behind the last token, end of input.
pub open spec fn kind_at(tokens: Seq<Token>, at: int) -> TokenType {
    if 0 <= at < tokens.len() {
        tokens[at].token_type
    } else {
        TokenType::EOF
    }
}

/// Whether the next token is of the given kind. The end of input matches
/// nothing.
pub open spec fn check(tokens: Seq<Token>, c: Cursor, kind: TokenType) -> bool {
    kind != TokenType::EOF && kind_at(tokens, c.at) == kind
}

pub open spec fn at_end(tokens: Seq<Token>, at: int) -> bool {
    kind_at(tokens, at) == TokenType::EOF
}

/// Whether `next` was reached from `from` by reading at least one token.
///
/// A rule that succeeds has read at least one token. The rules are defined by
/// recursion on the tokens that are left, so where a rule goes on behind one
/// of its parts it says that the part has moved the cursor; a part that had
/// not would end the rule without a tree.
pub open spec fn moved(tokens: Seq<Token>, from: Cursor, next: Cursor) -> bool {
    from.at < next.at <= tokens.len()
}

/// The result of a construct that ended in an error.
pub open spec fn failed<T>(cursor: Cursor) -> Parsed<T> {
    Parsed { node: None, cursor }
}

/// Reads a token of the given kind, or reports `message` at the token found
/// in its place.
pub open spec fn consume(tokens: Seq<Token>, c: Cursor, kind: TokenType, message: Seq<char>) -> Parsed<Token> {
    if check(tokens, c, kind) {
        Parsed { node: Some(tokens[c.at]), cursor: c.step() }
    } else {
        failed(c.blame(c.at, message))
    }
}

/// `primary → "true" | "false" | "nil" | NUMBER | STRING | "(" expression ")" | IDENT`
pub open spec fn primary(tokens: Seq<Token>, c: Cursor) -> Parsed<Expression>
    decreases tokens.len() - c.at, 6nat,
{
    let kind = kind_at(tokens, c.at);
    if kind == TokenType::False {
        Parsed { node: Some(Expression::Literal { value: Some(Literal::Bool(false)) }), cursor: c.step() }
    } else if kind == TokenType::True {
        Parsed { node: Some(Expression::Literal { value: Some(Literal::Bool(true)) }), cursor: c.step() }
    } else if kind == TokenType::Nil {
        Parsed { node: Some(Expression::Literal { value: Some(Literal::Nil) }), cursor: c.step() }
    } else if kind == TokenType::Number || kind == TokenType::String {
        Parsed { node: Some(Expression::Literal { value: tokens[c.at].literal }), cursor: c.step() }
    } else if kind == TokenType::LeftParen {
        let inner = expression(tokens, c.step());
        match inner.node {
            Some(expression) => {
                let close = consume(
                    tokens,
                    inner.cursor,
                    TokenType::RightParen,
                    "Expect ')' after expression."@,
                );
                match close.node {
                    Some(_) => Parsed {
                        node: Some(Expression::Grouping { expression: Box::new(expression) }),
                        cursor: close.cursor,
                    },
                    None => failed(close.cursor),
                }
            },
            None => inner,
        }
    } else if kind == TokenType::Identifier {
        Parsed { node: Some(Expression::Variable { name: tokens[c.at] }), cursor: c.step() }
    } else {
        failed(c.blame(c.at, "Expression expected"@))
    }
}

/// The arguments behind the first, each behind its comma. From the comma
/// after the 255th argument on, each comma is complained about, at the token
/// behind it, and parsing goes on.
pub open spec fn more_arguments(tokens: Seq<Token>, c: Cursor, have: Seq<Expression>) -> Parsed<Seq<Expression>>
    decreases tokens.len() - c.at, 0nat,
{
    if check(tokens, c, TokenType::Comma) {
        let behind = if have.len() >= MAX_ARGUMENTS_COUNT {
            c.step().blame(c.at + 1, "Can't have more than 255 arguments."@)
        } else {
            c.step()
        };
        let argument = expression(tokens, behind);
        match argument.node {
            Some(expression) => if moved(tokens, c, argument.cursor) {
                more_arguments(tokens, argument.cursor, have.push(expression))
            } else {
                failed(argument.cursor)
            },
            None => failed(argument.cursor),
        }
    } else {
        Parsed { node: Some(have), cursor: c }
    }
}

/// `arguments?`, behind the opening parenthesis of a call.
pub open spec fn arguments(tokens: Seq<Token>, c: Cursor) -> Parsed<Seq<Expression>>
    decreases tokens.len() - c.at, 17nat,
{
    if !check(tokens, c, TokenType::RightParen) {
        let first = expression(tokens, c);
        match first.node {
            Some(expression) => if moved(tokens, c, first.cursor) {
                more_arguments(tokens, first.cursor, seq![expression])
            } else {
                failed(first.cursor)
            },
            None => failed(first.cursor),
        }
    } else {
        Parsed { node: Some(Seq::empty()), cursor: c }
    }
}

/// `arguments? ")"`, behind the opening parenthesis of a call of `callee`.
pub open spec fn finish_call(tokens: Seq<Token>, c: Cursor, callee: Expression) -> Parsed<Expression>
    decreases tokens.len() - c.at, 18nat,
{
    let given = arguments(tokens, c);
    match given.node {
        Some(list) => {
            let paren = consume(
                tokens,
                given.cursor,
                TokenType::RightParen,
                "Expect ')' after arguments."@,
            );
            match paren.node {
                Some(token) => Parsed {
                    node: Some(
                        Expression::Call { callee: Box::new(callee), paren: token, arguments: list },
                    ),
                    cursor: paren.cursor,
                },
                None => failed(paren.cursor),
            }
        },
        None => failed(given.cursor),
    }
}

/// The calls made on `callee`, one argument list after the other.
pub open spec fn more_calls(tokens: Seq<Token>, c: Cursor, callee: Expression) -> Parsed<Expression>
    decreases tokens.len() - c.at, 0nat,
{
    if check(tokens, c, TokenType::LeftParen) {
        let made = finish_call(tokens, c.step(), callee);
        match made.node {
            Some(call) => if moved(tokens, c, made.cursor) {
                more_calls(tokens, made.cursor, call)
            } else {
                failed(made.cursor)
            },
            None => made,
        }
    } else {
        Parsed { node: Some(callee), cursor: c }
    }
}

/// `call → primary ( "(" arguments? ")" )*`
pub open spec fn call(tokens: Seq<Token>, c: Cursor) -> Parsed<Expression>
    decreases tokens.len() - c.at, 7nat,
{
    let callee = primary(tokens, c);
    match callee.node {
        Some(expression) => if moved(tokens, c, callee.cursor) {
            more_calls(tokens, callee.cursor, expression)
        } else {
            failed(callee.cursor)
        },
        None => callee,
    }
}

/// `unary → ( "!" | "-" ) unary | call`
pub open spec fn unary(tokens: Seq<Token>, c: Cursor) -> Parsed<Expression>
    decreases tokens.len() - c.at, 8nat,
{
    if check(tokens, c, TokenType::Bang) || check(tokens, c, TokenType::Minus) {
        let operand = unary(tokens, c.step());
        match operand.node {
            Some(right) => Parsed {
                node: Some(Expression::Unary { operator: tokens[c.at], right: Box::new(right) }),
                cursor: operand.cursor,
            },
            None => operand,
        }
    } else {
        call(tokens, c)
    }
}

/// The operators of `level` that follow `left`, each with its right operand:
/// they group to the left.
pub open spec fn more_operands(tokens: Seq<Token>, c: Cursor, level: Level, left: Expression) -> Parsed<Expression>
    decreases tokens.len() - c.at, 0nat,
{
    if level.has(kind_at(tokens, c.at)) {
        let operand = if level is Factor {
            unary(tokens, c.step())
        } else {
            binary(tokens, c.step(), level.tighter())
        };
        match operand.node {
            Some(right) => if moved(tokens, c, operand.cursor) {
                more_operands(
                    tokens,
                    operand.cursor,
                    level,
                    level.join(left, tokens[c.at], right),
                )
            } else {
                failed(operand.cursor)
            },
            None => operand,
        }
    } else {
        Parsed { node: Some(left), cursor: c }
    }
}

/// One level of binary operators: operands of the next tighter level with the
/// level's operators between them.
pub open spec fn binary(tokens: Seq<Token>, c: Cursor, level: Level) -> Parsed<Expression>
    decreases tokens.len() - c.at, 14 - level.index(),
{
    let first = if level is Factor {
        unary(tokens, c)
    } else {
        binary(tokens, c, level.tighter())
    };
    match first.node {
        Some(left) => if moved(tokens, c, first.cursor) {
            more_operands(tokens, first.cursor, level, left)
        } else {
            failed(first.cursor)
        },
        None => first,
    }
}

/// `assignment → IDENT "=" assignment | logic_or`. A target that is no
/// variable is complained about at the `=`, behind the value, and the target
/// itself is the result.
pub open spec fn assignment(tokens: Seq<Token>, c: Cursor) -> Parsed<Expression>
    decreases tokens.len() - c.at, 15nat,
{
    let target = binary(tokens, c, Level::Or);
    match target.node {
        Some(left) => if check(tokens, target.cursor, TokenType::Equal) && moved(
            tokens,
            c,
            target.cursor,
        ) {
            let equals = target.cursor.at;
            let value = assignment(tokens, target.cursor.step());
            match value.node {
                Some(right) => match left {
                    Expression::Variable { name } => Parsed {
                        node: Some(Expression::Assign { name, value: Box::new(right) }),
                        cursor: value.cursor,
                    },
                    _ => Parsed {
                        node: Some(left),
                        cursor: value.cursor.blame(equals, "Invalid assignment target."@),
                    },
                },
                None => value,
            }
        } else {
            target
        },
        None => target,
    }
}

/// `expression → assignment`
pub open spec fn expression(tokens: Seq<Token>, c: Cursor) -> Parsed<Expression>
    decreases tokens.len() - c.at, 16nat,
{
    assignment(tokens, c)
}

/// `exprStmt → expression ";"`
pub open spec fn expression_statement(tokens: Seq<Token>, c: Cursor) -> Parsed<Statement>
    decreases tokens.len() - c.at, 17nat,
{
    let value = expression(tokens, c);
    match value.node {
        Some(expression) => {
            let end = consume(
                tokens,
                value.cursor,
                TokenType::Semicolon,
                "Expect ';' after value."@,
            );
            match end.node {
                Some(_) => Parsed {
                    node: Some(Statement::Expression { expression }),
                    cursor: end.cursor,
                },
                None => failed(end.cursor),
            }
        },
        None => failed(value.cursor),
    }
}

/// `printStmt → "print" expression ";"`, behind the keyword.
pub open spec fn print_statement(tokens: Seq<Token>, c: Cursor) -> Parsed<Statement>
    decreases tokens.len() - c.at, 17nat,
{
    let value = expression(tokens, c);
    match value.node {
        Some(expression) => {
            let end = consume(
                tokens,
                value.cursor,
                TokenType::Semicolon,
                "Expect ';' after value."@,
            );
            match end.node {
                Some(_) => Parsed { node: Some(Statement::Print { expression }), cursor: end.cursor },
                None => failed(end.cursor),
            }
        },
        None => failed(value.cursor),
    }
}

/// `returnStmt → "return" expression? ";"`, behind the keyword.
pub open spec fn return_statement(tokens: Seq<Token>, c: Cursor, keyword: Token) -> Parsed<Statement>
    decreases tokens.len() - c.at, 17nat,
{
    let value: Parsed<Option<Expression>> = if check(tokens, c, TokenType::Semicolon) {
        Parsed { node: Some(None), cursor: c }
    } else {
        let given = expression(tokens, c);
        match given.node {
            Some(expression) => Parsed { node: Some(Some(expression)), cursor: given.cursor },
            None => failed(given.cursor),
        }
    };
    match value.node {
        Some(value_node) => {
            let end = consume(
                tokens,
                value.cursor,
                TokenType::Semicolon,
                "Expect ';' after return value."@,
            );
            match end.node {
                Some(_) => Parsed {
                    node: Some(Statement::Return { keyword, value: value_node }),
                    cursor: end.cursor,
                },
                None => failed(end.cursor),
            }
        },
        None => failed(value.cursor),
    }
}

/// `varDecl → "var" IDENT ( "=" expression )? ";"`, behind the keyword.
pub open spec fn var_declaration(tokens: Seq<Token>, c: Cursor) -> Parsed<Statement>
    decreases tokens.len() - c.at, 17nat,
{
    let name = consume(tokens, c, TokenType::Identifier, "Expect variable name."@);
    match name.node {
        Some(token) => {
            let initializer: Parsed<Option<Expression>> = if check(
                tokens,
                name.cursor,
                TokenType::Equal,
            ) {
                let given = expression(tokens, name.cursor.step());
                match given.node {
                    Some(expression) => Parsed { node: Some(Some(expression)), cursor: given.cursor },
                    None => failed(given.cursor),
                }
            } else {
                Parsed { node: Some(None), cursor: name.cursor }
            };
            match initializer.node {
                Some(initializer_node) => {
                    let end = consume(
                        tokens,
                        initializer.cursor,
                        TokenType::Semicolon,
                        "Expect ';' after variable declaration."@,
                    );
                    match end.node {
                        Some(_) => Parsed {
                            node: Some(Statement::Var { name: token, initializer: initializer_node }),
                            cursor: end.cursor,
                        },
                        None => failed(end.cursor),
                    }
                },
                None => failed(initializer.cursor),
            }
        },
        None => failed(name.cursor),
    }
}

/// The parameters behind the first, each behind its comma, with the same
/// complaint from the 255th comma on as for arguments.
pub open spec fn more_parameters(tokens: Seq<Token>, c: Cursor, have: Seq<Token>) -> Parsed<Seq<Token>>
    decreases tokens.len() - c.at,
{
    if check(tokens, c, TokenType::Comma) {
        let behind = if have.len() >= MAX_ARGUMENTS_COUNT {
            c.step().blame(c.at + 1, "Can't have more than 255 parameters."@)
        } else {
            c.step()
        };
        let name = consume(tokens, behind, TokenType::Identifier, "Expect parameter name."@);
        match name.node {
            Some(token) => more_parameters(tokens, name.cursor, have.push(token)),
            None => failed(name.cursor),
        }
    } else {
        Parsed { node: Some(have), cursor: c }
    }
}

/// `params? ")"`, behind the opening parenthesis of a declaration.
pub open spec fn parameters(tokens: Seq<Token>, c: Cursor) -> Parsed<Seq<Token>> {
    let list = if !check(tokens, c, TokenType::RightParen) {
        let first = consume(tokens, c, TokenType::Identifier, "Expect parameter name."@);
        match first.node {
            Some(token) => more_parameters(tokens, first.cursor, seq![token]),
            None => failed(first.cursor),
        }
    } else {
        Parsed { node: Some(Seq::empty()), cursor: c }
    };
    match list.node {
        Some(names) => {
            let close = consume(
                tokens,
                list.cursor,
                TokenType::RightParen,
                "Expect ')' after parameters."@,
            );
            match close.node {
                Some(_) => Parsed { node: Some(names), cursor: close.cursor },
                None => failed(close.cursor),
            }
        },
        None => list,
    }
}

/// `IDENT "(" params? ")"`: the head of a declaration of the given kind.
pub open spec fn signature(tokens: Seq<Token>, c: Cursor, kind: Seq<char>) -> Parsed<(Token, Seq<Token>)> {
    let name = consume(tokens, c, TokenType::Identifier, "Expect "@ + kind + " name"@);
    match name.node {
        Some(token) => {
            let open = consume(
                tokens,
                name.cursor,
                TokenType::LeftParen,
                "Expect '(' after "@ + kind + " name."@,
            );
            match open.node {
                Some(_) => {
                    let list = parameters(tokens, open.cursor);
                    match list.node {
                        Some(names) => Parsed { node: Some((token, names)), cursor: list.cursor },
                        None => failed(list.cursor),
                    }
                },
                None => failed(open.cursor),
            }
        },
        None => failed(name.cursor),
    }
}

/// The loop that a `for` statement stands for: the body with the increment
/// behind it, under the condition (`true` where there is none), behind the
/// initializer.
pub open spec fn desugar(
    initializer: Option<Statement>,
    condition: Option<Expression>,
    increment: Option<Expression>,
    body: Statement,
) -> Statement {
    let stepped = match increment {
        Some(expression) => Statement::Block {
            statements: seq![body, Statement::Expression { expression }],
        },
        None => body,
    };
    let test = match condition {
        Some(expression) => expression,
        None => Expression::Literal { value: Some(Literal::Bool(true)) },
    };
    let repeat = Statement::While { condition: test, body: Box::new(stepped) };
    match initializer {
        Some(first) => Statement::Block { statements: seq![first, repeat] },
        None => repeat,
    }
}

/// `funDecl → "fun" IDENT "(" params? ")" block`, behind the keyword.
pub open spec fn function(tokens: Seq<Token>, c: Cursor, kind: Seq<char>) -> Parsed<Statement>
    decreases tokens.len() - c.at, 17nat,
{
    let head = signature(tokens, c, kind);
    match head.node {
        Some((name, params)) => {
            let open = consume(
                tokens,
                head.cursor,
                TokenType::LeftBrace,
                "Expect '{' before "@ + kind + " body."@,
            );
            match open.node {
                Some(_) => if moved(tokens, c, open.cursor) {
                    let body = block(tokens, open.cursor);
                    match body.node {
                        Some(statements) => Parsed {
                            node: Some(Statement::Function { name, params, body: statements }),
                            cursor: body.cursor,
                        },
                        None => failed(body.cursor),
                    }
                } else {
                    failed(open.cursor)
                },
                None => failed(open.cursor),
            }
        },
        None => failed(head.cursor),
    }
}

/// `"(" expression ")"`: the condition of an `if` or a `while`.
pub open spec fn condition(tokens: Seq<Token>, c: Cursor, before: Seq<char>, after: Seq<char>) -> Parsed<Expression>
    decreases tokens.len() - c.at, 17nat,
{
    let open = consume(tokens, c, TokenType::LeftParen, before);
    match open.node {
        Some(_) => {
            let test = expression(tokens, open.cursor);
            match test.node {
                Some(expression) => {
                    let close = consume(tokens, test.cursor, TokenType::RightParen, after);
                    match close.node {
                        Some(_) => Parsed { node: Some(expression), cursor: close.cursor },
                        None => failed(close.cursor),
                    }
                },
                None => test,
            }
        },
        None => failed(open.cursor),
    }
}

/// `ifStmt → "if" "(" expression ")" statement ( "else" statement )?`, behind
/// the keyword.
pub open spec fn if_statement(tokens: Seq<Token>, c: Cursor) -> Parsed<Statement>
    decreases tokens.len() - c.at, 18nat,
{
    let test = condition(tokens, c, "Expect '(' after 'if'."@, "Expect ')' after if condition."@);
    match test.node {
        Some(expression) => if moved(tokens, c, test.cursor) {
            let then = statement(tokens, test.cursor);
            match then.node {
                Some(then_branch) => if check(tokens, then.cursor, TokenType::Else) && moved(
                    tokens,
                    c,
                    then.cursor,
                ) {
                    let other = statement(tokens, then.cursor.step());
                    match other.node {
                        Some(else_branch) => Parsed {
                            node: Some(
                                Statement::If {
                                    condition: expression,
                                    then_branch: Box::new(then_branch),
                                    else_branch: Some(Box::new(else_branch)),
                                },
                            ),
                            cursor: other.cursor,
                        },
                        None => other,
                    }
                } else {
                    Parsed {
                        node: Some(
                            Statement::If {
                                condition: expression,
                                then_branch: Box::new(then_branch),
                                else_branch: None,
                            },
                        ),
                        cursor: then.cursor,
                    }
                },
                None => then,
            }
        } else {
            failed(test.cursor)
        },
        None => failed(test.cursor),
    }
}

/// `whileStmt → "while" "(" expression ")" statement`, behind the keyword.
pub open spec fn while_statement(tokens: Seq<Token>, c: Cursor) -> Parsed<Statement>
    decreases tokens.len() - c.at, 18nat,
{
    let test = condition(tokens, c, "Expect '(' after 'while'."@, "Expect ')' after condition."@);
    match test.node {
        Some(expression) => if moved(tokens, c, test.cursor) {
            let body = statement(tokens, test.cursor);
            match body.node {
                Some(repeated) => Parsed {
                    node: Some(Statement::While { condition: expression, body: Box::new(repeated) }),
                    cursor: body.cursor,
                },
                None => body,
            }
        } else {
            failed(test.cursor)
        },
        None => failed(test.cursor),
    }
}

/// The first clause of a `for`: nothing, a declaration or an expression
/// statement.
pub open spec fn for_initializer(tokens: Seq<Token>, c: Cursor) -> Parsed<Option<Statement>>
    decreases tokens.len() - c.at, 18nat,
{
    if check(tokens, c, TokenType::Semicolon) {
        Parsed { node: Some(None), cursor: c.step() }
    } else {
        let first = if check(tokens, c, TokenType::Var) {
            var_declaration(tokens, c.step())
        } else {
            expression_statement(tokens, c)
        };
        match first.node {
            Some(statement) => Parsed { node: Some(Some(statement)), cursor: first.cursor },
            None => failed(first.cursor),
        }
    }
}

/// A clause of a `for` that may be empty, with the token that ends it.
pub open spec fn for_clause(tokens: Seq<Token>, c: Cursor, end: TokenType, message: Seq<char>) -> Parsed<Option<Expression>>
    decreases tokens.len() - c.at, 18nat,
{
    let clause: Parsed<Option<Expression>> = if !check(tokens, c, end) {
        let given = expression(tokens, c);
        match given.node {
            Some(expression) => Parsed { node: Some(Some(expression)), cursor: given.cursor },
            None => failed(given.cursor),
        }
    } else {
        Parsed { node: Some(None), cursor: c }
    };
    match clause.node {
        Some(node) => {
            let close = consume(tokens, clause.cursor, end, message);
            match close.node {
                Some(_) => Parsed { node: Some(node), cursor: close.cursor },
                None => failed(close.cursor),
            }
        },
        None => clause,
    }
}

/// `forStmt → "for" "(" ( varDecl | exprStmt | ";" ) expression? ";" expression? ")" statement`,
/// behind the keyword. The result is the loop that the statement stands for.
pub open spec fn for_statement(tokens: Seq<Token>, c: Cursor) -> Parsed<Statement>
    decreases tokens.len() - c.at, 19nat,
{
    let open = consume(tokens, c, TokenType::LeftParen, "Expect '(' after 'for'."@);
    match open.node {
        Some(_) => {
            let first = for_initializer(tokens, open.cursor);
            match first.node {
                Some(initializer) => if moved(tokens, c, first.cursor) {
                    let second = for_clause(
                        tokens,
                        first.cursor,
                        TokenType::Semicolon,
                        "Expect ';' after loop condition."@,
                    );
                    match second.node {
                        Some(test) => if moved(tokens, c, second.cursor) {
                            let third = for_clause(
                                tokens,
                                second.cursor,
                                TokenType::RightParen,
                                "Expect ')' after for clauses."@,
                            );
                            match third.node {
                                Some(increment) => if moved(tokens, c, third.cursor) {
                                    let body = statement(tokens, third.cursor);
                                    match body.node {
                                        Some(repeated) => Parsed {
                                            node: Some(desugar(initializer, test, increment, repeated)),
                                            cursor: body.cursor,
                                        },
                                        None => body,
                                    }
                                } else {
                                    failed(third.cursor)
                                },
                                None => failed(third.cursor),
                            }
                        } else {
                            failed(second.cursor)
                        },
                        None => failed(second.cursor),
                    }
                } else {
                    failed(first.cursor)
                },
                None => failed(first.cursor),
            }
        },
        None => failed(open.cursor),
    }
}

/// `statement → exprStmt | printStmt | ifStmt | whileStmt | forStmt | returnStmt | block`
pub open spec fn statement(tokens: Seq<Token>, c: Cursor) -> Parsed<Statement>
    decreases tokens.len() - c.at, 20nat,
{
    if check(tokens, c, TokenType::For) {
        for_statement(tokens, c.step())
    } else if check(tokens, c, TokenType::If) {
        if_statement(tokens, c.step())
    } else if check(tokens, c, TokenType::Print) {
        print_statement(tokens, c.step())
    } else if check(tokens, c, TokenType::Return) {
        return_statement(tokens, c.step(), tokens[c.at])
    } else if check(tokens, c, TokenType::While) {
        while_statement(tokens, c.step())
    } else if check(tokens, c, TokenType::LeftBrace) {
        let inner = block(tokens, c.step());
        match inner.node {
            Some(statements) => Parsed {
                node: Some(Statement::Block { statements }),
                cursor: inner.cursor,
            },
            None => failed(inner.cursor),
        }
    } else {
        expression_statement(tokens, c)
    }
}

/// Whether a statement can start with a token of this kind.
pub open spec fn starts_statement(kind: TokenType) -> bool {
    kind == TokenType::Class || kind == TokenType::Fun || kind == TokenType::Var || kind
        == TokenType::For || kind == TokenType::If || kind == TokenType::While || kind
        == TokenType::Print || kind == TokenType::Return
}

/// The first position at or after `at` that is behind a semicolon, before a
/// token that starts a statement, or at the end of input.
pub open spec fn resume_at(tokens: Seq<Token>, at: int) -> int
    decreases tokens.len() - at,
{
    if at_end(tokens, at) || kind_at(tokens, at - 1) == TokenType::Semicolon || starts_statement(
        kind_at(tokens, at),
    ) {
        at
    } else {
        resume_at(tokens, at + 1)
    }
}

/// Where parsing goes on after an error at `at`: the token at `at` is
/// skipped, then every token up to the next place to resume.
pub open spec fn synchronize(tokens: Seq<Token>, at: int) -> int {
    if at_end(tokens, at) {
        at
    } else {
        resume_at(tokens, at + 1)
    }
}

/// `declaration → varDecl | funDecl | statement`. After an error the cursor
/// stands where parsing can go on.
pub open spec fn declaration(tokens: Seq<Token>, c: Cursor) -> Parsed<Statement>
    decreases tokens.len() - c.at, 21nat,
{
    let found = if check(tokens, c, TokenType::Var) {
        var_declaration(tokens, c.step())
    } else if check(tokens, c, TokenType::Fun) {
        function(tokens, c.step(), "function"@)
    } else {
        statement(tokens, c)
    };
    match found.node {
        Some(_) => found,
        None => failed(
            Cursor { at: synchronize(tokens, found.cursor.at), faults: found.cursor.faults },
        ),
    }
}

/// `declaration* "}"`: the rest of a block behind the statements in `have`.
/// The first declaration that ends in an error ends the block in that error.
pub open spec fn block_rest(tokens: Seq<Token>, c: Cursor, have: Seq<Statement>) -> Parsed<Seq<Statement>>
    decreases tokens.len() - c.at, 22nat,
{
    if !check(tokens, c, TokenType::RightBrace) && !at_end(tokens, c.at) {
        let first = declaration(tokens, c);
        match first.node {
            Some(statement) => if moved(tokens, c, first.cursor) {
                block_rest(tokens, first.cursor, have.push(statement))
            } else {
                failed(first.cursor)
            },
            None => failed(first.cursor),
        }
    } else {
        let close = consume(tokens, c, TokenType::RightBrace, "Expect '}' after block."@);
        match close.node {
            Some(_) => Parsed { node: Some(have), cursor: close.cursor },
            None => failed(close.cursor),
        }
    }
}

/// `block → "{" declaration* "}"`, behind the opening brace.
pub open spec fn block(tokens: Seq<Token>, c: Cursor) -> Parsed<Seq<Statement>>
    decreases tokens.len() - c.at, 23nat,
{
    block_rest(tokens, c, Seq::empty())
}

/// What parsing a whole token list gives: the statements that parsed, and the
/// errors that were reported.
pub struct Program {
    pub statements: Seq<Statement>,
    pub faults: Seq<Fault>,
}

/// `declaration* EOF`: the rest of a program behind the statements in `have`.
/// A declaration that ends in an error is left out, and parsing goes on behind
/// it.
pub open spec fn program_rest(tokens: Seq<Token>, c: Cursor, have: Seq<Statement>) -> Program
    decreases tokens.len() - c.at,
{
    if at_end(tokens, c.at) {
        Program { statements: have, faults: c.faults }
    } else {
        let first = declaration(tokens, c);
        if moved(tokens, c, first.cursor) {
            match first.node {
                Some(statement) => program_rest(tokens, first.cursor, have.push(statement)),
                None => program_rest(tokens, first.cursor, have),
            }
        } else {
            Program { statements: have, faults: first.cursor.faults }
        }
    }
}

/// `program → declaration* EOF`
pub open spec fn program(tokens: Seq<Token>) -> Program {
    program_rest(tokens, Cursor { at: 0, faults: Seq::empty() }, Seq::empty())
}

} // verus!
