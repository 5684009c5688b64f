use vstd::prelude::*;
use vstd::string::StringExecFns;
use std::rc::Rc;
use crate::error_reporter::LoxError;
use crate::expr::{
    lemma_trees_push, trees, AssignExpr, BinaryExpr, CallExpr, Expr, GroupingExpr, LiteralExpr,
    LogicalExpr, UnaryExpr, VariableExpr,
};
use crate::grammar::{
    arguments, assignment, at_end, binary, block, block_rest, call, check, condition, consume,
    declaration, desugar, expression, expression_statement, finish_call, for_clause,
    for_initializer, for_statement, function, if_statement, kind_at, more_arguments, more_calls,
    more_operands, more_parameters, parameters, primary, print_statement, program_rest,
    resume_at, return_statement, statement, synchronize, unary,
    var_declaration, while_statement, Cursor, Expression, Fault, Level, Parsed, Statement,
    MAX_ARGUMENTS_COUNT,
};
use crate::stmt::{
    BlockStmt, ExpressionStmt, FunctionStmt, IfStmt, PrintStmt, ReturnStmt, Stmt,
    VarStmt, WhileStmt,
};
use crate::literal::Literal;
use crate::token::Token;
use crate::token_type::TokenType;

verus! {

/// Turns a token list into statements. A syntax error ends the declaration it
/// stands in; the parser reports it, skips to where a statement can start, and
/// goes on.
pub struct Parser<'a> {
    tokens: &'a Vec<Token>,
    current: usize,
    errors: Vec<LoxError>,
    faults: Ghost<Seq<Fault>>,
}

/// Whether `errors` are the syntax errors that `faults` describes: each with
/// the token at the fault's index and with the fault's message.
pub open spec fn describes(errors: Seq<LoxError>, faults: Seq<Fault>, tokens: Seq<Token>) -> bool {
    &&& errors.len() == faults.len()
    &&& forall|i: int|
        0 <= i < errors.len() ==> {
            &&& 0 <= (#[trigger] faults[i]).at < tokens.len()
            &&& errors[i] matches LoxError::ParseError { token, message }
            &&& token == tokens[faults[i].at]
            &&& message@ == faults[i].message
        }
}

impl Level {
    fn next(&self) -> (level: Level)
        ensures
            level == self.tighter(),
    {
        match self {
            Level::Or => Level::And,
            Level::And => Level::Equality,
            Level::Equality => Level::Comparison,
            Level::Comparison => Level::Term,
            _ => Level::Factor,
        }
    }

    fn holds(&self, kind: TokenType) -> (held: bool)
        ensures
            held == self.has(kind),
    {
        match self {
            Level::Or => kind == TokenType::Or,
            Level::And => kind == TokenType::And,
            Level::Equality => kind == TokenType::BangEqual || kind == TokenType::EqualEqual,
            Level::Comparison => kind == TokenType::Greater || kind == TokenType::GreaterEqual
                || kind == TokenType::Less || kind == TokenType::LessEqual,
            Level::Term => kind == TokenType::Minus || kind == TokenType::Plus,
            Level::Factor => kind == TokenType::Slash || kind == TokenType::Star,
        }
    }

    fn node(&self, left: Expr, operator: Token, right: Expr) -> (joined: Expr)
        ensures
            joined@ == self.join(left@, operator, right@),
    {
        match self {
            Level::Or | Level::And => Expr::Logical(
                LogicalExpr::new(Rc::new(left), operator, Rc::new(right)),
            ),
            _ => Expr::Binary(BinaryExpr::new(Rc::new(left), operator, Rc::new(right))),
        }
    }
}

impl<'a> Parser<'a> {
    /// The tokens being parsed.
    pub closed spec fn tokens(&self) -> Seq<Token> {
        self.tokens@
    }

    /// Where the parser stands.
    pub closed spec fn cursor(&self) -> Cursor {
        Cursor { at: self.current as int, faults: self.faults@ }
    }

    /// The errors reported so far.
    pub closed spec fn reported(&self) -> Seq<LoxError> {
        self.errors@
    }

    /// The token list ends with the end-of-input token, the parser stands on
    /// one of its tokens, and the errors are those that the cursor holds.
    pub closed spec fn wf(&self) -> bool {
        &&& self.tokens@.len() > 0
        &&& self.tokens@.last().token_type == TokenType::EOF
        &&& self.current < self.tokens@.len()
        &&& describes(self.errors@, self.faults@, self.tokens@)
    }

    /// The state after a construct was parsed from `before` on with the
    /// outcome `parsed`: the cursor is the outcome's, and a failure was
    /// reported last.
    pub open spec fn reached<T>(&self, before: Parser, parsed: Parsed<T>) -> bool {
        &&& self.wf()
        &&& self.tokens() == before.tokens()
        &&& self.cursor() == parsed.cursor
        &&& before.cursor().at <= self.cursor().at
        &&& parsed.node is Some ==> before.cursor().at < self.cursor().at
    }

    /// An expression was parsed with the outcome `parsed`.
    pub open spec fn gave_expr(
        &self,
        before: Parser,
        result: Result<Expr, LoxError>,
        parsed: Parsed<Expression>,
    ) -> bool {
        &&& self.reached(before, parsed)
        &&& match result {
            Ok(expr) => parsed.node == Some(expr@),
            Err(error) => parsed.node is None && self.reported().len() > 0 && error
                == self.reported().last(),
        }
    }

    /// A statement was parsed with the outcome `parsed`.
    pub open spec fn gave_stmt(
        &self,
        before: Parser,
        result: Result<Stmt, LoxError>,
        parsed: Parsed<Statement>,
    ) -> bool {
        &&& self.reached(before, parsed)
        &&& match result {
            Ok(stmt) => parsed.node == Some(stmt@),
            Err(error) => parsed.node is None && self.reported().len() > 0 && error
                == self.reported().last(),
        }
    }

    /// A parser at the start of a token list that ends with the end-of-input
    /// token.
    pub fn new(tokens: &'a Vec<Token>) -> (parser: Parser<'a>)
        requires
            tokens@.len() > 0,
            tokens@.last().token_type == TokenType::EOF,
        ensures
            parser.wf(),
            parser.tokens() == tokens@,
            parser.cursor() == (Cursor { at: 0, faults: Seq::empty() }),
            parser.reported() == Seq::<LoxError>::empty(),
    {
        Parser { tokens, current: 0, errors: Vec::new(), faults: Ghost(Seq::empty()) }
    }

    /// The errors reported so far, in the order in which they were reported.
    pub fn errors(&self) -> (errors: &Vec<LoxError>)
        ensures
            errors@ == self.reported(),
    {
        &self.errors
    }

    fn peek(&self) -> (token: &Token)
        requires
            self.wf(),
        ensures
            *token == self.tokens@[self.current as int],
            token.token_type == kind_at(self.tokens@, self.current as int),
    {
        &self.tokens[self.current]
    }

    fn previous(&self) -> (token: &Token)
        requires
            self.wf(),
            self.current > 0,
        ensures
            *token == self.tokens@[self.current - 1],
    {
        &self.tokens[self.current - 1]
    }

    fn is_at_end(&self) -> (ended: bool)
        requires
            self.wf(),
        ensures
            ended == at_end(self.tokens@, self.current as int),
    {
        self.peek().token_type == TokenType::EOF
    }

    fn check(&self, token_type: TokenType) -> (found: bool)
        requires
            self.wf(),
        ensures
            found == check(self.tokens(), self.cursor(), token_type),
    {
        if self.is_at_end() {
            return false;
        }
        self.peek().token_type == token_type
    }

    /// Goes one token further, unless the parser stands at the end.
    fn advance(&mut self)
        requires
            old(self).wf(),
        ensures
            final(self).wf(),
            final(self).tokens == old(self).tokens,
            final(self).errors == old(self).errors,
            final(self).faults == old(self).faults,
            final(self).current == if at_end(old(self).tokens@, old(self).current as int) {
                old(self).current as int
            } else {
                old(self).current + 1
            },
    {
        let length = self.tokens.len();
        if !self.is_at_end() {
            self.current += 1;
        }
    }

    /// Reads the next token if it is of the given kind.
    fn is_match(&mut self, token_type: TokenType) -> (found: bool)
        requires
            old(self).wf(),
        ensures
            final(self).wf(),
            found == check(old(self).tokens(), old(self).cursor(), token_type),
            final(self).tokens() == old(self).tokens(),
            final(self).reported() == old(self).reported(),
            final(self).cursor() == if found {
                old(self).cursor().step()
            } else {
                old(self).cursor()
            },
    {
        if self.check(token_type) {
            self.advance();
            return true;
        }
        false
    }

    /// Reports a syntax error at the token with the given index.
    fn error(&mut self, at: usize, message: String) -> (error: LoxError)
        requires
            old(self).wf(),
            at < old(self).tokens@.len(),
        ensures
            final(self).wf(),
            final(self).tokens() == old(self).tokens(),
            final(self).cursor() == old(self).cursor().blame(at as int, message@),
            final(self).reported().len() > 0,
            error == final(self).reported().last(),
    {
        let error = LoxError::parse_error(self.tokens[at].clone(), message);
        self.errors.push(error.clone());
        proof {
            self.faults@ = self.faults@.push(Fault { at: at as int, message: message@ });
        }
        error
    }

    /// Reads a token of the given kind, or reports `message` at the token
    /// that stands in its place.
    fn consume(&mut self, token_type: TokenType, message: String) -> (result: Result<Token, LoxError>)
        requires
            old(self).wf(),
        ensures
            final(self).reached(
                *old(self),
                consume(old(self).tokens(), old(self).cursor(), token_type, message@),
            ),
            match result {
                Ok(token) => consume(
                    old(self).tokens(),
                    old(self).cursor(),
                    token_type,
                    message@,
                ).node == Some(token),
                Err(error) => consume(
                    old(self).tokens(),
                    old(self).cursor(),
                    token_type,
                    message@,
                ).node is None && final(self).reported().len() > 0 && error
                    == final(self).reported().last(),
            },
    {
        if self.check(token_type) {
            self.advance();
            return Ok(self.previous().clone());
        }
        Err(self.error(self.current, message))
    }

    fn expression(&mut self) -> (result: Result<Expr, LoxError>)
        requires
            old(self).wf(),
        ensures
            final(self).gave_expr(
                *old(self),
                result,
                expression(old(self).tokens(), old(self).cursor()),
            ),
        decreases old(self).tokens@.len() - old(self).current, 16nat,
    {
        self.assignment()
    }

    fn assignment(&mut self) -> (result: Result<Expr, LoxError>)
        requires
            old(self).wf(),
        ensures
            final(self).gave_expr(
                *old(self),
                result,
                assignment(old(self).tokens(), old(self).cursor()),
            ),
        decreases old(self).tokens@.len() - old(self).current, 15nat,
    {
        let expr = match self.binary(Level::Or) {
            Ok(expr) => expr,
            Err(error) => return Err(error),
        };
        if self.is_match(TokenType::Equal) {
            let equals = self.current - 1;
            let value = match self.assignment() {
                Ok(value) => value,
                Err(error) => return Err(error),
            };
            match expr {
                Expr::Variable(target) => {
                    return Ok(Expr::Assign(AssignExpr::new(target.name, Rc::new(value))));
                },
                _ => {
                    self.error(equals, String::from_str("Invalid assignment target."));
                },
            }
        }
        Ok(expr)
    }

    /// One level of binary operators; the logical operators and the
    /// arithmetic ones differ only in the node that they make.
    fn binary(&mut self, level: Level) -> (result: Result<Expr, LoxError>)
        requires
            old(self).wf(),
        ensures
            final(self).gave_expr(
                *old(self),
                result,
                binary(old(self).tokens(), old(self).cursor(), level),
            ),
        decreases old(self).tokens@.len() - old(self).current, 14 - level.index(),
    {
        let first = if let Level::Factor = level {
            self.unary()
        } else {
            self.binary(level.next())
        };
        let mut expr = match first {
            Ok(expr) => expr,
            Err(error) => return Err(error),
        };
        while level.holds(self.peek().token_type)
            invariant
                self.wf(),
                self.tokens() == old(self).tokens(),
                old(self).current < self.current,
                more_operands(self.tokens(), self.cursor(), level, expr@) == binary(
                    old(self).tokens(),
                    old(self).cursor(),
                    level,
                ),
            decreases self.tokens@.len() - self.current,
        {
            self.advance();
            let operator = self.previous().clone();
            let operand = if let Level::Factor = level {
                self.unary()
            } else {
                self.binary(level.next())
            };
            let right = match operand {
                Ok(right) => right,
                Err(error) => return Err(error),
            };
            expr = level.node(expr, operator, right);
        }
        Ok(expr)
    }

    fn unary(&mut self) -> (result: Result<Expr, LoxError>)
        requires
            old(self).wf(),
        ensures
            final(self).gave_expr(*old(self), result, unary(old(self).tokens(), old(self).cursor())),
        decreases old(self).tokens@.len() - old(self).current, 8nat,
    {
        if self.is_match(TokenType::Bang) || self.is_match(TokenType::Minus) {
            let operator = self.previous().clone();
            let right = match self.unary() {
                Ok(right) => right,
                Err(error) => return Err(error),
            };
            return Ok(Expr::Unary(UnaryExpr::new(operator, Rc::new(right))));
        }
        self.call()
    }

    /// The arguments of a call, behind the opening parenthesis.
    fn arguments(&mut self) -> (result: Result<Vec<Rc<Expr>>, LoxError>)
        requires
            old(self).wf(),
        ensures
            final(self).wf(),
            final(self).tokens() == old(self).tokens(),
            final(self).cursor() == arguments(old(self).tokens(), old(self).cursor()).cursor,
            old(self).cursor().at <= final(self).cursor().at,
            match result {
                Ok(list) => arguments(old(self).tokens(), old(self).cursor()).node == Some(
                    trees(list@),
                ),
                Err(error) => arguments(old(self).tokens(), old(self).cursor()).node is None
                    && final(self).reported().len() > 0 && error == final(self).reported().last(),
            },
        decreases old(self).tokens@.len() - old(self).current, 17nat,
    {
        let mut list: Vec<Rc<Expr>> = Vec::new();
        assert(trees(list@) == Seq::<Expression>::empty());
        if !self.check(TokenType::RightParen) {
            let first = match self.expression() {
                Ok(first) => first,
                Err(error) => return Err(error),
            };
            proof {
                lemma_trees_push(list@, Rc::new(first));
                lemma_trees_push(list@.push(Rc::new(first)), Rc::new(first));
            }
            list.push(Rc::new(first));
            while self.check(TokenType::Comma)
                invariant
                    self.wf(),
                    self.tokens() == old(self).tokens(),
                    old(self).current < self.current,
                    list@.len() >= 1,
                    trees(list@).len() == list@.len(),
                    more_arguments(self.tokens(), self.cursor(), trees(list@)) == arguments(
                        old(self).tokens(),
                        old(self).cursor(),
                    ),
                decreases self.tokens@.len() - self.current,
            {
                self.advance();
                if list.len() >= MAX_ARGUMENTS_COUNT {
                    self.error(self.current, String::from_str("Can't have more than 255 arguments."));
                }
                let next = match self.expression() {
                    Ok(next) => next,
                    Err(error) => return Err(error),
                };
                proof {
                    lemma_trees_push(list@, Rc::new(next));
                    lemma_trees_push(list@.push(Rc::new(next)), Rc::new(next));
                }
                list.push(Rc::new(next));
            }
        }
        Ok(list)
    }

    /// The arguments and the closing parenthesis of a call, behind the
    /// opening one.
    fn finish_call(&mut self, callee: Expr) -> (result: Result<Expr, LoxError>)
        requires
            old(self).wf(),
        ensures
            final(self).gave_expr(
                *old(self),
                result,
                finish_call(old(self).tokens(), old(self).cursor(), callee@),
            ),
        decreases old(self).tokens@.len() - old(self).current, 18nat,
    {
        let arguments = match self.arguments() {
            Ok(arguments) => arguments,
            Err(error) => return Err(error),
        };
        let paren = match self.consume(
            TokenType::RightParen,
            String::from_str("Expect ')' after arguments."),
        ) {
            Ok(paren) => paren,
            Err(error) => return Err(error),
        };
        Ok(Expr::Call(CallExpr::new(Rc::new(callee), paren, arguments)))
    }

    fn call(&mut self) -> (result: Result<Expr, LoxError>)
        requires
            old(self).wf(),
        ensures
            final(self).gave_expr(*old(self), result, call(old(self).tokens(), old(self).cursor())),
        decreases old(self).tokens@.len() - old(self).current, 7nat,
    {
        let mut expr = match self.primary() {
            Ok(expr) => expr,
            Err(error) => return Err(error),
        };
        while self.check(TokenType::LeftParen)
            invariant
                self.wf(),
                self.tokens() == old(self).tokens(),
                old(self).current < self.current,
                more_calls(self.tokens(), self.cursor(), expr@) == call(
                    old(self).tokens(),
                    old(self).cursor(),
                ),
            decreases self.tokens@.len() - self.current,
        {
            self.advance();
            expr = match self.finish_call(expr) {
                Ok(made) => made,
                Err(error) => return Err(error),
            };
        }
        Ok(expr)
    }

    fn primary(&mut self) -> (result: Result<Expr, LoxError>)
        requires
            old(self).wf(),
        ensures
            final(self).gave_expr(
                *old(self),
                result,
                primary(old(self).tokens(), old(self).cursor()),
            ),
        decreases old(self).tokens@.len() - old(self).current, 6nat,
    {
        if self.is_match(TokenType::False) {
            Ok(Expr::Literal(LiteralExpr::new(Some(Literal::Bool(false)))))
        } else if self.is_match(TokenType::True) {
            Ok(Expr::Literal(LiteralExpr::new(Some(Literal::Bool(true)))))
        } else if self.is_match(TokenType::Nil) {
            Ok(Expr::Literal(LiteralExpr::new(Some(Literal::Nil))))
        } else if self.is_match(TokenType::Number) || self.is_match(TokenType::String) {
            let literal = match &self.previous().literal {
                Some(value) => Some(value.clone()),
                None => None,
            };
            Ok(Expr::Literal(LiteralExpr::new(literal)))
        } else if self.is_match(TokenType::LeftParen) {
            let expr = match self.expression() {
                Ok(expr) => expr,
                Err(error) => return Err(error),
            };
            match self.consume(
                TokenType::RightParen,
                String::from_str("Expect ')' after expression."),
            ) {
                Ok(_) => Ok(Expr::Grouping(GroupingExpr::new(Rc::new(expr)))),
                Err(error) => Err(error),
            }
        } else if self.is_match(TokenType::Identifier) {
            let name = self.previous().clone();
            Ok(Expr::Variable(VariableExpr::new(name)))
        } else {
            Err(self.error(self.current, String::from_str("Expression expected")))
        }
    }

    /// Parses the rest of the token list: the declarations that parse, in
    /// order. One that ends in an error is reported and left out.
    pub fn parse(&mut self) -> (statements: Vec<Stmt>)
        requires
            old(self).wf(),
        ensures
            final(self).wf(),
            final(self).tokens() == old(self).tokens(),
            crate::stmt::trees(statements@) == program_rest(
                old(self).tokens(),
                old(self).cursor(),
                Seq::empty(),
            ).statements,
            describes(
                final(self).reported(),
                program_rest(old(self).tokens(), old(self).cursor(), Seq::empty()).faults,
                old(self).tokens(),
            ),
    {
        let mut statements: Vec<Stmt> = Vec::new();
        assert(crate::stmt::trees(statements@) == Seq::<Statement>::empty());
        while !self.is_at_end()
            invariant
                self.wf(),
                self.tokens() == old(self).tokens(),
                program_rest(self.tokens(), self.cursor(), crate::stmt::trees(statements@))
                    == program_rest(old(self).tokens(), old(self).cursor(), Seq::empty()),
            decreases self.tokens@.len() - self.current,
        {
            match self.declaration() {
                Ok(statement) => {
                    proof {
                        crate::stmt::lemma_trees_push(statements@, statement);
                    }
                    statements.push(statement);
                },
                Err(_) => {},
            }
        }
        statements
    }

    fn declaration(&mut self) -> (result: Result<Stmt, LoxError>)
        requires
            old(self).wf(),
            !at_end(old(self).tokens(), old(self).cursor().at),
        ensures
            final(self).gave_stmt(
                *old(self),
                result,
                declaration(old(self).tokens(), old(self).cursor()),
            ),
            old(self).cursor().at < final(self).cursor().at,
        decreases old(self).tokens@.len() - old(self).current, 21nat,
    {
        let result = if self.is_match(TokenType::Var) {
            self.var_declaration()
        } else if self.is_match(TokenType::Fun) {
            self.function("function")
        } else {
            self.statement()
        };
        if result.is_err() {
            self.synchronize();
        }
        result
    }

    fn statement(&mut self) -> (result: Result<Stmt, LoxError>)
        requires
            old(self).wf(),
        ensures
            final(self).gave_stmt(
                *old(self),
                result,
                statement(old(self).tokens(), old(self).cursor()),
            ),
        decreases old(self).tokens@.len() - old(self).current, 20nat,
    {
        if self.is_match(TokenType::For) {
            return self.for_statement();
        }
        if self.is_match(TokenType::If) {
            return self.if_statement();
        }
        if self.is_match(TokenType::Print) {
            return self.print_statement();
        }
        if self.is_match(TokenType::Return) {
            return self.return_statement();
        }
        if self.is_match(TokenType::While) {
            return self.while_statement();
        }
        if self.is_match(TokenType::LeftBrace) {
            return match self.block() {
                Ok(statements) => Ok(Stmt::Block(BlockStmt::new(Rc::new(statements)))),
                Err(error) => Err(error),
            };
        }
        self.expression_statement()
    }

    /// The first clause of a `for`.
    fn for_initializer(&mut self) -> (result: Result<Option<Stmt>, LoxError>)
        requires
            old(self).wf(),
        ensures
            final(self).reached(
                *old(self),
                for_initializer(old(self).tokens(), old(self).cursor()),
            ),
            match result {
                Ok(Some(stmt)) => for_initializer(old(self).tokens(), old(self).cursor()).node
                    == Some(Some(stmt@)),
                Ok(None) => for_initializer(old(self).tokens(), old(self).cursor()).node == Some(
                    None::<Statement>,
                ),
                Err(error) => for_initializer(old(self).tokens(), old(self).cursor()).node is None
                    && final(self).reported().len() > 0 && error == final(self).reported().last(),
            },
        decreases old(self).tokens@.len() - old(self).current, 18nat,
    {
        if self.is_match(TokenType::Semicolon) {
            return Ok(None);
        }
        let first = if self.is_match(TokenType::Var) {
            self.var_declaration()
        } else {
            self.expression_statement()
        };
        match first {
            Ok(statement) => Ok(Some(statement)),
            Err(error) => Err(error),
        }
    }

    /// A clause of a `for` that may be empty, with the token that ends it.
    fn for_clause(&mut self, end: TokenType, message: &str) -> (result: Result<
        Option<Expr>,
        LoxError,
    >)
        requires
            old(self).wf(),
        ensures
            final(self).reached(
                *old(self),
                for_clause(old(self).tokens(), old(self).cursor(), end, message@),
            ),
            match result {
                Ok(Some(expr)) => for_clause(
                    old(self).tokens(),
                    old(self).cursor(),
                    end,
                    message@,
                ).node == Some(Some(expr@)),
                Ok(None) => for_clause(old(self).tokens(), old(self).cursor(), end, message@).node
                    == Some(None::<Expression>),
                Err(error) => for_clause(
                    old(self).tokens(),
                    old(self).cursor(),
                    end,
                    message@,
                ).node is None && final(self).reported().len() > 0 && error
                    == final(self).reported().last(),
            },
        decreases old(self).tokens@.len() - old(self).current, 18nat,
    {
        let clause = if !self.check(end) {
            match self.expression() {
                Ok(expr) => Some(expr),
                Err(error) => return Err(error),
            }
        } else {
            None
        };
        match self.consume(end, String::from_str(message)) {
            Ok(_) => Ok(clause),
            Err(error) => Err(error),
        }
    }

    /// A `for` statement, behind the keyword: the loop that it stands for.
    fn for_statement(&mut self) -> (result: Result<Stmt, LoxError>)
        requires
            old(self).wf(),
        ensures
            final(self).gave_stmt(
                *old(self),
                result,
                for_statement(old(self).tokens(), old(self).cursor()),
            ),
        decreases old(self).tokens@.len() - old(self).current, 19nat,
    {
        match self.consume(TokenType::LeftParen, String::from_str("Expect '(' after 'for'.")) {
            Ok(_) => {},
            Err(error) => return Err(error),
        }
        let initializer = match self.for_initializer() {
            Ok(initializer) => initializer,
            Err(error) => return Err(error),
        };
        let condition = match self.for_clause(
            TokenType::Semicolon,
            "Expect ';' after loop condition.",
        ) {
            Ok(condition) => condition,
            Err(error) => return Err(error),
        };
        let increment = match self.for_clause(
            TokenType::RightParen,
            "Expect ')' after for clauses.",
        ) {
            Ok(increment) => increment,
            Err(error) => return Err(error),
        };
        match self.statement() {
            Ok(body) => Ok(Self::desugar(initializer, condition, increment, body)),
            Err(error) => Err(error),
        }
    }

    /// The loop that a `for` statement with these parts stands for.
    fn desugar(
        initializer: Option<Stmt>,
        condition: Option<Expr>,
        increment: Option<Expr>,
        body: Stmt,
    ) -> (result: Stmt)
        ensures
            result@ == desugar(
                match initializer {
                    Some(first) => Some(first@),
                    None => None,
                },
                match condition {
                    Some(test) => Some(test@),
                    None => None,
                },
                match increment {
                    Some(step) => Some(step@),
                    None => None,
                },
                body@,
            ),
    {
        let ghost repeated = body@;
        let stepped = match increment {
            Some(step) => {
                let after = Stmt::Expression(ExpressionStmt::new(Rc::new(step)));
                assert(after@ == Statement::Expression { expression: step@ });
                Stmt::Block(BlockStmt::new(Rc::new(Self::pair(body, after))))
            },
            None => body,
        };
        assert(stepped@ == match increment {
            Some(step) => Statement::Block {
                statements: seq![repeated, Statement::Expression { expression: step@ }],
            },
            None => repeated,
        });
        let test = match condition {
            Some(test) => test,
            None => Expr::Literal(LiteralExpr::new(Some(Literal::Bool(true)))),
        };
        let ghost inner = stepped@;
        let ghost tested = test@;
        let repeat = Stmt::While(WhileStmt::new(Rc::new(test), Rc::new(stepped)));
        assert(repeat@ == Statement::While { condition: tested, body: Box::new(inner) });
        let ghost looped = repeat@;
        match initializer {
            Some(first) => {
                let whole = Stmt::Block(BlockStmt::new(Rc::new(Self::pair(first, repeat))));
                assert(whole@ == Statement::Block { statements: seq![first@, looped] });
                whole
            },
            None => repeat,
        }
    }

    /// Two statements in a row.
    fn pair(first: Stmt, second: Stmt) -> (list: Vec<Stmt>)
        ensures
            crate::stmt::trees(list@) == seq![first@, second@],
    {
        let mut list: Vec<Stmt> = Vec::new();
        proof {
            assert(crate::stmt::trees(list@) == Seq::<Statement>::empty());
            crate::stmt::lemma_trees_push(list@, first);
            crate::stmt::lemma_trees_push(list@.push(first), second);
        }
        list.push(first);
        list.push(second);
        list
    }

    /// The condition of an `if` or a `while`, in its parentheses.
    fn condition(&mut self, before: &str, after: &str) -> (result: Result<Expr, LoxError>)
        requires
            old(self).wf(),
        ensures
            final(self).gave_expr(
                *old(self),
                result,
                condition(old(self).tokens(), old(self).cursor(), before@, after@),
            ),
        decreases old(self).tokens@.len() - old(self).current, 17nat,
    {
        match self.consume(TokenType::LeftParen, String::from_str(before)) {
            Ok(_) => {},
            Err(error) => return Err(error),
        }
        let test = match self.expression() {
            Ok(test) => test,
            Err(error) => return Err(error),
        };
        match self.consume(TokenType::RightParen, String::from_str(after)) {
            Ok(_) => Ok(test),
            Err(error) => Err(error),
        }
    }

    fn if_statement(&mut self) -> (result: Result<Stmt, LoxError>)
        requires
            old(self).wf(),
        ensures
            final(self).gave_stmt(
                *old(self),
                result,
                if_statement(old(self).tokens(), old(self).cursor()),
            ),
        decreases old(self).tokens@.len() - old(self).current, 18nat,
    {
        let condition = match self.condition(
            "Expect '(' after 'if'.",
            "Expect ')' after if condition.",
        ) {
            Ok(condition) => condition,
            Err(error) => return Err(error),
        };
        let then_branch = match self.statement() {
            Ok(then_branch) => then_branch,
            Err(error) => return Err(error),
        };
        let else_branch = if self.is_match(TokenType::Else) {
            match self.statement() {
                Ok(else_branch) => Some(Rc::new(else_branch)),
                Err(error) => return Err(error),
            }
        } else {
            None
        };
        Ok(Stmt::If(IfStmt::new(Rc::new(condition), Rc::new(then_branch), else_branch)))
    }

    fn print_statement(&mut self) -> (result: Result<Stmt, LoxError>)
        requires
            old(self).wf(),
        ensures
            final(self).gave_stmt(
                *old(self),
                result,
                print_statement(old(self).tokens(), old(self).cursor()),
            ),
        decreases old(self).tokens@.len() - old(self).current, 17nat,
    {
        let value = match self.expression() {
            Ok(value) => value,
            Err(error) => return Err(error),
        };
        match self.consume(TokenType::Semicolon, String::from_str("Expect ';' after value.")) {
            Ok(_) => Ok(Stmt::Print(PrintStmt::new(Rc::new(value)))),
            Err(error) => Err(error),
        }
    }

    fn return_statement(&mut self) -> (result: Result<Stmt, LoxError>)
        requires
            old(self).wf(),
            old(self).current > 0,
        ensures
            final(self).gave_stmt(
                *old(self),
                result,
                return_statement(
                    old(self).tokens(),
                    old(self).cursor(),
                    old(self).tokens()[old(self).cursor().at - 1],
                ),
            ),
        decreases old(self).tokens@.len() - old(self).current, 17nat,
    {
        let keyword = self.previous().clone();
        let value = if self.check(TokenType::Semicolon) {
            None
        } else {
            match self.expression() {
                Ok(value) => Some(Rc::new(value)),
                Err(error) => return Err(error),
            }
        };
        match self.consume(
            TokenType::Semicolon,
            String::from_str("Expect ';' after return value."),
        ) {
            Ok(_) => Ok(Stmt::Return(ReturnStmt::new(keyword, value))),
            Err(error) => Err(error),
        }
    }

    fn var_declaration(&mut self) -> (result: Result<Stmt, LoxError>)
        requires
            old(self).wf(),
        ensures
            final(self).gave_stmt(
                *old(self),
                result,
                var_declaration(old(self).tokens(), old(self).cursor()),
            ),
        decreases old(self).tokens@.len() - old(self).current, 17nat,
    {
        let name = match self.consume(
            TokenType::Identifier,
            String::from_str("Expect variable name."),
        ) {
            Ok(name) => name,
            Err(error) => return Err(error),
        };
        let initializer = if self.is_match(TokenType::Equal) {
            match self.expression() {
                Ok(value) => Some(Rc::new(value)),
                Err(error) => return Err(error),
            }
        } else {
            None
        };
        match self.consume(
            TokenType::Semicolon,
            String::from_str("Expect ';' after variable declaration."),
        ) {
            Ok(_) => Ok(Stmt::Var(VarStmt::new(name, initializer))),
            Err(error) => Err(error),
        }
    }

    fn while_statement(&mut self) -> (result: Result<Stmt, LoxError>)
        requires
            old(self).wf(),
        ensures
            final(self).gave_stmt(
                *old(self),
                result,
                while_statement(old(self).tokens(), old(self).cursor()),
            ),
        decreases old(self).tokens@.len() - old(self).current, 18nat,
    {
        let condition = match self.condition(
            "Expect '(' after 'while'.",
            "Expect ')' after condition.",
        ) {
            Ok(condition) => condition,
            Err(error) => return Err(error),
        };
        match self.statement() {
            Ok(body) => Ok(Stmt::While(WhileStmt::new(Rc::new(condition), Rc::new(body)))),
            Err(error) => Err(error),
        }
    }

    fn expression_statement(&mut self) -> (result: Result<Stmt, LoxError>)
        requires
            old(self).wf(),
        ensures
            final(self).gave_stmt(
                *old(self),
                result,
                expression_statement(old(self).tokens(), old(self).cursor()),
            ),
        decreases old(self).tokens@.len() - old(self).current, 17nat,
    {
        let expr = match self.expression() {
            Ok(expr) => expr,
            Err(error) => return Err(error),
        };
        match self.consume(TokenType::Semicolon, String::from_str("Expect ';' after value.")) {
            Ok(_) => Ok(Stmt::Expression(ExpressionStmt::new(Rc::new(expr)))),
            Err(error) => Err(error),
        }
    }

    /// The parameters of a declaration and the closing parenthesis, behind
    /// the opening one.
    fn parameters(&mut self) -> (result: Result<Vec<Token>, LoxError>)
        requires
            old(self).wf(),
        ensures
            final(self).reached(*old(self), parameters(old(self).tokens(), old(self).cursor())),
            match result {
                Ok(list) => parameters(old(self).tokens(), old(self).cursor()).node == Some(list@),
                Err(error) => parameters(old(self).tokens(), old(self).cursor()).node is None
                    && final(self).reported().len() > 0 && error == final(self).reported().last(),
            },
    {
        let mut list: Vec<Token> = Vec::new();
        if !self.check(TokenType::RightParen) {
            let first = match self.consume(
                TokenType::Identifier,
                String::from_str("Expect parameter name."),
            ) {
                Ok(first) => first,
                Err(error) => return Err(error),
            };
            list.push(first);
            assert(list@ == seq![first]);
            let ghost rest = more_parameters(self.tokens(), self.cursor(), list@);
            while self.check(TokenType::Comma)
                invariant
                    self.wf(),
                    self.tokens() == old(self).tokens(),
                    old(self).current < self.current,
                    more_parameters(self.tokens(), self.cursor(), list@) == rest,
                    parameters(old(self).tokens(), old(self).cursor()) == (match rest.node {
                        Some(names) => {
                            let close = consume(
                                old(self).tokens(),
                                rest.cursor,
                                TokenType::RightParen,
                                "Expect ')' after parameters."@,
                            );
                            match close.node {
                                Some(_) => Parsed { node: Some(names), cursor: close.cursor },
                                None => crate::grammar::failed(close.cursor),
                            }
                        },
                        None => rest,
                    }),
                decreases self.tokens@.len() - self.current,
            {
                self.advance();
                if list.len() >= MAX_ARGUMENTS_COUNT {
                    self.error(
                        self.current,
                        String::from_str("Can't have more than 255 parameters."),
                    );
                }
                let next = match self.consume(
                    TokenType::Identifier,
                    String::from_str("Expect parameter name."),
                ) {
                    Ok(next) => next,
                    Err(error) => return Err(error),
                };
                list.push(next);
            }
        }
        match self.consume(
            TokenType::RightParen,
            String::from_str("Expect ')' after parameters."),
        ) {
            Ok(_) => Ok(list),
            Err(error) => Err(error),
        }
    }

    /// A function declaration, behind the keyword; `kind` names what is
    /// declared in the messages.
    fn function(&mut self, kind: &str) -> (result: Result<Stmt, LoxError>)
        requires
            old(self).wf(),
        ensures
            final(self).gave_stmt(
                *old(self),
                result,
                function(old(self).tokens(), old(self).cursor(), kind@),
            ),
        decreases old(self).tokens@.len() - old(self).current, 17nat,
    {
        let mut expected = String::from_str("Expect ");
        expected.append(kind);
        expected.append(" name");
        let name = match self.consume(TokenType::Identifier, expected) {
            Ok(name) => name,
            Err(error) => return Err(error),
        };
        let mut expected = String::from_str("Expect '(' after ");
        expected.append(kind);
        expected.append(" name.");
        match self.consume(TokenType::LeftParen, expected) {
            Ok(_) => {},
            Err(error) => return Err(error),
        }
        let parameters = match self.parameters() {
            Ok(parameters) => parameters,
            Err(error) => return Err(error),
        };
        let mut expected = String::from_str("Expect '{' before ");
        expected.append(kind);
        expected.append(" body.");
        match self.consume(TokenType::LeftBrace, expected) {
            Ok(_) => {},
            Err(error) => return Err(error),
        }
        match self.block() {
            Ok(body) => Ok(Stmt::Function(FunctionStmt::new(name, parameters, Rc::new(body)))),
            Err(error) => Err(error),
        }
    }

    /// The declarations of a block and its closing brace, behind the opening
    /// one.
    fn block(&mut self) -> (result: Result<Vec<Stmt>, LoxError>)
        requires
            old(self).wf(),
        ensures
            final(self).reached(*old(self), block(old(self).tokens(), old(self).cursor())),
            match result {
                Ok(list) => block(old(self).tokens(), old(self).cursor()).node == Some(
                    crate::stmt::trees(list@),
                ),
                Err(error) => block(old(self).tokens(), old(self).cursor()).node is None
                    && final(self).reported().len() > 0 && error == final(self).reported().last(),
            },
        decreases old(self).tokens@.len() - old(self).current, 23nat,
    {
        let mut statements: Vec<Stmt> = Vec::new();
        assert(crate::stmt::trees(statements@) == Seq::<Statement>::empty());
        while !self.check(TokenType::RightBrace) && !self.is_at_end()
            invariant
                self.wf(),
                self.tokens() == old(self).tokens(),
                old(self).current <= self.current,
                block_rest(self.tokens(), self.cursor(), crate::stmt::trees(statements@)) == block(
                    old(self).tokens(),
                    old(self).cursor(),
                ),
            decreases self.tokens@.len() - self.current,
        {
            match self.declaration() {
                Ok(statement) => {
                    proof {
                        crate::stmt::lemma_trees_push(statements@, statement);
                    }
                    statements.push(statement);
                },
                Err(error) => return Err(error),
            }
        }
        match self.consume(TokenType::RightBrace, String::from_str("Expect '}' after block.")) {
            Ok(_) => Ok(statements),
            Err(error) => Err(error),
        }
    }

    /// Skips to where parsing can go on after an error.
    fn synchronize(&mut self)
        requires
            old(self).wf(),
        ensures
            final(self).wf(),
            final(self).tokens() == old(self).tokens(),
            final(self).reported() == old(self).reported(),
            final(self).cursor() == (Cursor {
                at: synchronize(old(self).tokens(), old(self).cursor().at),
                faults: old(self).cursor().faults,
            }),
            old(self).cursor().at <= final(self).cursor().at,
            !at_end(old(self).tokens(), old(self).cursor().at) ==> old(self).cursor().at
                < final(self).cursor().at,
    {
        if self.is_at_end() {
            return ;
        }
        self.advance();
        while !self.is_at_end()
            invariant
                self.wf(),
                self.tokens == old(self).tokens,
                self.errors == old(self).errors,
                self.faults == old(self).faults,
                old(self).current < self.current,
                resume_at(self.tokens@, self.current as int) == synchronize(
                    old(self).tokens@,
                    old(self).current as int,
                ),
            decreases self.tokens@.len() - self.current,
        {
            if self.previous().token_type == TokenType::Semicolon {
                return ;
            }
            match self.peek().token_type {
                TokenType::Class
                | TokenType::Fun
                | TokenType::Var
                | TokenType::For
                | TokenType::If
                | TokenType::While
                | TokenType::Print
                | TokenType::Return => return ,
                _ => {},
            }
            self.advance();
        }
    }
}

} // verus!
