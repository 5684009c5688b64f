use vstd::prelude::*;
use vstd::string::StringExecFns;
use crate::error_reporter::LoxError;
use crate::expr::Expr;
use crate::grammar::{Expression, Statement};
use crate::interpreter::Interpreter;
use crate::stmt::Stmt;
use crate::token::Token;

verus! {

/// A name in a scope, and whether its declaration is complete.
struct Binding {
    name: String,
    ready: bool,
}

/// A pass over the statements before they run. It follows the blocks and
/// function bodies with a scope for each and reports every variable that is
/// read in its own initializer.
pub struct Resolver<'a> {
    interpreter: &'a Interpreter,
    scopes: Vec<Vec<Binding>>,
    errors: Vec<LoxError>,
    faults: Ghost<Seq<Token>>,
}

/// The scopes around a place, the innermost last. A name maps to whether its
/// declaration is complete.
pub type Scopes = Seq<Map<Seq<char>, bool>>;

/// What the pass has made of the statements so far: the scopes, and the
/// names that it has reported.
pub struct Resolution {
    pub scopes: Scopes,
    pub faults: Seq<Token>,
}

/// The scopes with `name` put into the innermost; outside every scope
/// nothing is kept.
pub open spec fn put(scopes: Scopes, name: Seq<char>, ready: bool) -> Scopes {
    if scopes.len() == 0 {
        scopes
    } else {
        scopes.update(scopes.len() - 1, scopes.last().insert(name, ready))
    }
}

/// Whether the innermost scope holds `name` with its declaration not yet
/// complete.
pub open spec fn unready(scopes: Scopes, name: Seq<char>) -> bool {
    scopes.len() > 0 && scopes.last().contains_key(name) && !scopes.last()[name]
}

/// The scopes without the innermost.
pub open spec fn left(scopes: Scopes) -> Scopes {
    if scopes.len() == 0 {
        scopes
    } else {
        scopes.drop_last()
    }
}

/// The scopes with the parameters from `from` on put into the innermost.
pub open spec fn with_parameters(scopes: Scopes, params: Seq<Token>, from: int) -> Scopes
    decreases params.len() - from,
{
    if 0 <= from < params.len() {
        with_parameters(put(scopes, params[from].lexeme@, true), params, from + 1)
    } else {
        scopes
    }
}

/// The names reported in the expressions from `from` on.
pub open spec fn in_expressions(list: Seq<Expression>, from: int, scopes: Scopes) -> Seq<Token>
    decreases list, list.len() - from,
{
    if 0 <= from < list.len() {
        in_expression(list[from], scopes) + in_expressions(list, from + 1, scopes)
    } else {
        Seq::empty()
    }
}

/// The names reported in an expression: those of the variables that are read
/// where the innermost scope holds them incomplete, from left to right.
pub open spec fn in_expression(e: Expression, scopes: Scopes) -> Seq<Token>
    decreases e,
{
    match e {
        Expression::Assign { name, value } => in_expression(*value, scopes),
        Expression::Binary { left, operator, right } => in_expression(*left, scopes)
            + in_expression(*right, scopes),
        Expression::Call { callee, paren, arguments } => in_expression(*callee, scopes)
            + in_expressions(arguments, 0, scopes),
        Expression::Grouping { expression } => in_expression(*expression, scopes),
        Expression::Literal { value } => Seq::empty(),
        Expression::Logical { left, operator, right } => in_expression(*left, scopes)
            + in_expression(*right, scopes),
        Expression::Unary { operator, right } => in_expression(*right, scopes),
        Expression::Variable { name } => if unready(scopes, name.lexeme@) {
            seq![name]
        } else {
            Seq::empty()
        },
    }
}

/// The names reported in an expression that may be missing.
pub open spec fn in_optional(e: Option<Expression>, scopes: Scopes) -> Seq<Token> {
    match e {
        Some(expression) => in_expression(expression, scopes),
        None => Seq::empty(),
    }
}

/// What the pass makes of the statements from `from` on.
pub open spec fn in_statements(list: Seq<Statement>, from: int, r: Resolution) -> Resolution
    decreases list, list.len() - from,
{
    if 0 <= from < list.len() {
        in_statements(list, from + 1, in_statement(list[from], r))
    } else {
        r
    }
}

/// What the pass makes of a statement. A variable is in its scope from its
/// declaration on and complete behind its initializer; a function is
/// complete at once, and its body has a scope with its parameters; a block
/// has a scope of its own.
pub open spec fn in_statement(s: Statement, r: Resolution) -> Resolution
    decreases s,
{
    match s {
        Statement::Block { statements } => {
            let inner = in_statements(
                statements,
                0,
                Resolution { scopes: r.scopes.push(Map::empty()), faults: r.faults },
            );
            Resolution { scopes: left(inner.scopes), faults: inner.faults }
        },
        Statement::Expression { expression } => Resolution {
            scopes: r.scopes,
            faults: r.faults + in_expression(expression, r.scopes),
        },
        Statement::Function { name, params, body } => {
            let declared = put(put(r.scopes, name.lexeme@, false), name.lexeme@, true);
            let inner = in_statements(
                body,
                0,
                Resolution {
                    scopes: with_parameters(declared.push(Map::empty()), params, 0),
                    faults: r.faults,
                },
            );
            Resolution { scopes: left(inner.scopes), faults: inner.faults }
        },
        Statement::If { condition, then_branch, else_branch } => {
            let tested = Resolution {
                scopes: r.scopes,
                faults: r.faults + in_expression(condition, r.scopes),
            };
            let then = in_statement(*then_branch, tested);
            match else_branch {
                Some(other) => in_statement(*other, then),
                None => then,
            }
        },
        Statement::Print { expression } => Resolution {
            scopes: r.scopes,
            faults: r.faults + in_expression(expression, r.scopes),
        },
        Statement::Return { keyword, value } => Resolution {
            scopes: r.scopes,
            faults: r.faults + in_optional(value, r.scopes),
        },
        Statement::Var { name, initializer } => {
            let declared = put(r.scopes, name.lexeme@, false);
            Resolution {
                scopes: put(declared, name.lexeme@, true),
                faults: r.faults + in_optional(initializer, declared),
            }
        },
        Statement::While { condition, body } => in_statement(
            *body,
            Resolution { scopes: r.scopes, faults: r.faults + in_expression(condition, r.scopes) },
        ),
    }
}

/// The names of the first `count` bindings, each with the state of its last
/// binding among them.
spec fn held_to(bindings: Seq<Binding>, count: nat) -> Map<Seq<char>, bool>
    decreases count,
{
    if count == 0 || count > bindings.len() {
        Map::empty()
    } else {
        held_to(bindings, (count - 1) as nat).insert(
            bindings[count - 1].name@,
            bindings[count - 1].ready,
        )
    }
}

spec fn held(bindings: Seq<Binding>) -> Map<Seq<char>, bool> {
    held_to(bindings, bindings.len())
}

proof fn lemma_held_to(bindings: Seq<Binding>, longer: Seq<Binding>, count: nat)
    requires
        count <= bindings.len() <= longer.len(),
        forall|i: int| 0 <= i < count ==> bindings[i] == longer[i],
    ensures
        held_to(bindings, count) == held_to(longer, count),
    decreases count,
{
    if count > 0 {
        lemma_held_to(bindings, longer, (count - 1) as nat);
    }
}

/// Whether `error` reports that `name` is read in its own initializer.
pub open spec fn reports(error: LoxError, name: Token) -> bool {
    error matches LoxError::ResolverError { token, message } && token == name && message@
        == "Can't read local variable in its own initializer."@
}

impl<'a> Resolver<'a> {
    /// The scopes around the place where the pass stands.
    pub closed spec fn scopes(&self) -> Scopes {
        Seq::new(self.scopes@.len(), |i: int| held(self.scopes@[i]@))
    }

    /// The names reported so far.
    pub closed spec fn faults(&self) -> Seq<Token> {
        self.faults@
    }

    /// The errors reported so far.
    pub closed spec fn reported(&self) -> Seq<LoxError> {
        self.errors@
    }

    /// What the pass has come to.
    pub open spec fn resolution(&self) -> Resolution {
        Resolution { scopes: self.scopes(), faults: self.faults() }
    }

    /// There is one error for each name reported.
    pub closed spec fn wf(&self) -> bool {
        &&& self.errors@.len() == self.faults@.len()
        &&& forall|i: int|
            0 <= i < self.errors@.len() ==> reports(#[trigger] self.errors@[i], self.faults@[i])
    }

    /// Whether the errors are those for the names reported.
    pub open spec fn describes(errors: Seq<LoxError>, faults: Seq<Token>) -> bool {
        &&& errors.len() == faults.len()
        &&& forall|i: int| 0 <= i < errors.len() ==> reports(#[trigger] errors[i], faults[i])
    }

    /// A pass that has not started: outside every scope, nothing reported.
    pub fn new(interpreter: &'a Interpreter) -> (resolver: Resolver<'a>)
        ensures
            resolver.wf(),
            resolver.resolution() == (Resolution { scopes: Seq::empty(), faults: Seq::empty() }),
            resolver.reported() == Seq::<LoxError>::empty(),
    {
        let resolver = Resolver {
            interpreter,
            scopes: Vec::new(),
            errors: Vec::new(),
            faults: Ghost(Seq::empty()),
        };
        assert(resolver.scopes() =~= Seq::empty());
        resolver
    }

    /// The errors reported so far, in the order in which they were reported.
    pub fn errors(&self) -> (errors: &Vec<LoxError>)
        requires
            self.wf(),
        ensures
            errors@ == self.reported(),
            Self::describes(errors@, self.faults()),
    {
        &self.errors
    }

    /// Goes through the statements in order.
    pub fn resolve(&mut self, statements: &Vec<Stmt>)
        requires
            old(self).wf(),
        ensures
            final(self).wf(),
            final(self).resolution() == in_statements(
                crate::stmt::trees(statements@),
                0,
                old(self).resolution(),
            ),
            Self::describes(final(self).reported(), final(self).faults()),
    {
        self.resolve_statements(statements);
    }

    fn resolve_statements(&mut self, statements: &Vec<Stmt>)
        requires
            old(self).wf(),
        ensures
            final(self).wf(),
            final(self).resolution() == in_statements(
                crate::stmt::trees(statements@),
                0,
                old(self).resolution(),
            ),
        decreases *statements, 1nat,
    {
        let ghost list = crate::stmt::trees(statements@);
        let mut index: usize = 0;
        proof {
            crate::stmt::lemma_trees_to(statements@, statements@, statements@.len());
        }
        while index < statements.len()
            invariant
                self.wf(),
                index <= statements@.len(),
                list == crate::stmt::trees(statements@),
                list.len() == statements@.len(),
                in_statements(list, index as int, self.resolution()) == in_statements(
                    list,
                    0,
                    old(self).resolution(),
                ),
            decreases statements@.len() - index,
        {
            proof {
                crate::stmt::lemma_trees_index(statements@, statements@.len(), index as int);
                vstd::std_specs::vec::axiom_vec_index_decreases(*statements, index as int);
            }
            self.resolve_statement(&statements[index]);
            index += 1;
        }
    }

    fn begin_scope(&mut self)
        requires
            old(self).wf(),
        ensures
            final(self).wf(),
            final(self).scopes() == old(self).scopes().push(Map::empty()),
            final(self).faults() == old(self).faults(),
    {
        self.scopes.push(Vec::new());
        assert(self.scopes() =~= old(self).scopes().push(Map::empty()));
    }

    fn end_scope(&mut self)
        requires
            old(self).wf(),
        ensures
            final(self).wf(),
            final(self).scopes() == left(old(self).scopes()),
            final(self).faults() == old(self).faults(),
    {
        self.scopes.pop();
        assert(self.scopes() =~= left(old(self).scopes()));
    }

    /// Puts a name into the innermost scope.
    fn put(&mut self, name: &Token, ready: bool)
        requires
            old(self).wf(),
        ensures
            final(self).wf(),
            final(self).scopes() == put(old(self).scopes(), name.lexeme@, ready),
            final(self).faults() == old(self).faults(),
    {
        let depth = self.scopes.len();
        if depth > 0 {
            let ghost before = self.scopes@[depth - 1]@;
            let binding = Binding { name: name.lexeme.clone(), ready };
            self.scopes[depth - 1].push(binding);
            proof {
                lemma_held_to(before, before.push(binding), before.len());
                assert(self.scopes@[depth - 1]@ == before.push(binding));
                assert(held(self.scopes@[depth - 1]@) == held(before).insert(name.lexeme@, ready));
                assert forall|i: int| 0 <= i < depth - 1 implies self.scopes@[i] == old(
                    self,
                ).scopes@[i] by {}
                assert(self.scopes() =~= put(old(self).scopes(), name.lexeme@, ready));
            }
        }
    }

    /// Notes a name whose declaration has begun.
    fn declare(&mut self, name: &Token)
        requires
            old(self).wf(),
        ensures
            final(self).wf(),
            final(self).scopes() == put(old(self).scopes(), name.lexeme@, false),
            final(self).faults() == old(self).faults(),
    {
        self.put(name, false);
    }

    /// Notes a name whose declaration is complete.
    fn define(&mut self, name: &Token)
        requires
            old(self).wf(),
        ensures
            final(self).wf(),
            final(self).scopes() == put(old(self).scopes(), name.lexeme@, true),
            final(self).faults() == old(self).faults(),
    {
        self.put(name, true);
    }

    /// Whether the innermost scope holds the name incomplete.
    fn is_unready(&self, name: &Token) -> (found: bool)
        requires
            self.wf(),
        ensures
            found == unready(self.scopes(), name.lexeme@),
    {
        let depth = self.scopes.len();
        if depth == 0 {
            return false;
        }
        let scope = &self.scopes[depth - 1];
        let mut state: Option<bool> = None;
        let mut index: usize = 0;
        while index < scope.len()
            invariant
                index <= scope@.len(),
                state == if held_to(scope@, index as nat).contains_key(name.lexeme@) {
                    Some(held_to(scope@, index as nat)[name.lexeme@])
                } else {
                    None
                },
            decreases scope@.len() - index,
        {
            if scope[index].name == name.lexeme {
                state = Some(scope[index].ready);
            }
            index += 1;
        }
        match state {
            Some(ready) => !ready,
            None => false,
        }
    }

    fn resolve_function(&mut self, params: &Vec<Token>, body: &Vec<Stmt>)
        requires
            old(self).wf(),
        ensures
            final(self).wf(),
            ({
                let inner = in_statements(
                    crate::stmt::trees(body@),
                    0,
                    Resolution {
                        scopes: with_parameters(
                            old(self).scopes().push(Map::empty()),
                            params@,
                            0,
                        ),
                        faults: old(self).faults(),
                    },
                );
                final(self).resolution() == (Resolution {
                    scopes: left(inner.scopes),
                    faults: inner.faults,
                })
            }),
        decreases *body, 2nat,
    {
        self.begin_scope();
        let mut index: usize = 0;
        while index < params.len()
            invariant
                self.wf(),
                index <= params@.len(),
                self.faults() == old(self).faults(),
                with_parameters(self.scopes(), params@, index as int) == with_parameters(
                    old(self).scopes().push(Map::empty()),
                    params@,
                    0,
                ),
            decreases params@.len() - index,
        {
            let ghost scopes = self.scopes();
            self.declare(&params[index]);
            self.define(&params[index]);
            proof {
                let name = params@[index as int].lexeme@;
                assert(put(put(scopes, name, false), name, true) =~= put(scopes, name, true)) by {
                    if scopes.len() > 0 {
                        assert(scopes.last().insert(name, false).insert(name, true)
                            =~= scopes.last().insert(name, true));
                    }
                }
            }
            index += 1;
        }
        self.resolve_statements(body);
        self.end_scope();
    }

    fn report(&mut self, name: &Token)
        requires
            old(self).wf(),
        ensures
            final(self).wf(),
            final(self).scopes() == old(self).scopes(),
            final(self).faults() == old(self).faults().push(*name),
    {
        self.errors.push(
            LoxError::resolver_error(
                name.clone(),
                String::from_str("Can't read local variable in its own initializer."),
            ),
        );
        proof {
            self.faults@ = self.faults@.push(*name);
        }
    }

    fn resolve_expression(&mut self, expr: &Expr)
        requires
            old(self).wf(),
        ensures
            final(self).wf(),
            final(self).scopes() == old(self).scopes(),
            final(self).faults() == old(self).faults() + in_expression(expr@, old(self).scopes()),
        decreases *expr,
    {
        match expr {
            Expr::Assign(node) => {
                assert(decreases_to!(*expr => expr->Assign_0));
                self.resolve_expression(&node.value);
            },
            Expr::Binary(node) => {
                assert(decreases_to!(*expr => expr->Binary_0));
                self.resolve_expression(&node.left);
                self.resolve_expression(&node.right);
                assert(self.faults() =~= old(self).faults() + in_expression(
                    expr@,
                    old(self).scopes(),
                ));
            },
            Expr::Call(node) => {
                assert(decreases_to!(*expr => expr->Call_0));
                self.resolve_expression(&node.callee);
                let ghost list = crate::expr::trees(node.arguments@);
                let ghost scopes = old(self).scopes();
                let ghost head = self.faults();
                let mut index: usize = 0;
                proof {
                    crate::expr::lemma_trees_to(
                        node.arguments@,
                        node.arguments@,
                        node.arguments@.len(),
                    );
                    assert(head + Seq::<Token>::empty() =~= head);
                }
                while index < node.arguments.len()
                    invariant
                        self.wf(),
                        index <= node.arguments@.len(),
                        *expr is Call,
                        expr->Call_0 == *node,
                        list == crate::expr::trees(node.arguments@),
                        list.len() == node.arguments@.len(),
                        self.scopes() == scopes,
                        self.faults() + in_expressions(list, index as int, scopes) == head
                            + in_expressions(list, 0, scopes),
                    decreases node.arguments@.len() - index,
                {
                    proof {
                        assert(decreases_to!(*expr => expr->Call_0));
                        vstd::std_specs::vec::axiom_vec_index_decreases(
                            node.arguments,
                            index as int,
                        );
                        crate::expr::lemma_trees_index(
                            node.arguments@,
                            node.arguments@.len(),
                            index as int,
                        );
                    }
                    let ghost so_far = self.faults();
                    self.resolve_expression(&node.arguments[index]);
                    proof {
                        let found = in_expression(list[index as int], scopes);
                        let rest = in_expressions(list, index + 1, scopes);
                        assert((so_far + found) + rest =~= so_far + (found + rest));
                    }
                    index += 1;
                }
                proof {
                    assert(self.faults() + Seq::<Token>::empty() =~= self.faults());
                    let all = in_expressions(list, 0, scopes);
                    let first = in_expression(node.callee@, scopes);
                    assert((old(self).faults() + first) + all =~= old(self).faults() + (first
                        + all));
                }
            },
            Expr::Grouping(node) => {
                assert(decreases_to!(*expr => expr->Grouping_0));
                self.resolve_expression(&node.expression);
            },
            Expr::Literal(node) => {
                assert(self.faults() + Seq::<Token>::empty() =~= self.faults());
            },
            Expr::Logical(node) => {
                assert(decreases_to!(*expr => expr->Logical_0));
                self.resolve_expression(&node.left);
                self.resolve_expression(&node.right);
                assert(self.faults() =~= old(self).faults() + in_expression(
                    expr@,
                    old(self).scopes(),
                ));
            },
            Expr::Unary(node) => {
                assert(decreases_to!(*expr => expr->Unary_0));
                self.resolve_expression(&node.right);
            },
            Expr::Variable(node) => {
                if self.is_unready(&node.name) {
                    self.report(&node.name);
                    assert(self.faults() =~= old(self).faults() + seq![node.name]);
                } else {
                    assert(self.faults() + Seq::<Token>::empty() =~= self.faults());
                }
            },
        }
    }

    fn resolve_statement(&mut self, stmt: &Stmt)
        requires
            old(self).wf(),
        ensures
            final(self).wf(),
            final(self).resolution() == in_statement(stmt@, old(self).resolution()),
        decreases *stmt, 0nat,
    {
        match stmt {
            Stmt::Block(node) => {
                assert(decreases_to!(*stmt => stmt->Block_0));
                self.begin_scope();
                self.resolve_statements(&node.statements);
                self.end_scope();
            },
            Stmt::Expression(node) => {
                self.resolve_expression(&node.expression);
            },
            Stmt::Function(node) => {
                assert(decreases_to!(*stmt => stmt->Function_0));
                self.declare(&node.name);
                self.define(&node.name);
                self.resolve_function(&node.params, &node.body);
            },
            Stmt::If(node) => {
                assert(decreases_to!(*stmt => stmt->If_0));
                self.resolve_expression(&node.condition);
                self.resolve_statement(&node.then_branch);
                match &node.else_branch {
                    Some(other) => {
                        self.resolve_statement(other);
                    },
                    None => {},
                }
            },
            Stmt::Print(node) => {
                self.resolve_expression(&node.expression);
            },
            Stmt::Return(node) => {
                match &node.value {
                    Some(value) => {
                        self.resolve_expression(value);
                    },
                    None => {
                        assert(self.faults() + Seq::<Token>::empty() =~= self.faults());
                    },
                }
            },
            Stmt::Var(node) => {
                self.declare(&node.name);
                match &node.initializer {
                    Some(initializer) => {
                        self.resolve_expression(initializer);
                    },
                    None => {
                        assert(self.faults() + Seq::<Token>::empty() =~= self.faults());
                    },
                }
                self.define(&node.name);
            },
            Stmt::While(node) => {
                assert(decreases_to!(*stmt => stmt->While_0));
                self.resolve_expression(&node.condition);
                self.resolve_statement(&node.body);
            },
        }
    }
}

} // verus!
