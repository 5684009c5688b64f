use vstd::prelude::*;
use vstd::string::StringExecFns;
use std::rc::Rc;
use crate::callable::LoxCallable;
use crate::environment::Environment;
use crate::error_reporter::LoxError;
use crate::expr::Expr;
use crate::function::{share, LoxFunction};
use crate::host::{Action, Event};
use crate::literal::{Fragment, Literal};
use crate::native_functions::Clock;
use crate::semantics::{
    arity_complaint, arity_mismatch, binary, binary_operation, failure, fails, is_short_circuit,
    is_truthy, short_circuits, truthy, unary, unary_operation, Operation, Outcome,
};
use crate::stmt::Stmt;
use crate::token::Token;
use crate::token_type::TokenType;

verus! {

/// What a decimal that the host writes is for.
#[derive(Debug)]
pub enum Purpose {
    /// It is printed.
    Print,
    /// It goes before this text.
    Before { text: String },
    /// It goes after this text.
    After { text: String },
}

/// What the interpreter has asked of the host and not had yet.
#[derive(Debug)]
pub enum Pending {
    Arithmetic { operator: TokenType, left: u64, right: u64 },
    Clock,
    Format { number: u64, purpose: Purpose },
    Print { text: String },
}

/// What the interpreter does next.
#[derive(Debug)]
pub enum Control {
    /// Evaluate this expression.
    Evaluate(Rc<Expr>),
    /// Execute this statement.
    Execute(Rc<Stmt>),
    /// An expression has this value: hand it to the frame on top.
    Value(Literal),
    /// A statement is done: go on with the frame on top.
    Completed,
    /// A `return` with this value is on its way out of a call.
    Returning(Literal),
    /// Wait for the host.
    Waiting(Pending),
}

/// What is left to do once the current expression or statement is done: one
/// frame for each construct that is under way.
#[derive(Debug)]
pub enum Frame {
    /// Apply the operator to the value.
    Unary { operator: Token },
    /// The value is the left operand: evaluate the right one.
    BinaryLeft { operator: Token, right: Rc<Expr> },
    /// The value is the right operand: apply the operator.
    BinaryRight { operator: Token, left: Literal },
    /// The value is the left operand of `and` or `or`.
    Logical { operator: Token, right: Rc<Expr> },
    /// Assign the value to the variable.
    Assign { name: Token },
    /// The value is the callee of this call.
    Callee { call: Rc<Expr> },
    /// The value is the next argument of this call.
    Argument { call: Rc<Expr>, callee: Literal, values: Vec<Literal> },
    /// Drop the value: an expression statement ends.
    Discard,
    /// Print the value.
    Print,
    /// Declare the variable with the value.
    Define { name: Token },
    /// The value is the condition of an `if`.
    Branch { then_branch: Rc<Stmt>, else_branch: Option<Rc<Stmt>> },
    /// The value is the condition of a `while`.
    Test { condition: Rc<Expr>, body: Rc<Stmt> },
    /// The value is what a `return` returns.
    Return,
    /// The body of a `while` is done: test again.
    Repeat { condition: Rc<Expr>, body: Rc<Stmt> },
    /// Execute the statements from `next` on.
    Sequence { statements: Rc<Vec<Stmt>>, next: usize },
    /// A block ends: leave the scope `entered` for the scope around it.
    Scope { previous: usize, entered: usize },
    /// A call ends: leave the scope `entered` for the caller's scope.
    Invocation { previous: usize, entered: usize },
}

/// What a frame waits for, and what it hands on when it is done.
#[derive(PartialEq, Eq, Structural, Clone, Copy, Debug)]
pub enum Kind {
    Value,
    Completion,
}

impl Frame {
    /// What the frame waits for.
    pub open spec fn expects(self) -> Kind {
        match self {
            Frame::Repeat { .. }
            | Frame::Sequence { .. }
            | Frame::Scope { .. }
            | Frame::Invocation { .. } => Kind::Completion,
            _ => Kind::Value,
        }
    }

    /// What the frame hands to the frame below when it is done.
    pub open spec fn gives(self) -> Kind {
        match self {
            Frame::Unary { .. }
            | Frame::BinaryLeft { .. }
            | Frame::BinaryRight { .. }
            | Frame::Logical { .. }
            | Frame::Assign { .. }
            | Frame::Callee { .. }
            | Frame::Argument { .. }
            | Frame::Invocation { .. } => Kind::Value,
            _ => Kind::Completion,
        }
    }

    /// The scope that the frame of a block or a call has entered.
    pub open spec fn entered(self) -> Option<usize> {
        match self {
            Frame::Scope { previous, entered } => Some(entered),
            Frame::Invocation { previous, entered } => Some(entered),
            _ => None,
        }
    }

    /// The scope that the frame of a block or a call goes back to.
    pub open spec fn previous(self) -> usize {
        match self {
            Frame::Scope { previous, entered } => previous,
            Frame::Invocation { previous, entered } => previous,
            _ => 0,
        }
    }

    /// The frame refers to scopes that exist, to a call where it belongs to
    /// one, and to a place inside its list.
    pub open spec fn fits(self, scopes: nat) -> bool {
        match self {
            Frame::Scope { previous, entered } => previous < entered < scopes,
            Frame::Invocation { previous, entered } => previous < entered < scopes,
            Frame::Callee { call } => *call is Call,
            Frame::Argument { call, callee, values } => *call matches Expr::Call(node)
                && values@.len() < node.arguments@.len(),
            Frame::Sequence { statements, next } => next <= statements@.len(),
            _ => true,
        }
    }
}

impl Pending {
    /// What the answer of the host turns into.
    pub open spec fn gives(self) -> Kind {
        match self {
            Pending::Format { number, purpose: Purpose::Print } => Kind::Completion,
            Pending::Print { .. } => Kind::Completion,
            _ => Kind::Value,
        }
    }
}

impl Control {
    /// What the frame on top will be handed, where that is settled.
    pub open spec fn gives(self) -> Option<Kind> {
        match self {
            Control::Evaluate(_) | Control::Value(_) => Some(Kind::Value),
            Control::Execute(_) | Control::Completed => Some(Kind::Completion),
            Control::Returning(_) => None,
            Control::Waiting(pending) => Some(pending.gives()),
        }
    }
}

/// What the top of a stack of frames waits for; an empty stack, for the end
/// of the program.
pub open spec fn awaited(frames: Seq<Frame>) -> Kind {
    if frames.len() > 0 {
        frames.last().expects()
    } else {
        Kind::Completion
    }
}

/// The scope that is current under the first `count` frames: the one that
/// the topmost frame of a block or a call among them has entered, or the
/// global scope.
pub open spec fn scope_under(frames: Seq<Frame>, count: int) -> int
    decreases count,
{
    if count <= 0 || count > frames.len() {
        0
    } else {
        match frames[count - 1].entered() {
            Some(entered) => entered as int,
            None => scope_under(frames, count - 1),
        }
    }
}

/// The frames fit together: each hands on what the one below waits for, the
/// lowest ends a statement, and the frame of a block or a call goes back to
/// the scope that was current under it.
pub open spec fn chained(frames: Seq<Frame>, scopes: nat) -> bool {
    &&& forall|i: int| 0 <= i < frames.len() ==> (#[trigger] frames[i]).fits(scopes)
    &&& forall|i: int, j: int|
        0 <= i && j == i + 1 && j < frames.len() ==> (#[trigger] frames[j]).gives() == (
        #[trigger] frames[i]).expects()
    &&& frames.len() > 0 ==> frames[0].gives() == Kind::Completion
    &&& forall|i: int|
        0 <= i < frames.len() && (#[trigger] frames[i]).entered() is Some ==> frames[i].previous()
            == scope_under(frames, i)
}

/// The scope under some frames depends on no other frames.
pub proof fn lemma_scope_under(frames: Seq<Frame>, other: Seq<Frame>, count: int)
    requires
        count <= frames.len(),
        count <= other.len(),
        forall|i: int| 0 <= i < count ==> frames[i] == other[i],
    ensures
        scope_under(frames, count) == scope_under(other, count),
    decreases count,
{
    if count > 0 {
        lemma_scope_under(frames, other, count - 1);
    }
}

/// Further up the frames the current scope is a newer one, and it is one of
/// the scopes that exist.
pub proof fn lemma_scope_grows(frames: Seq<Frame>, scopes: nat, lower: int, upper: int)
    requires
        chained(frames, scopes),
        0 <= lower <= upper <= frames.len(),
        scopes > 0,
    ensures
        0 <= scope_under(frames, lower) <= scope_under(frames, upper) < scopes,
    decreases upper,
{
    if upper > 0 {
        if lower < upper {
            lemma_scope_grows(frames, scopes, lower, upper - 1);
        } else {
            lemma_scope_grows(frames, scopes, lower - 1, upper - 1);
        }
        assert(frames[upper - 1].fits(scopes));
    }
}

/// A frame that hands on what the top waits for, and that goes back to the
/// scope that is current where it is the frame of a block or a call, fits on
/// top.
pub proof fn lemma_push(frames: Seq<Frame>, frame: Frame, scopes: nat)
    requires
        chained(frames, scopes),
        frame.fits(scopes),
        frame.gives() == awaited(frames),
        frame.entered() is Some ==> frame.previous() == scope_under(frames, frames.len() as int),
    ensures
        chained(frames.push(frame), scopes),
        awaited(frames.push(frame)) == frame.expects(),
        scope_under(frames.push(frame), (frames.len() + 1) as int) == match frame.entered() {
            Some(entered) => entered as int,
            None => scope_under(frames, frames.len() as int),
        },
{
    let longer = frames.push(frame);
    assert forall|i: int, j: int| 0 <= i && j == i + 1 && j < longer.len() implies (
    #[trigger] longer[j]).gives() == (#[trigger] longer[i]).expects() by {
        assert(longer[i] == frames[i]);
        if j < frames.len() {
            assert(longer[j] == frames[j]);
        }
    }
    assert forall|i: int| 0 <= i < longer.len() && (#[trigger] longer[i]).entered() is Some implies longer[i].previous()
        == scope_under(longer, i) by {
        lemma_scope_under(frames, longer, i);
        if i < frames.len() {
            assert(longer[i] == frames[i]);
        }
    }
    lemma_scope_under(frames, longer, frames.len() as int);
}

/// The frames under the top fit together as well; their top waits for what
/// the frame that is taken off hands on.
pub proof fn lemma_pop(frames: Seq<Frame>, scopes: nat)
    requires
        chained(frames, scopes),
        frames.len() > 0,
    ensures
        chained(frames.drop_last(), scopes),
        awaited(frames.drop_last()) == frames.last().gives(),
        scope_under(frames.drop_last(), frames.len() - 1) == match frames.last().entered() {
            Some(entered) => frames.last().previous() as int,
            None => scope_under(frames, frames.len() as int),
        },
{
    let shorter = frames.drop_last();
    assert forall|i: int, j: int| 0 <= i && j == i + 1 && j < shorter.len() implies (
    #[trigger] shorter[j]).gives() == (#[trigger] shorter[i]).expects() by {
        assert(shorter[i] == frames[i]);
        assert(shorter[j] == frames[j]);
    }
    assert forall|i: int| 0 <= i < shorter.len() implies (#[trigger] shorter[i]).fits(scopes) by {
        assert(shorter[i] == frames[i]);
    }
    assert forall|i: int| 0 <= i < shorter.len() && (#[trigger] shorter[i]).entered() is Some implies shorter[i].previous()
        == scope_under(shorter, i) by {
        lemma_scope_under(shorter, frames, i);
        assert(shorter[i] == frames[i]);
    }
    lemma_scope_under(shorter, frames, shorter.len() as int);
    if shorter.len() > 0 {
        assert(shorter[0] == frames[0]);
        let last = frames.len() - 1;
        assert(frames[last].gives() == frames[last - 1].expects());
        assert(shorter.last() == frames[last - 1]);
    }
}

/// Frames that fit together go on doing so when scopes are added.
pub proof fn lemma_more_scopes(frames: Seq<Frame>, scopes: nat, more: nat)
    requires
        chained(frames, scopes),
        scopes <= more,
    ensures
        chained(frames, more),
{
    assert forall|i: int| 0 <= i < frames.len() implies (#[trigger] frames[i]).fits(more) by {
        assert(frames[i].fits(scopes));
    }
}

/// Frames under which the newest scope is not current do not refer to it.
pub proof fn lemma_fewer_scopes(frames: Seq<Frame>, scopes: nat)
    requires
        chained(frames, scopes),
        scopes >= 2,
        scope_under(frames, frames.len() as int) < scopes - 1,
    ensures
        chained(frames, (scopes - 1) as nat),
{
    assert forall|i: int| 0 <= i < frames.len() implies (#[trigger] frames[i]).fits(
        (scopes - 1) as nat,
    ) by {
        assert(frames[i].fits(scopes));
        if frames[i].entered() is Some {
            lemma_scope_grows(frames, scopes, i + 1, frames.len() as int);
        }
    }
}

/// The evaluator: the scopes, the scope that is current, and what is under
/// way. It runs one step at a time and hands the host what only the host can
/// do.
pub struct Interpreter {
    pub environment: Environment,
    /// The handle of the global scope.
    pub globals: usize,
    /// The handle of the current scope.
    pub current: usize,
    pub frames: Vec<Frame>,
    pub control: Control,
}

/// The value of the built-in `clock`.
pub open spec fn clock() -> Literal {
    Literal::Function(Rc::new(LoxCallable::Clock(Clock {  })))
}

impl Interpreter {
    /// The scopes are in order, the current scope exists, the frames fit
    /// together, and the frame on top waits for what comes next.
    pub open spec fn wf(&self) -> bool {
        &&& self.steady()
        &&& self.control.gives() matches Some(kind) ==> kind == awaited(self.frames@)
        &&& self.control matches Control::Waiting(Pending::Arithmetic { operator, .. })
            ==> crate::semantics::is_arithmetic(operator)
    }

    /// The state but for the control: the scopes are in order, the frames
    /// fit together, and the current scope is the one that the frames say.
    pub open spec fn steady(&self) -> bool {
        &&& self.environment.wf()
        &&& self.globals == 0
        &&& self.current < self.environment.count()
        &&& chained(self.frames@, self.environment.count())
        &&& self.current == scope_under(self.frames@, self.frames@.len() as int)
    }

    /// The state but for the control, with the frame on top waiting for
    /// something of the given kind.
    pub open spec fn ready(&self, kind: Kind) -> bool {
        self.steady() && awaited(self.frames@) == kind
    }

    /// Nothing is under way.
    pub open spec fn idle(&self) -> bool {
        self.frames@.len() == 0 && self.control is Completed && self.current == self.globals
    }

    /// The state `before` with other frames and another control, the scopes
    /// untouched.
    pub open spec fn goes_on(&self, before: Interpreter, frames: Seq<Frame>, control: Control) -> bool {
        &&& self.environment == before.environment
        &&& self.globals == before.globals
        &&& self.current == before.current
        &&& self.frames@ == frames
        &&& self.control == control
    }

    /// The state `before` with everything that was under way given up.
    pub open spec fn gave_up(&self, before: Interpreter) -> bool {
        &&& self.environment == before.environment
        &&& self.globals == before.globals
        &&& self.idle()
    }

    /// The scopes of a program that has not started: the global scope alone,
    /// which holds `clock` and nothing else.
    pub open spec fn fresh(environment: Environment) -> bool {
        &&& environment.wf()
        &&& environment.count() == 1
        &&& environment.enclosing(0) == None::<int>
        &&& environment.bindings(0) == Map::<Seq<char>, Literal>::empty().insert("clock"@, clock())
    }

    /// A new interpreter: one scope, the global one, which holds `clock`.
    pub fn new() -> (interpreter: Interpreter)
        ensures
            interpreter.wf(),
            interpreter.idle(),
            Self::fresh(interpreter.environment),
    {
        let mut environment = Environment::new();
        environment.define(
            0,
            String::from_str("clock"),
            Literal::Function(Rc::new(LoxCallable::Clock(Clock {  }))),
        );
        Interpreter {
            environment,
            globals: 0,
            current: 0,
            frames: Vec::new(),
            control: Control::Completed,
        }
    }

    /// The handle of the global scope.
    pub fn globals(&self) -> (handle: usize)
        ensures
            handle == self.globals,
    {
        self.globals
    }

    /// Takes a program to run, in the global scope: what was under way is
    /// given up, and the next steps execute the statements in order.
    pub fn interpret(&mut self, statements: Vec<Stmt>)
        requires
            old(self).wf(),
        ensures
            final(self).wf(),
            final(self).environment == old(self).environment,
            final(self).current == final(self).globals,
            final(self).control is Completed,
            final(self).frames@.len() == 1,
            final(self).frames@[0] matches Frame::Sequence { statements: list, next } && *list
                == statements && next == 0,
    {
        self.frames.clear();
        self.current = self.globals;
        self.control = Control::Completed;
        let frame = Frame::Sequence { statements: Rc::new(statements), next: 0 };
        proof {
            lemma_push(self.frames@, frame, self.environment.count());
        }
        self.frames.push(frame);
    }

    /// Gives up what is under way and reports an error.
    fn abort(&mut self, error: LoxError) -> (action: Action)
        requires
            old(self).environment.wf(),
            old(self).globals == 0,
            old(self).current < old(self).environment.count(),
        ensures
            final(self).wf(),
            final(self).gave_up(*old(self)),
            action == (Action::Abort { error }),
    {
        self.frames.clear();
        self.current = self.globals;
        self.control = Control::Completed;
        Action::Abort { error }
    }

    /// Puts a frame on top and goes on with `control`.
    fn push(&mut self, frame: Frame, control: Control) -> (action: Action)
        requires
            old(self).steady(),
            frame.entered() is None,
            frame.fits(old(self).environment.count()),
            frame.gives() == awaited(old(self).frames@),
            control.gives() == Some(frame.expects()),
            !(control is Waiting),
        ensures
            final(self).wf(),
            final(self).goes_on(*old(self), old(self).frames@.push(frame), control),
            action == Action::Continue,
    {
        proof {
            lemma_push(self.frames@, frame, self.environment.count());
        }
        self.frames.push(frame);
        self.control = control;
        Action::Continue
    }

    /// Goes on with `control` under the same frames.
    fn turn(&mut self, control: Control) -> (action: Action)
        requires
            old(self).steady(),
            control.gives() matches Some(kind) ==> kind == awaited(old(self).frames@),
            !(control is Waiting),
        ensures
            final(self).wf(),
            final(self).goes_on(*old(self), old(self).frames@, control),
            action == Action::Continue,
    {
        self.control = control;
        Action::Continue
    }

    /// What reading a variable in the current scope gives: its value, or the
    /// message of the error. A variable that was declared without a value and
    /// not assigned to since cannot be read.
    pub open spec fn reads(&self, name: Token) -> Result<Literal, Seq<char>> {
        match self.environment.lookup(self.current as int, name.lexeme@) {
            Some(Literal::NilImplicit) => Err("Variable was not explicitly initialized."@),
            Some(value) => Ok(value),
            None => Err("Undefined variable '"@ + name.lexeme@ + "'."@),
        }
    }

    /// The program ends in the runtime error with this message at `token`.
    pub open spec fn aborts(&self, before: Interpreter, action: Action, token: Token, message: Seq<char>) -> bool {
        &&& action matches Action::Abort { error } && fails(error, token, message)
        &&& self.gave_up(before)
    }

    /// The step that starts on `expr`: a literal and a variable have their
    /// value at once; every other expression starts with one of its parts,
    /// and a frame keeps what is to be done with that part's value.
    pub open spec fn evaluates(&self, before: Interpreter, expr: Rc<Expr>, action: Action) -> bool {
        match *expr {
            Expr::Literal(node) => action == Action::Continue && self.goes_on(
                before,
                before.frames@,
                Control::Value(
                    match node.value {
                        Some(value) => value,
                        None => Literal::Nil,
                    },
                ),
            ),
            Expr::Grouping(node) => action == Action::Continue && self.goes_on(
                before,
                before.frames@,
                Control::Evaluate(node.expression),
            ),
            Expr::Unary(node) => action == Action::Continue && self.goes_on(
                before,
                before.frames@.push(Frame::Unary { operator: node.operator }),
                Control::Evaluate(node.right),
            ),
            Expr::Binary(node) => action == Action::Continue && self.goes_on(
                before,
                before.frames@.push(
                    Frame::BinaryLeft { operator: node.operator, right: node.right },
                ),
                Control::Evaluate(node.left),
            ),
            Expr::Logical(node) => action == Action::Continue && self.goes_on(
                before,
                before.frames@.push(Frame::Logical { operator: node.operator, right: node.right }),
                Control::Evaluate(node.left),
            ),
            Expr::Assign(node) => action == Action::Continue && self.goes_on(
                before,
                before.frames@.push(Frame::Assign { name: node.name }),
                Control::Evaluate(node.value),
            ),
            Expr::Call(node) => action == Action::Continue && self.goes_on(
                before,
                before.frames@.push(Frame::Callee { call: expr }),
                Control::Evaluate(node.callee),
            ),
            Expr::Variable(node) => match before.reads(node.name) {
                Ok(value) => action == Action::Continue && self.goes_on(
                    before,
                    before.frames@,
                    Control::Value(value),
                ),
                Err(message) => self.aborts(before, action, node.name, message),
            },
        }
    }

    /// Reads a variable in the current scope.
    fn read(&self, name: &Token) -> (result: Result<Literal, LoxError>)
        requires
            self.environment.wf(),
            self.current < self.environment.count(),
        ensures
            match self.reads(*name) {
                Ok(value) => result == Ok::<Literal, LoxError>(value),
                Err(message) => result matches Err(error) && fails(error, *name, message),
            },
    {
        match self.environment.get(self.current, name) {
            Ok(Literal::NilImplicit) => Err(
                failure(name, "Variable was not explicitly initialized."),
            ),
            Ok(value) => Ok(value),
            Err(error) => Err(error),
        }
    }

    /// Starts on an expression.
    fn evaluate(&mut self, expr: Rc<Expr>) -> (action: Action)
        requires
            old(self).ready(Kind::Value),
        ensures
            final(self).wf(),
            final(self).evaluates(*old(self), expr, action),
    {
        match &*expr {
            Expr::Literal(node) => {
                let value = match &node.value {
                    Some(value) => value.clone(),
                    None => Literal::Nil,
                };
                self.turn(Control::Value(value))
            },
            Expr::Grouping(node) => self.turn(Control::Evaluate(share(&node.expression))),
            Expr::Unary(node) => self.push(
                Frame::Unary { operator: node.operator.clone() },
                Control::Evaluate(share(&node.right)),
            ),
            Expr::Binary(node) => self.push(
                Frame::BinaryLeft { operator: node.operator.clone(), right: share(&node.right) },
                Control::Evaluate(share(&node.left)),
            ),
            Expr::Logical(node) => self.push(
                Frame::Logical { operator: node.operator.clone(), right: share(&node.right) },
                Control::Evaluate(share(&node.left)),
            ),
            Expr::Assign(node) => self.push(
                Frame::Assign { name: node.name.clone() },
                Control::Evaluate(share(&node.value)),
            ),
            Expr::Call(node) => {
                let callee = share(&node.callee);
                self.push(Frame::Callee { call: share(&expr) }, Control::Evaluate(callee))
            },
            Expr::Variable(node) => match self.read(&node.name) {
                Ok(value) => self.turn(Control::Value(value)),
                Err(error) => self.abort(error),
            },
        }
    }

    /// The state `before` with a variable declared in the current scope, and
    /// other frames and another control.
    pub open spec fn declares(
        &self,
        before: Interpreter,
        name: Seq<char>,
        value: Literal,
        frames: Seq<Frame>,
        control: Control,
    ) -> bool {
        &&& self.environment.differs_in(
            before.environment,
            before.current as int,
            before.environment.bindings(before.current as int).insert(name, value),
        )
        &&& self.globals == before.globals
        &&& self.current == before.current
        &&& self.frames@ == frames
        &&& self.control == control
    }

    /// The state `before` inside a new scope under `enclosing` that holds
    /// `bindings`, about to execute `statements` there, with `boundary` to
    /// end the scope.
    pub open spec fn enters(
        &self,
        before: Interpreter,
        under: Seq<Frame>,
        enclosing: int,
        bindings: Map<Seq<char>, Literal>,
        boundary: Frame,
        statements: Rc<Vec<Stmt>>,
    ) -> bool {
        &&& self.environment.extends_with(before.environment, enclosing, bindings)
        &&& self.globals == before.globals
        &&& self.current == before.environment.count()
        &&& self.frames@ == under.push(boundary).push(Frame::Sequence { statements, next: 0 })
        &&& self.control == Control::Completed
    }

    /// Whether `value` is the function that `declaration` declares in the
    /// scope `closure`.
    pub open spec fn is_function(value: Literal, declaration: crate::stmt::FunctionStmt, closure: usize) -> bool {
        value matches Literal::Function(callable) && *callable matches LoxCallable::Function(
            function,
        ) && function.declared_by(declaration, closure)
    }

    /// The step that starts on `stmt`, with the frames `under` below it.
    pub open spec fn executes(
        &self,
        before: Interpreter,
        under: Seq<Frame>,
        stmt: Stmt,
        action: Action,
    ) -> bool {
        &&& action == Action::Continue
        &&& match stmt {
            Stmt::Expression(node) => self.goes_on(
                before,
                under.push(Frame::Discard),
                Control::Evaluate(node.expression),
            ),
            Stmt::Print(node) => self.goes_on(
                before,
                under.push(Frame::Print),
                Control::Evaluate(node.expression),
            ),
            Stmt::Var(node) => match node.initializer {
                Some(initializer) => self.goes_on(
                    before,
                    under.push(Frame::Define { name: node.name }),
                    Control::Evaluate(initializer),
                ),
                None => self.declares(
                    before,
                    node.name.lexeme@,
                    Literal::NilImplicit,
                    under,
                    Control::Completed,
                ),
            },
            Stmt::Block(node) => self.enters(
                before,
                under,
                before.current as int,
                Map::empty(),
                Frame::Scope { previous: before.current, entered: self.current },
                node.statements,
            ),
            Stmt::If(node) => self.goes_on(
                before,
                under.push(
                    Frame::Branch { then_branch: node.then_branch, else_branch: node.else_branch },
                ),
                Control::Evaluate(node.condition),
            ),
            Stmt::While(node) => self.goes_on(
                before,
                under.push(Frame::Test { condition: node.condition, body: node.body }),
                Control::Evaluate(node.condition),
            ),
            Stmt::Function(node) => {
                &&& Self::is_function(
                    self.environment.bindings(before.current as int)[node.name.lexeme@],
                    node,
                    before.current,
                )
                &&& self.environment.changed(
                    before.environment,
                    before.current as int,
                    before.environment.bindings(before.current as int).insert(
                        node.name.lexeme@,
                        self.environment.bindings(before.current as int)[node.name.lexeme@],
                    ),
                    true,
                )
                &&& self.globals == before.globals
                &&& self.current == before.current
                &&& self.frames@ == under
                &&& self.control == Control::Completed
            },
            Stmt::Return(node) => match node.value {
                Some(value) => self.goes_on(
                    before,
                    under.push(Frame::Return),
                    Control::Evaluate(value),
                ),
                None => self.goes_on(before, under, Control::Returning(Literal::Nil)),
            },
        }
    }

    /// Enters a new scope that was made for `statements`.
    fn enter(&mut self, statements: Rc<Vec<Stmt>>, scope: usize, boundary: Frame) -> (action: Action)
        requires
            old(self).steady(),
            old(self).current < scope < old(self).environment.count(),
            boundary.entered() == Some(scope),
            boundary.previous() == old(self).current,
            boundary.gives() == awaited(old(self).frames@),
            boundary.expects() == Kind::Completion,
        ensures
            final(self).wf(),
            final(self).environment == old(self).environment,
            final(self).globals == old(self).globals,
            final(self).current == scope,
            final(self).frames@ == old(self).frames@.push(boundary).push(
                Frame::Sequence { statements, next: 0 },
            ),
            final(self).control == Control::Completed,
            action == Action::Continue,
    {
        let sequence = Frame::Sequence { statements, next: 0 };
        proof {
            lemma_push(self.frames@, boundary, self.environment.count());
            lemma_push(self.frames@.push(boundary), sequence, self.environment.count());
        }
        self.frames.push(boundary);
        self.frames.push(sequence);
        self.current = scope;
        self.control = Control::Completed;
        Action::Continue
    }

    /// Executes statements in a scope of their own: a new scope is made
    /// under `enclosing`, the next steps run the statements in it, and the
    /// scope that is current now is current again when they are done.
    pub fn execute_block(&mut self, statements: Rc<Vec<Stmt>>, enclosing: usize)
        requires
            old(self).ready(Kind::Completion),
            enclosing < old(self).environment.count(),
        ensures
            final(self).wf(),
            final(self).enters(
                *old(self),
                old(self).frames@,
                enclosing as int,
                Map::empty(),
                Frame::Scope { previous: old(self).current, entered: final(self).current },
                statements,
            ),
    {
        let previous = self.current;
        let scope = self.environment.new_with_enclosing(enclosing);
        proof {
            lemma_more_scopes(
                self.frames@,
                old(self).environment.count(),
                self.environment.count(),
            );
        }
        self.enter(statements, scope, Frame::Scope { previous, entered: scope });
    }

    /// Starts on a statement.
    fn execute(&mut self, stmt: &Stmt) -> (action: Action)
        requires
            old(self).ready(Kind::Completion),
        ensures
            final(self).wf(),
            final(self).executes(*old(self), old(self).frames@, *stmt, action),
    {
        match stmt {
            Stmt::Expression(node) => self.push(
                Frame::Discard,
                Control::Evaluate(share(&node.expression)),
            ),
            Stmt::Print(node) => self.push(Frame::Print, Control::Evaluate(share(&node.expression))),
            Stmt::Var(node) => match &node.initializer {
                Some(initializer) => self.push(
                    Frame::Define { name: node.name.clone() },
                    Control::Evaluate(share(initializer)),
                ),
                None => {
                    self.environment.define(
                        self.current,
                        node.name.lexeme.clone(),
                        Literal::NilImplicit,
                    );
                    self.control = Control::Completed;
                    Action::Continue
                },
            },
            Stmt::Block(node) => {
                self.execute_block(share(&node.statements), self.current);
                Action::Continue
            },
            Stmt::If(node) => {
                let else_branch = match &node.else_branch {
                    Some(other) => Some(share(other)),
                    None => None,
                };
                self.push(
                    Frame::Branch { then_branch: share(&node.then_branch), else_branch },
                    Control::Evaluate(share(&node.condition)),
                )
            },
            Stmt::While(node) => self.push(
                Frame::Test { condition: share(&node.condition), body: share(&node.body) },
                Control::Evaluate(share(&node.condition)),
            ),
            Stmt::Function(node) => {
                let function = LoxFunction::new(node, self.current);
                let value = Literal::Function(Rc::new(LoxCallable::Function(function)));
                self.environment.capture(self.current);
                self.environment.define(self.current, node.name.lexeme.clone(), value);
                self.control = Control::Completed;
                Action::Continue
            },
            Stmt::Return(node) => match &node.value {
                Some(value) => self.push(Frame::Return, Control::Evaluate(share(value))),
                None => self.turn(Control::Returning(Literal::Nil)),
            },
        }
    }

    /// The state `before` waiting for the host, with other frames.
    pub open spec fn waits(&self, before: Interpreter, frames: Seq<Frame>) -> bool {
        &&& self.environment == before.environment
        &&& self.globals == before.globals
        &&& self.current == before.current
        &&& self.frames@ == frames
        &&& self.control is Waiting
    }

    /// The step that asks the host to print `text`.
    pub open spec fn prints(&self, before: Interpreter, frames: Seq<Frame>, text: Seq<char>, action: Action) -> bool {
        &&& self.waits(before, frames)
        &&& self.control matches Control::Waiting(Pending::Print { text: kept }) && kept@ == text
        &&& action matches Action::Print { text: asked } && asked@ == text
    }

    /// The step that asks the host for the decimal of `number`.
    pub open spec fn formats(&self, before: Interpreter, frames: Seq<Frame>, number: u64, action: Action) -> bool {
        &&& self.waits(before, frames)
        &&& self.control matches Control::Waiting(Pending::Format { number: kept, .. }) && kept
            == number
        &&& action == (Action::Format { number })
    }

    /// The step that applies an operator, with the frames `under` below it.
    pub open spec fn applies(
        &self,
        before: Interpreter,
        under: Seq<Frame>,
        outcome: Outcome,
        operator: Token,
        action: Action,
    ) -> bool {
        match outcome {
            Outcome::Value(value) => action == Action::Continue && self.goes_on(
                before,
                under,
                Control::Value(value),
            ),
            Outcome::Text(text) => {
                &&& action == Action::Continue
                &&& self.control matches Control::Value(Literal::String(joined)) && joined@ == text
                &&& self.goes_on(before, under, self.control)
            },
            Outcome::Arithmetic { operator, left, right } => {
                &&& action == (Action::Arithmetic { operator, left, right })
                &&& self.goes_on(
                    before,
                    under,
                    Control::Waiting(Pending::Arithmetic { operator, left, right }),
                )
            },
            Outcome::NumberThenText { number, text } => {
                &&& self.formats(before, under, number, action)
                &&& self.control matches Control::Waiting(
                    Pending::Format { purpose: Purpose::Before { text: kept }, .. },
                ) && kept@ == text
            },
            Outcome::TextThenNumber { text, number } => {
                &&& self.formats(before, under, number, action)
                &&& self.control matches Control::Waiting(
                    Pending::Format { purpose: Purpose::After { text: kept }, .. },
                ) && kept@ == text
            },
            Outcome::Fails(message) => self.aborts(before, action, operator, message),
        }
    }

    /// The variables of a call's scope: the first `count` parameters, each
    /// with the argument in its place.
    pub open spec fn bound(params: Seq<Token>, values: Seq<Literal>, count: nat) -> Map<Seq<char>, Literal>
        decreases count,
    {
        if count == 0 || count > params.len() || count > values.len() {
            Map::empty()
        } else {
            Self::bound(params, values, (count - 1) as nat).insert(
                params[count - 1].lexeme@,
                values[count - 1],
            )
        }
    }

    /// The step that calls `callee` with `values`, with the frames `under`
    /// below the call. Only a function can be called, with as many arguments
    /// as it has parameters, and a declared one only where the scope it
    /// captured is one of this interpreter. The clock is the host's; a
    /// declared function runs its body in a new scope under the captured one,
    /// with its parameters bound to the arguments.
    pub open spec fn invokes(
        &self,
        before: Interpreter,
        under: Seq<Frame>,
        callee: Literal,
        paren: Token,
        values: Seq<Literal>,
        action: Action,
    ) -> bool {
        match callee {
            Literal::Function(callable) => if values.len() != callable.spec_arity() {
                self.aborts(
                    before,
                    action,
                    paren,
                    arity_complaint(callable.spec_arity(), values.len()),
                )
            } else {
                match *callable {
                    LoxCallable::Clock(_) => action == Action::Clock && self.goes_on(
                        before,
                        under,
                        Control::Waiting(Pending::Clock),
                    ),
                    LoxCallable::Function(function) => if function.closure
                        >= before.environment.count() {
                        self.aborts(before, action, paren, "Can only call functions and classes."@)
                    } else {
                        action == Action::Continue && self.enters(
                            before,
                            under,
                            function.closure as int,
                            Self::bound(function.params@, values, values.len()),
                            Frame::Invocation { previous: before.current, entered: self.current },
                            function.body,
                        )
                    },
                }
            },
            _ => self.aborts(before, action, paren, "Can only call functions and classes."@),
        }
    }

    /// Whether `frame` waits for the argument behind `values` of the call.
    pub open spec fn is_argument(frame: Frame, call: Rc<Expr>, callee: Literal, values: Seq<Literal>) -> bool {
        frame matches Frame::Argument { call: kept, callee: called, values: have } && kept == call
            && called == callee && have@ == values
    }

    /// The step that goes on with a call after its callee and `values` are
    /// evaluated: the next argument where there is one, the call itself
    /// where there is none.
    pub open spec fn goes_on_calling(
        &self,
        before: Interpreter,
        under: Seq<Frame>,
        call: Rc<Expr>,
        callee: Literal,
        values: Seq<Literal>,
        action: Action,
    ) -> bool {
        let node = call->Call_0;
        if values.len() < node.arguments@.len() {
            &&& action == Action::Continue
            &&& self.environment == before.environment
            &&& self.globals == before.globals
            &&& self.current == before.current
            &&& self.frames@.len() == under.len() + 1
            &&& self.frames@.drop_last() == under
            &&& Self::is_argument(self.frames@.last(), call, callee, values)
            &&& self.control == Control::Evaluate(node.arguments@[values.len() as int])
        } else {
            self.invokes(before, under, callee, node.paren, values, action)
        }
    }

    /// The step that hands `value` to the frame on top.
    pub open spec fn delivers(&self, before: Interpreter, value: Literal, action: Action) -> bool {
        let under = before.frames@.drop_last();
        match before.frames@.last() {
            Frame::Unary { operator } => self.applies(
                before,
                under,
                unary(operator.token_type, value),
                operator,
                action,
            ),
            Frame::BinaryLeft { operator, right } => action == Action::Continue && self.goes_on(
                before,
                under.push(Frame::BinaryRight { operator, left: value }),
                Control::Evaluate(right),
            ),
            Frame::BinaryRight { operator, left } => self.applies(
                before,
                under,
                binary(left, operator.token_type, value),
                operator,
                action,
            ),
            Frame::Logical { operator, right } => action == Action::Continue && self.goes_on(
                before,
                under,
                if short_circuits(operator, value) {
                    Control::Value(value)
                } else {
                    Control::Evaluate(right)
                },
            ),
            Frame::Assign { name } => match before.environment.resolve(
                before.current as int,
                name.lexeme@,
            ) {
                Some(holder) => {
                    &&& action == Action::Continue
                    &&& self.environment.differs_in(
                        before.environment,
                        holder,
                        before.environment.bindings(holder).insert(name.lexeme@, value),
                    )
                    &&& self.globals == before.globals
                    &&& self.current == before.current
                    &&& self.frames@ == under
                    &&& self.control == Control::Value(value)
                },
                None => self.aborts(
                    before,
                    action,
                    name,
                    "Undefined variable '"@ + name.lexeme@ + "'."@,
                ),
            },
            Frame::Callee { call } => self.goes_on_calling(
                before,
                under,
                call,
                value,
                Seq::empty(),
                action,
            ),
            Frame::Argument { call, callee, values } => self.goes_on_calling(
                before,
                under,
                call,
                callee,
                values@.push(value),
                action,
            ),
            Frame::Discard => action == Action::Continue && self.goes_on(
                before,
                under,
                Control::Completed,
            ),
            Frame::Print => match value {
                Literal::Number(bits) => self.formats(before, under, bits, action)
                    && self.control matches Control::Waiting(
                    Pending::Format { purpose: Purpose::Print, .. },
                ),
                _ => self.prints(before, under, value.text(), action),
            },
            Frame::Define { name } => action == Action::Continue && self.declares(
                before,
                name.lexeme@,
                value,
                under,
                Control::Completed,
            ),
            Frame::Branch { then_branch, else_branch } => action == Action::Continue
                && self.goes_on(
                before,
                under,
                if truthy(value) {
                    Control::Execute(then_branch)
                } else {
                    match else_branch {
                        Some(other) => Control::Execute(other),
                        None => Control::Completed,
                    }
                },
            ),
            Frame::Test { condition, body } => action == Action::Continue && if truthy(value) {
                self.goes_on(
                    before,
                    under.push(Frame::Repeat { condition, body }),
                    Control::Execute(body),
                )
            } else {
                self.goes_on(before, under, Control::Completed)
            },
            Frame::Return => action == Action::Continue && self.goes_on(
                before,
                under,
                Control::Returning(value),
            ),
            _ => false,
        }
    }

    /// Takes the frame on top.
    fn pop(&mut self) -> (frame: Frame)
        requires
            old(self).frames@.len() > 0,
            chained(old(self).frames@, old(self).environment.count()),
        ensures
            frame == old(self).frames@.last(),
            frame.fits(old(self).environment.count()),
            final(self).frames@ == old(self).frames@.drop_last(),
            chained(final(self).frames@, old(self).environment.count()),
            awaited(final(self).frames@) == frame.gives(),
            scope_under(final(self).frames@, final(self).frames@.len() as int)
                == match frame.entered() {
                Some(entered) => frame.previous() as int,
                None => scope_under(old(self).frames@, old(self).frames@.len() as int),
            },
            final(self).environment == old(self).environment,
            final(self).globals == old(self).globals,
            final(self).current == old(self).current,
            final(self).control == old(self).control,
    {
        proof {
            lemma_pop(self.frames@, self.environment.count());
        }
        match self.frames.pop() {
            Some(frame) => frame,
            None => vstd::pervasive::unreached(),
        }
    }

    /// Hands on what applying an operator came to.
    fn apply(&mut self, operation: Operation, operator: &Token, outcome: Ghost<Outcome>) -> (action:
        Action)
        requires
            old(self).ready(Kind::Value),
            operation.is(outcome@, *operator),
            outcome@ matches Outcome::Arithmetic { operator, .. }
                ==> crate::semantics::is_arithmetic(operator),
        ensures
            final(self).wf(),
            final(self).applies(*old(self), old(self).frames@, outcome@, *operator, action),
    {
        match operation {
            Operation::Done(value) => self.turn(Control::Value(value)),
            Operation::Arithmetic { operator, left, right } => {
                self.control = Control::Waiting(Pending::Arithmetic { operator, left, right });
                Action::Arithmetic { operator, left, right }
            },
            Operation::NumberThenText { number, text } => {
                self.control = Control::Waiting(
                    Pending::Format { number, purpose: Purpose::Before { text } },
                );
                Action::Format { number }
            },
            Operation::TextThenNumber { text, number } => {
                self.control = Control::Waiting(
                    Pending::Format { number, purpose: Purpose::After { text } },
                );
                Action::Format { number }
            },
            Operation::Failed(error) => self.abort(error),
        }
    }

    /// Binds the parameters of a function to the arguments of a call, in the
    /// scope made for the call.
    fn bind(&mut self, scope: usize, params: &Vec<Token>, values: &Vec<Literal>, before: Ghost<
        Environment,
    >, enclosing: Ghost<int>)
        requires
            old(self).environment.extends(before@, enclosing@),
            scope == before@.count(),
            params@.len() == values@.len(),
        ensures
            final(self).environment.extends_with(
                before@,
                enclosing@,
                Self::bound(params@, values@, values@.len()),
            ),
            final(self).globals == old(self).globals,
            final(self).current == old(self).current,
            final(self).frames == old(self).frames,
            final(self).control == old(self).control,
    {
        let mut index: usize = 0;
        while index < params.len()
            invariant
                index <= params@.len(),
                params@.len() == values@.len(),
                scope == before@.count(),
                self.environment.extends_with(
                    before@,
                    enclosing@,
                    Self::bound(params@, values@, index as nat),
                ),
                self.globals == old(self).globals,
                self.current == old(self).current,
                self.frames == old(self).frames,
                self.control == old(self).control,
            decreases params@.len() - index,
        {
            self.environment.define(scope, params[index].lexeme.clone(), values[index].clone());
            index += 1;
        }
    }

    /// Calls `callee` with the values of the arguments.
    fn invoke(&mut self, callee: Literal, paren: &Token, values: Vec<Literal>) -> (action: Action)
        requires
            old(self).ready(Kind::Value),
        ensures
            final(self).wf(),
            final(self).invokes(*old(self), old(self).frames@, callee, *paren, values@, action),
    {
        let callable = match callee {
            Literal::Function(callable) => callable,
            _ => {
                return self.abort(failure(paren, "Can only call functions and classes."));
            },
        };
        if values.len() != callable.arity() {
            return self.abort(arity_mismatch(paren, callable.arity(), values.len()));
        }
        match &*callable {
            LoxCallable::Clock(_) => {
                self.control = Control::Waiting(Pending::Clock);
                Action::Clock
            },
            LoxCallable::Function(function) => {
                if function.closure >= self.environment.len() {
                    return self.abort(failure(paren, "Can only call functions and classes."));
                }
                let previous = self.current;
                let ghost before = self.environment;
                let scope = self.environment.new_with_enclosing(function.closure);
                self.bind(
                    scope,
                    &function.params,
                    &values,
                    Ghost(before),
                    Ghost(function.closure as int),
                );
                proof {
                    lemma_more_scopes(self.frames@, before.count(), self.environment.count());
                }
                self.enter(
                    share(&function.body),
                    scope,
                    Frame::Invocation { previous, entered: scope },
                )
            },
        }
    }

    /// Goes on with a call: the next argument, or the call itself.
    fn go_on_calling(&mut self, call: Rc<Expr>, callee: Literal, values: Vec<Literal>) -> (action:
        Action)
        requires
            old(self).ready(Kind::Value),
            *call is Call,
        ensures
            final(self).wf(),
            final(self).goes_on_calling(
                *old(self),
                old(self).frames@,
                call,
                callee,
                values@,
                action,
            ),
    {
        match &*call {
            Expr::Call(node) => {
                if values.len() < node.arguments.len() {
                    let next = share(&node.arguments[values.len()]);
                    let frame = Frame::Argument { call: share(&call), callee, values };
                    proof {
                        lemma_push(self.frames@, frame, self.environment.count());
                        assert(self.frames@.push(frame).drop_last() == self.frames@);
                    }
                    self.frames.push(frame);
                    self.control = Control::Evaluate(next);
                    Action::Continue
                } else {
                    self.invoke(callee, &node.paren, values)
                }
            },
            _ => vstd::pervasive::unreached(),
        }
    }

    /// Hands a value to the frame on top.
    fn deliver(&mut self, value: Literal) -> (action: Action)
        requires
            old(self).ready(Kind::Value),
        ensures
            final(self).wf(),
            final(self).delivers(*old(self), value, action),
    {
        let frame = self.pop();
        match frame {
            Frame::Unary { operator } => {
                let operation = unary_operation(&operator, value);
                self.apply(operation, &operator, Ghost(unary(operator.token_type, value)))
            },
            Frame::BinaryLeft { operator, right } => self.push(
                Frame::BinaryRight { operator, left: value },
                Control::Evaluate(right),
            ),
            Frame::BinaryRight { operator, left } => {
                let ghost outcome = binary(left, operator.token_type, value);
                let operation = binary_operation(left, &operator, value);
                self.apply(operation, &operator, Ghost(outcome))
            },
            Frame::Logical { operator, right } => {
                if is_short_circuit(&operator, &value) {
                    self.turn(Control::Value(value))
                } else {
                    self.turn(Control::Evaluate(right))
                }
            },
            Frame::Assign { name } => {
                match self.environment.assign(self.current, &name, value.clone()) {
                    Ok(_) => {
                        self.control = Control::Value(value);
                        Action::Continue
                    },
                    Err(error) => self.abort(error),
                }
            },
            Frame::Callee { call } => self.go_on_calling(call, value, Vec::new()),
            Frame::Argument { call, callee, values } => {
                let mut values = values;
                values.push(value);
                self.go_on_calling(call, callee, values)
            },
            Frame::Discard => self.turn(Control::Completed),
            Frame::Print => match value.display() {
                Fragment::Number(number) => {
                    self.control = Control::Waiting(
                        Pending::Format { number, purpose: Purpose::Print },
                    );
                    Action::Format { number }
                },
                Fragment::Text(text) => {
                    self.control = Control::Waiting(Pending::Print { text: text.clone() });
                    Action::Print { text }
                },
            },
            Frame::Define { name } => {
                self.environment.define(self.current, name.lexeme.clone(), value);
                self.control = Control::Completed;
                Action::Continue
            },
            Frame::Branch { then_branch, else_branch } => {
                if is_truthy(&value) {
                    self.turn(Control::Execute(then_branch))
                } else {
                    match else_branch {
                        Some(other) => self.turn(Control::Execute(other)),
                        None => self.turn(Control::Completed),
                    }
                }
            },
            Frame::Test { condition, body } => {
                if is_truthy(&value) {
                    let repeated = share(&body);
                    self.push(Frame::Repeat { condition, body }, Control::Execute(repeated))
                } else {
                    self.turn(Control::Completed)
                }
            },
            Frame::Return => self.turn(Control::Returning(value)),
            _ => vstd::pervasive::unreached(),
        }
    }

    /// The state `before` after the scope `entered` was left for the scope
    /// `previous`, with other frames and another control. A scope that is
    /// left is discarded, unless a function has captured it or a newer scope
    /// is kept.
    pub open spec fn leaves_for(
        &self,
        before: Interpreter,
        previous: usize,
        entered: usize,
        frames: Seq<Frame>,
        control: Control,
    ) -> bool {
        &&& self.environment.leaves(before.environment, entered as int)
        &&& self.globals == before.globals
        &&& self.current == previous
        &&& self.frames@ == frames
        &&& self.control == control
    }

    /// The step that follows a statement that is done: the loop tests its
    /// condition again, the list goes on with its next statement, the block
    /// and the call leave their scope for the one they came from, and a call
    /// whose body ran to its end has the value `nil`. With no frame left the
    /// program is finished.
    pub open spec fn completes(&self, before: Interpreter, action: Action) -> bool {
        if before.frames@.len() == 0 {
            action == Action::Finish && self.goes_on(before, before.frames@, Control::Completed)
        } else {
            let under = before.frames@.drop_last();
            match before.frames@.last() {
                Frame::Repeat { condition, body } => action == Action::Continue && self.goes_on(
                    before,
                    under.push(Frame::Test { condition, body }),
                    Control::Evaluate(condition),
                ),
                Frame::Sequence { statements, next } => if next < statements@.len() {
                    self.executes(
                        before,
                        under.push(Frame::Sequence { statements, next: (next + 1) as usize }),
                        statements@[next as int],
                        action,
                    )
                } else {
                    action == Action::Continue && self.goes_on(before, under, Control::Completed)
                },
                Frame::Scope { previous, entered } => action == Action::Continue
                    && self.leaves_for(before, previous, entered, under, Control::Completed),
                Frame::Invocation { previous, entered } => action == Action::Continue
                    && self.leaves_for(
                    before,
                    previous,
                    entered,
                    under,
                    Control::Value(Literal::Nil),
                ),
                _ => false,
            }
        }
    }

    /// The step that takes a `return` one frame further out: the frame on
    /// top is dropped, whatever it was waiting for; the frame of a block
    /// leaves its scope, and the frame of a call does so and gives the call
    /// the value returned. A `return` outside every call ends the program.
    pub open spec fn unwinds(&self, before: Interpreter, value: Literal, action: Action) -> bool {
        if before.frames@.len() == 0 {
            action == (Action::Abort { error: LoxError::ReturnValue { value } }) && self.gave_up(
                before,
            )
        } else {
            let under = before.frames@.drop_last();
            match before.frames@.last() {
                Frame::Invocation { previous, entered } => action == Action::Continue
                    && self.leaves_for(before, previous, entered, under, Control::Value(value)),
                Frame::Scope { previous, entered } => action == Action::Continue
                    && self.leaves_for(
                    before,
                    previous,
                    entered,
                    under,
                    Control::Returning(value),
                ),
                _ => action == Action::Continue && self.goes_on(
                    before,
                    under,
                    Control::Returning(value),
                ),
            }
        }
    }

    /// The action that asks for what is pending.
    pub open spec fn asks(pending: Pending, action: Action) -> bool {
        match pending {
            Pending::Arithmetic { operator, left, right } => action == (Action::Arithmetic {
                operator,
                left,
                right,
            }),
            Pending::Clock => action == Action::Clock,
            Pending::Format { number, purpose } => action == (Action::Format { number }),
            Pending::Print { text } => action matches Action::Print { text: asked } && asked@
                == text@,
        }
    }

    /// The state `before` with a new string as the value.
    pub open spec fn joins(&self, before: Interpreter, text: Seq<char>, action: Action) -> bool {
        &&& action == Action::Continue
        &&& self.control matches Control::Value(Literal::String(joined)) && joined@ == text
        &&& self.goes_on(before, before.frames@, self.control)
    }

    /// The step that takes the answer of the host. A number answers
    /// arithmetic and the clock, a text answers a decimal, which is printed
    /// or joined to the text it was asked for, and whatever comes after
    /// printing lets the program go on. Any other answer changes nothing, and
    /// the action is asked for again.
    pub open spec fn resumes(&self, before: Interpreter, pending: Pending, event: Event, action: Action) -> bool {
        match (pending, event) {
            (Pending::Arithmetic { .. }, Event::Number(bits)) => action == Action::Continue
                && self.goes_on(before, before.frames@, Control::Value(Literal::Number(bits))),
            (Pending::Clock, Event::Number(bits)) => action == Action::Continue && self.goes_on(
                before,
                before.frames@,
                Control::Value(Literal::Number(bits)),
            ),
            (Pending::Clock, Event::Failure(reason)) => {
                &&& action matches Action::Abort { error: LoxError::SystemError { message } }
                    && message@ == "Invalid duration: "@ + reason@
                &&& self.gave_up(before)
            },
            (Pending::Format { number, purpose }, Event::Text(decimal)) => match purpose {
                Purpose::Print => self.prints(before, before.frames@, decimal@, action),
                Purpose::Before { text } => self.joins(before, decimal@ + text@, action),
                Purpose::After { text } => self.joins(before, text@ + decimal@, action),
            },
            (Pending::Print { .. }, _) => action == Action::Continue && self.goes_on(
                before,
                before.frames@,
                Control::Completed,
            ),
            _ => Self::asks(pending, action) && self.goes_on(
                before,
                before.frames@,
                Control::Waiting(pending),
            ),
        }
    }

    /// One step: what the state `before` has turned into, and what the host
    /// is asked to do.
    pub open spec fn follows(&self, before: Interpreter, event: Event, action: Action) -> bool {
        match before.control {
            Control::Evaluate(expr) => self.evaluates(before, expr, action),
            Control::Execute(stmt) => self.executes(before, before.frames@, *stmt, action),
            Control::Value(value) => self.delivers(before, value, action),
            Control::Completed => self.completes(before, action),
            Control::Returning(value) => self.unwinds(before, value, action),
            Control::Waiting(pending) => self.resumes(before, pending, event, action),
        }
    }

    /// Goes on after a statement that is done.
    fn complete(&mut self) -> (action: Action)
        requires
            old(self).ready(Kind::Completion),
        ensures
            final(self).wf(),
            final(self).completes(*old(self), action),
    {
        if self.frames.len() == 0 {
            self.control = Control::Completed;
            return Action::Finish;
        }
        let frame = self.pop();
        match frame {
            Frame::Repeat { condition, body } => {
                let test = share(&condition);
                self.push(Frame::Test { condition, body }, Control::Evaluate(test))
            },
            Frame::Sequence { statements, next } => {
                if next < statements.len() {
                    let rest = Frame::Sequence { statements: share(&statements), next: next + 1 };
                    proof {
                        lemma_push(self.frames@, rest, self.environment.count());
                    }
                    self.frames.push(rest);
                    self.execute(&statements[next])
                } else {
                    self.turn(Control::Completed)
                }
            },
            Frame::Scope { previous, entered } => self.leave(
                previous,
                entered,
                Control::Completed,
            ),
            Frame::Invocation { previous, entered } => self.leave(
                previous,
                entered,
                Control::Value(Literal::Nil),
            ),
            _ => vstd::pervasive::unreached(),
        }
    }

    /// Leaves the scope `entered` for the scope `previous`, behind the frame
    /// that stood for it.
    fn leave(&mut self, previous: usize, entered: usize, control: Control) -> (action: Action)
        requires
            old(self).environment.wf(),
            old(self).globals == 0,
            chained(old(self).frames@, old(self).environment.count()),
            previous < entered < old(self).environment.count(),
            previous == scope_under(old(self).frames@, old(self).frames@.len() as int),
            control.gives() matches Some(kind) ==> kind == awaited(old(self).frames@),
            !(control is Waiting),
        ensures
            final(self).wf(),
            final(self).leaves_for(*old(self), previous, entered, old(self).frames@, control),
            action == Action::Continue,
    {
        self.current = previous;
        self.control = control;
        let count = self.environment.len();
        if entered == count - 1 && !self.environment.is_captured(entered) {
            proof {
                lemma_fewer_scopes(self.frames@, self.environment.count());
            }
            self.environment.discard();
        }
        Action::Continue
    }

    /// Takes a `return` one frame further out.
    fn unwind(&mut self, value: Literal) -> (action: Action)
        requires
            old(self).steady(),
        ensures
            final(self).wf(),
            final(self).unwinds(*old(self), value, action),
    {
        if self.frames.len() == 0 {
            return self.abort(LoxError::return_value(value));
        }
        let frame = self.pop();
        match frame {
            Frame::Invocation { previous, entered } => self.leave(
                previous,
                entered,
                Control::Value(value),
            ),
            Frame::Scope { previous, entered } => self.leave(
                previous,
                entered,
                Control::Returning(value),
            ),
            _ => self.turn(Control::Returning(value)),
        }
    }

    /// Asks again for what is pending.
    fn ask(&mut self, pending: Pending) -> (action: Action)
        requires
            old(self).ready(pending.gives()),
            pending matches Pending::Arithmetic { operator, .. }
                ==> crate::semantics::is_arithmetic(operator),
        ensures
            final(self).wf(),
            Self::asks(pending, action),
            final(self).goes_on(*old(self), old(self).frames@, Control::Waiting(pending)),
    {
        let action = match &pending {
            Pending::Arithmetic { operator, left, right } => Action::Arithmetic {
                operator: *operator,
                left: *left,
                right: *right,
            },
            Pending::Clock => Action::Clock,
            Pending::Format { number, purpose } => Action::Format { number: *number },
            Pending::Print { text } => Action::Print { text: text.clone() },
        };
        self.control = Control::Waiting(pending);
        action
    }

    /// Takes the answer of the host.
    fn resume(&mut self, pending: Pending, event: Event) -> (action: Action)
        requires
            old(self).ready(pending.gives()),
            pending matches Pending::Arithmetic { operator, .. }
                ==> crate::semantics::is_arithmetic(operator),
        ensures
            final(self).wf(),
            final(self).resumes(*old(self), pending, event, action),
    {
        match (pending, event) {
            (Pending::Arithmetic { .. }, Event::Number(bits)) => self.turn(
                Control::Value(Literal::Number(bits)),
            ),
            (Pending::Clock, Event::Number(bits)) => self.turn(
                Control::Value(Literal::Number(bits)),
            ),
            (Pending::Clock, Event::Failure(reason)) => {
                let mut message = String::from_str("Invalid duration: ");
                message.append(reason.as_str());
                self.abort(LoxError::system_error(message))
            },
            (Pending::Format { number, purpose }, Event::Text(decimal)) => match purpose {
                Purpose::Print => {
                    self.control = Control::Waiting(Pending::Print { text: decimal.clone() });
                    Action::Print { text: decimal }
                },
                Purpose::Before { text } => self.turn(
                    Control::Value(Literal::String(decimal.concat(text.as_str()))),
                ),
                Purpose::After { text } => self.turn(
                    Control::Value(Literal::String(text.concat(decimal.as_str()))),
                ),
            },
            (Pending::Print { .. }, _) => self.turn(Control::Completed),
            (pending, _) => self.ask(pending),
        }
    }

    /// Runs one step. `event` is the host's answer to the action of the step
    /// before; where that step asked for nothing, it is not looked at.
    pub fn step(&mut self, event: Event) -> (action: Action)
        requires
            old(self).wf(),
        ensures
            final(self).wf(),
            final(self).follows(*old(self), event, action),
    {
        let mut control = Control::Completed;
        core::mem::swap(&mut self.control, &mut control);
        match control {
            Control::Evaluate(expr) => self.evaluate(expr),
            Control::Execute(stmt) => self.execute(&stmt),
            Control::Value(value) => self.deliver(value),
            Control::Completed => self.complete(),
            Control::Returning(value) => self.unwind(value),
            Control::Waiting(pending) => self.resume(pending, event),
        }
    }

    /// Short circuit. Where the left operand of `or` is true, or that of
    /// `and` false, the step that takes its value ends the whole expression
    /// with that value: the right operand is not evaluated, no frame is made
    /// for it, and the scopes are as they were.
    pub proof fn lemma_short_circuit(
        &self,
        before: Interpreter,
        event: Event,
        action: Action,
        value: Literal,
        operator: Token,
        right: Rc<Expr>,
    )
        requires
            before.control == Control::Value(value),
            before.frames@.len() > 0,
            before.frames@.last() == (Frame::Logical { operator, right }),
            if operator.token_type == TokenType::Or {
                truthy(value)
            } else {
                !truthy(value)
            },
            self.follows(before, event, action),
        ensures
            action == Action::Continue,
            self.control == Control::Value(value),
            self.frames@ == before.frames@.drop_last(),
            self.environment == before.environment,
            self.current == before.current,
    {
    }

    /// Return skips what is under way. While a `return` is on its way out, a
    /// step does nothing but drop the frame on top: no statement of a list is
    /// started, no loop repeated, no operator applied. The frame of a block
    /// leaves its scope; the frame of the call ends the way: the call has the
    /// value returned, in the scope of the caller.
    pub proof fn lemma_return_skips(
        &self,
        before: Interpreter,
        event: Event,
        action: Action,
        value: Literal,
    )
        requires
            before.control == Control::Returning(value),
            before.frames@.len() > 0,
            self.follows(before, event, action),
        ensures
            action == Action::Continue,
            self.frames@ == before.frames@.drop_last(),
            match before.frames@.last() {
                Frame::Invocation { previous, entered } => self.control == Control::Value(value)
                    && self.current == previous,
                Frame::Scope { previous, entered } => self.control == Control::Returning(value)
                    && self.current == previous,
                _ => self.control == Control::Returning(value) && self.current == before.current
                    && self.environment == before.environment,
            },
    {
    }

    /// Captured scopes are kept. A step discards no scope that a function
    /// has captured, and takes the mark from none: the scope in which a
    /// function was declared is there for as long as the program runs.
    pub proof fn lemma_captured_scopes_stay(
        &self,
        before: Interpreter,
        event: Event,
        action: Action,
        scope: int,
    )
        requires
            before.wf(),
            self.follows(before, event, action),
            0 <= scope < before.environment.count(),
            before.environment.captured(scope),
        ensures
            scope < self.environment.count(),
            self.environment.captured(scope),
    {
        match before.control {
            Control::Evaluate(expr) => {},
            Control::Execute(stmt) => {
                self.lemma_executing_keeps(before, before.frames@, &*stmt, action, scope);
            },
            Control::Value(value) => {
                self.lemma_delivering_keeps(before, value, action, scope);
            },
            Control::Completed => {
                if before.frames@.len() > 0 {
                    match before.frames@.last() {
                        Frame::Sequence { statements, next } => {
                            if next < statements@.len() {
                                self.lemma_executing_keeps(
                                    before,
                                    before.frames@.drop_last().push(
                                        Frame::Sequence { statements, next: (next + 1) as usize },
                                    ),
                                    &statements@[next as int],
                                    action,
                                    scope,
                                );
                            }
                        },
                        _ => {},
                    }
                }
            },
            Control::Returning(value) => {},
            Control::Waiting(pending) => {},
        }
    }

    /// Starting on a statement keeps the captured scopes.
    pub proof fn lemma_executing_keeps(
        &self,
        before: Interpreter,
        under: Seq<Frame>,
        stmt: &Stmt,
        action: Action,
        scope: int,
    )
        requires
            self.executes(before, under, *stmt, action),
            0 <= scope < before.environment.count(),
            before.current < before.environment.count(),
            before.environment.captured(scope),
        ensures
            scope < self.environment.count(),
            self.environment.captured(scope),
    {
    }

    /// Handing on a value keeps the captured scopes.
    pub proof fn lemma_delivering_keeps(
        &self,
        before: Interpreter,
        value: Literal,
        action: Action,
        scope: int,
    )
        requires
            before.steady(),
            before.frames@.len() > 0,
            self.delivers(before, value, action),
            0 <= scope < before.environment.count(),
            before.environment.captured(scope),
        ensures
            scope < self.environment.count(),
            self.environment.captured(scope),
    {
    }
}

} // verus!
