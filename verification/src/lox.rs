use vstd::prelude::*;
use crate::error_reporter::{syntax_line, LoxError};
use crate::grammar::{program, Fault};
use crate::host::{Action, Event};
use crate::interpreter::{Frame, Interpreter};
use crate::lexical::{faults, lemma_lexemes, lexemes};
use crate::literal::Literal;
use crate::parser::{describes, Parser};
use crate::scanner::{errors_report, tokens_spell, Scanner};
use crate::stmt::trees;
use crate::token::Token;
use crate::token_type::TokenType;

verus! {

/// How far a run has come.
pub enum Stage {
    /// Nothing is running.
    Idle,
    /// The source is scanned; the number literals are with the host.
    Decoding { tokens: Vec<Token>, errors: Vec<LoxError> },
    /// The program runs.
    Running { interpreter: Interpreter },
}

/// A run of one source text from scanning to the last statement, with the
/// flags that tell how it went.
pub struct Lox {
    had_error: bool,
    had_runtime_error: bool,
    stage: Stage,
}

/// The texts of the number tokens among the first `count` tokens, in order.
pub open spec fn numbers_to(tokens: Seq<Token>, count: nat) -> Seq<Seq<char>>
    decreases count,
{
    if count == 0 || count > tokens.len() {
        Seq::empty()
    } else {
        let before = numbers_to(tokens, (count - 1) as nat);
        if tokens[count - 1].token_type == TokenType::Number {
            before.push(tokens[count - 1].lexeme@)
        } else {
            before
        }
    }
}

/// The texts of the number tokens, in order.
pub open spec fn numbers(tokens: Seq<Token>) -> Seq<Seq<char>> {
    numbers_to(tokens, tokens.len())
}

/// The first `count` tokens, each number token with the next of `bits` as
/// its literal.
pub open spec fn decoded_to(tokens: Seq<Token>, bits: Seq<u64>, count: nat) -> Seq<Token>
    decreases count,
{
    if count == 0 || count > tokens.len() {
        Seq::empty()
    } else {
        let before = decoded_to(tokens, bits, (count - 1) as nat);
        let token = tokens[count - 1];
        let index = numbers_to(tokens, (count - 1) as nat).len() as int;
        if token.token_type == TokenType::Number && index < bits.len() {
            before.push(
                Token {
                    token_type: token.token_type,
                    lexeme: token.lexeme,
                    literal: Some(Literal::Number(bits[index])),
                    line: token.line,
                },
            )
        } else {
            before.push(token)
        }
    }
}

/// The tokens, each number token with its literal from `bits`.
pub open spec fn decoded(tokens: Seq<Token>, bits: Seq<u64>) -> Seq<Token> {
    decoded_to(tokens, bits, tokens.len())
}

/// The characters of each text.
pub open spec fn texts(lines: Seq<String>) -> Seq<Seq<char>> {
    lines.map_values(|line: String| line@)
}

/// The diagnostics of the first `count` errors, in order; a `return` on its
/// way has none.
pub open spec fn diagnostics_to(errors: Seq<LoxError>, count: nat) -> Seq<Seq<char>>
    decreases count,
{
    if count == 0 || count > errors.len() {
        Seq::empty()
    } else {
        let before = diagnostics_to(errors, (count - 1) as nat);
        match errors[count - 1].diagnostic() {
            Some(line) => before.push(line),
            None => before,
        }
    }
}

/// The diagnostics of a list of errors.
pub open spec fn diagnostics(errors: Seq<LoxError>) -> Seq<Seq<char>> {
    diagnostics_to(errors, errors.len())
}

/// The diagnostics of the first `count` syntax errors, in order.
pub open spec fn complaints_to(faults: Seq<Fault>, tokens: Seq<Token>, count: nat) -> Seq<Seq<char>>
    decreases count,
{
    if count == 0 || count > faults.len() {
        Seq::empty()
    } else {
        complaints_to(faults, tokens, (count - 1) as nat).push(
            syntax_line(tokens[faults[count - 1].at], faults[count - 1].message),
        )
    }
}

/// The diagnostics of a list of syntax errors.
pub open spec fn complaints(faults: Seq<Fault>, tokens: Seq<Token>) -> Seq<Seq<char>> {
    complaints_to(faults, tokens, faults.len())
}

/// The errors that describe a list of syntax errors have its diagnostics.
pub proof fn lemma_complaints(errors: Seq<LoxError>, faults: Seq<Fault>, tokens: Seq<Token>, count: nat)
    requires
        describes(errors, faults, tokens),
        count <= faults.len(),
    ensures
        diagnostics_to(errors, count) == complaints_to(faults, tokens, count),
    decreases count,
{
    if count > 0 {
        lemma_complaints(errors, faults, tokens, (count - 1) as nat);
        assert(faults[count - 1].at >= 0);
    }
}

/// Decoding changes no token's kind and no token but a number.
pub proof fn lemma_decoded(tokens: Seq<Token>, bits: Seq<u64>, count: nat)
    requires
        count <= tokens.len(),
    ensures
        decoded_to(tokens, bits, count).len() == count,
        forall|i: int|
            0 <= i < count ==> (#[trigger] decoded_to(tokens, bits, count)[i]).token_type
                == tokens[i].token_type,
    decreases count,
{
    if count > 0 {
        lemma_decoded(tokens, bits, (count - 1) as nat);
    }
}

/// Writes the diagnostics of `errors` behind `lines`.
fn report(errors: &Vec<LoxError>, lines: &mut Vec<String>)
    ensures
        texts(final(lines)@) == texts(old(lines)@) + diagnostics(errors@),
{
    let mut index: usize = 0;
    assert(texts(lines@) + Seq::<Seq<char>>::empty() == texts(lines@));
    while index < errors.len()
        invariant
            index <= errors@.len(),
            texts(lines@) == texts(old(lines)@) + diagnostics_to(errors@, index as nat),
        decreases errors@.len() - index,
    {
        let ghost so_far = diagnostics_to(errors@, index as nat);
        let ghost prior = lines@;
        match errors[index].report() {
            Some(line) => {
                lines.push(line);
                assert(texts(lines@) =~= texts(prior).push(line@));
                assert(texts(lines@) =~= texts(old(lines)@) + so_far.push(line@));
            },
            None => {},
        }
        index += 1;
    }
}

/// The texts of the number tokens.
fn number_lexemes(tokens: &Vec<Token>) -> (lexemes: Vec<String>)
    ensures
        texts(lexemes@) == numbers(tokens@),
{
    let mut lexemes: Vec<String> = Vec::new();
    let mut index: usize = 0;
    assert(texts(lexemes@) =~= Seq::<Seq<char>>::empty());
    while index < tokens.len()
        invariant
            index <= tokens@.len(),
            texts(lexemes@) == numbers_to(tokens@, index as nat),
        decreases tokens@.len() - index,
    {
        if tokens[index].token_type == TokenType::Number {
            let ghost so_far = texts(lexemes@);
            lexemes.push(tokens[index].lexeme.clone());
            assert(texts(lexemes@) =~= so_far.push(tokens@[index as int].lexeme@));
        }
        index += 1;
    }
    lexemes
}

/// Gives each number token its literal.
fn decode(tokens: &Vec<Token>, bits: &Vec<u64>) -> (result: Vec<Token>)
    ensures
        result@ == decoded(tokens@, bits@),
{
    let mut result: Vec<Token> = Vec::new();
    let mut index: usize = 0;
    let mut used: usize = 0;
    while index < tokens.len()
        invariant
            index <= tokens@.len(),
            used == numbers_to(tokens@, index as nat).len(),
            used <= index,
            result@ == decoded_to(tokens@, bits@, index as nat),
        decreases tokens@.len() - index,
    {
        let token = &tokens[index];
        if token.token_type == TokenType::Number {
            if used < bits.len() {
                result.push(
                    Token {
                        token_type: token.token_type,
                        lexeme: token.lexeme.clone(),
                        literal: Some(Literal::Number(bits[used])),
                        line: token.line,
                    },
                );
            } else {
                result.push(token.clone());
            }
            used += 1;
        } else {
            result.push(token.clone());
        }
        index += 1;
    }
    result
}

impl Lox {
    /// Whether a scan or parse error was reported.
    pub closed spec fn failed(&self) -> bool {
        self.had_error
    }

    /// Whether the program ended in a runtime error.
    pub closed spec fn failed_running(&self) -> bool {
        self.had_runtime_error
    }

    /// How far the run has come.
    pub closed spec fn stage(&self) -> Stage {
        self.stage
    }

    /// What is running is in order.
    pub open spec fn wf(&self) -> bool {
        match self.stage() {
            Stage::Idle => true,
            Stage::Decoding { tokens, errors } => tokens@.len() > 0
                && tokens@.last().token_type == TokenType::EOF,
            Stage::Running { interpreter } => interpreter.wf(),
        }
    }

    pub fn new() -> (lox: Lox)
        ensures
            lox.wf(),
            lox.stage() is Idle,
            !lox.failed(),
            !lox.failed_running(),
    {
        Lox { had_error: false, had_runtime_error: false, stage: Stage::Idle }
    }

    pub fn had_error(&self) -> (flag: bool)
        ensures
            flag == self.failed(),
    {
        self.had_error
    }

    pub fn had_runtime_error(&self) -> (flag: bool)
        ensures
            flag == self.failed_running(),
    {
        self.had_runtime_error
    }

    /// Forgets the scan and parse errors of the last run, as the prompt does
    /// before the next line.
    pub fn clear_error(&mut self)
        ensures
            !final(self).failed(),
            final(self).failed_running() == old(self).failed_running(),
            final(self).stage() == old(self).stage(),
    {
        self.had_error = false;
    }

    /// The exit code that tells how the runs went: 65 after a scan or parse
    /// error, 70 after a runtime error, 0 otherwise.
    pub fn exit_code(&self) -> (code: u8)
        ensures
            code == if self.failed() {
                65u8
            } else if self.failed_running() {
                70u8
            } else {
                0u8
            },
    {
        if self.had_error {
            65
        } else if self.had_runtime_error {
            70
        } else {
            0
        }
    }

    /// Starts a run: scans the source and asks the host to decode the number
    /// literals. What was running before is given up.
    pub fn run(&mut self, source: String) -> (action: Action)
        requires
            source@.len() < u32::MAX,
        ensures
            final(self).wf(),
            final(self).failed() == old(self).failed(),
            final(self).failed_running() == old(self).failed_running(),
            final(self).stage() matches Stage::Decoding { tokens, errors } && tokens_spell(
                tokens@,
                0,
                lexemes(source@, 0, 1),
                source@,
            ) && errors_report(errors@, 0, faults(source@, 0, 1)),
            action matches Action::Decode { lexemes: asked } && final(self).stage() matches Stage::Decoding {
                tokens,
                ..
            } && texts(asked@) == numbers(tokens@),
    {
        let mut scanner = Scanner::new(source.as_str());
        scanner.scan_tokens();
        let (tokens, errors) = scanner.finish();
        proof {
            lemma_lexemes(source@, 0, 1);
        }
        let lexemes = number_lexemes(&tokens);
        self.stage = Stage::Decoding { tokens, errors };
        Action::Decode { lexemes }
    }

    /// The state after the number literals came back: the tokens are parsed.
    /// Scan and parse errors end the run, with their diagnostics and the
    /// error flag raised; without any the program is ready to run.
    pub open spec fn parsed(
        &self,
        before: Lox,
        tokens: Seq<Token>,
        errors: Seq<LoxError>,
        action: Action,
    ) -> bool {
        let outcome = program(tokens);
        &&& self.failed_running() == before.failed_running()
        &&& if errors.len() > 0 || outcome.faults.len() > 0 {
            &&& self.failed()
            &&& self.stage() is Idle
            &&& action matches Action::Report { lines } && texts(lines@) == diagnostics(errors)
                + complaints(outcome.faults, tokens)
        } else {
            &&& self.failed() == before.failed()
            &&& action == Action::Continue
            &&& self.stage() matches Stage::Running { interpreter } && {
                &&& Interpreter::fresh(interpreter.environment)
                &&& interpreter.current == interpreter.globals
                &&& interpreter.control is Completed
                &&& interpreter.frames@.len() == 1
                &&& interpreter.frames@[0] matches Frame::Sequence { statements, next } && next
                    == 0 && trees(statements@) == outcome.statements
            }
        }
    }

    /// The step of a run that follows a step of the program: the program's
    /// end ends the run, a runtime error ends it with its diagnostic and the
    /// flag raised, and everything else is handed on to the host.
    pub open spec fn ran(&self, before: Lox, interpreter: Interpreter, event: Event, action: Action) -> bool {
        exists|after: Interpreter, inner: Action|
            #![auto]
            after.wf() && after.follows(interpreter, event, inner) && match inner {
                Action::Abort { error } => {
                    &&& self.stage() is Idle
                    &&& self.failed() == before.failed()
                    &&& self.failed_running()
                    &&& action matches Action::Report { lines } && texts(lines@) == diagnostics(
                        seq![error],
                    )
                },
                Action::Finish => {
                    &&& self.stage() is Idle
                    &&& self.failed() == before.failed()
                    &&& self.failed_running() == before.failed_running()
                    &&& action == Action::Finish
                },
                _ => {
                    &&& self.stage() == (Stage::Running { interpreter: after })
                    &&& self.failed() == before.failed()
                    &&& self.failed_running() == before.failed_running()
                    &&& action == inner
                },
            }
    }

    /// The state after the host answered: see `parsed` and `ran`. With
    /// nothing running there is nothing to do; while the number literals are
    /// awaited, an answer that is not as many numbers as were asked for
    /// changes nothing, and they are asked for again.
    pub open spec fn resumed(&self, before: Lox, event: Event, action: Action) -> bool {
        match before.stage() {
            Stage::Idle => action == Action::Finish && self.stage() is Idle && self.failed()
                == before.failed() && self.failed_running() == before.failed_running(),
            Stage::Decoding { tokens, errors } => match event {
                Event::Numbers(bits) if bits@.len() == numbers(tokens@).len() => self.parsed(
                    before,
                    decoded(tokens@, bits@),
                    errors@,
                    action,
                ),
                _ => {
                    &&& self.stage() == before.stage()
                    &&& self.failed() == before.failed()
                    &&& self.failed_running() == before.failed_running()
                    &&& action matches Action::Decode { lexemes: asked } && texts(asked@)
                        == numbers(tokens@)
                },
            },
            Stage::Running { interpreter } => self.ran(before, interpreter, event, action),
        }
    }

    /// Goes on with the run after the host did what it was asked to do.
    pub fn resume(&mut self, event: Event) -> (action: Action)
        requires
            old(self).wf(),
        ensures
            final(self).wf(),
            final(self).resumed(*old(self), event, action),
    {
        let mut stage = Stage::Idle;
        core::mem::swap(&mut self.stage, &mut stage);
        match stage {
            Stage::Idle => Action::Finish,
            Stage::Decoding { tokens, errors } => {
                let lexemes = number_lexemes(&tokens);
                match event {
                    Event::Numbers(bits) => {
                        if bits.len() == lexemes.len() {
                            self.parse(tokens, errors, bits)
                        } else {
                            self.stage = Stage::Decoding { tokens, errors };
                            Action::Decode { lexemes }
                        }
                    },
                    _ => {
                        self.stage = Stage::Decoding { tokens, errors };
                        Action::Decode { lexemes }
                    },
                }
            },
            Stage::Running { interpreter } => {
                let mut interpreter = interpreter;
                let ghost started = interpreter;
                let inner = interpreter.step(event);
                match inner {
                    Action::Abort { error } => {
                        self.had_runtime_error = true;
                        let mut lines: Vec<String> = Vec::new();
                        let mut list: Vec<LoxError> = Vec::new();
                        list.push(error);
                        assert(list@ == seq![error]);
                        assert(texts(lines@) =~= Seq::<Seq<char>>::empty());
                        report(&list, &mut lines);
                        assert(texts(lines@) =~= diagnostics(seq![error]));
                        Action::Report { lines }
                    },
                    Action::Finish => Action::Finish,
                    inner => {
                        self.stage = Stage::Running { interpreter };
                        inner
                    },
                }
            },
        }
    }

    /// Parses the decoded tokens and gets the program ready to run.
    fn parse(&mut self, tokens: Vec<Token>, errors: Vec<LoxError>, bits: Vec<u64>) -> (action:
        Action)
        requires
            old(self).stage() is Idle,
            tokens@.len() > 0,
            tokens@.last().token_type == TokenType::EOF,
        ensures
            final(self).wf(),
            final(self).parsed(*old(self), decoded(tokens@, bits@), errors@, action),
    {
        let ghost scanned = tokens@;
        let tokens = decode(&tokens, &bits);
        proof {
            lemma_decoded(scanned, bits@, scanned.len());
        }
        let mut parser = Parser::new(&tokens);
        let statements = parser.parse();
        let ghost outcome = program(tokens@);
        if errors.len() > 0 || parser.errors().len() > 0 {
            self.had_error = true;
            let mut lines: Vec<String> = Vec::new();
            assert(texts(lines@) =~= Seq::<Seq<char>>::empty());
            report(&errors, &mut lines);
            report(parser.errors(), &mut lines);
            proof {
                lemma_complaints(parser.reported(), outcome.faults, tokens@, outcome.faults.len());
                assert(texts(lines@) =~= diagnostics(errors@) + complaints(outcome.faults, tokens@));
            }
            Action::Report { lines }
        } else {
            let mut interpreter = Interpreter::new();
            interpreter.interpret(statements);
            self.stage = Stage::Running { interpreter };
            Action::Continue
        }
    }
}

} // verus!
