pub mod ast_printer;
pub mod callable;
pub mod environment;
pub mod error_reporter;
pub mod expr;
pub mod function;
pub mod grammar;
pub mod host;
pub mod interpreter;
pub mod lexical;
pub mod literal;
pub mod lox;
pub mod native_functions;
pub mod number;
pub mod parser;
pub mod resolver;
pub mod scanner;
pub mod semantics;
pub mod spelling;
pub mod stmt;
pub mod text;
pub mod token;
pub mod token_type;
