//! One step of the read-eval-print loop: what the interpreter answers to a
//! line of input. Reading the line and printing the answer are left to the
//! caller.

use vstd::prelude::*;
use crate::environment::{Environment, EnvironmentView};
use crate::evaluator::{eval, MAX_DEPTH};
use crate::grammar;
use crate::grammar::ParserView;
use crate::lexer::{Lexer, LexerView};
use crate::object::{optional_value, Object, ObjectView};
use crate::parser::{texts, Parser};
use crate::renaming::closed;
use crate::semantics::eval_node;
use crate::text::same_text;

verus! {

/// The answer to a line of input.
#[derive(Debug)]
pub enum Response {
    /// The line asks to end the session.
    Exit,
    /// The line does not parse; these are the messages of the parser.
    ParseErrors(Vec<String>),
    /// The line was evaluated; this is its value, or `None` where it nests
    /// deeper than the evaluator goes.
    Value(Option<Object>),
}

/// The mathematical value of a [`Response`].
pub enum ResponseView {
    Exit,
    ParseErrors(Seq<Seq<char>>),
    Value(Option<ObjectView>),
}

impl View for Response {
    type V = ResponseView;

    open spec fn view(&self) -> ResponseView {
        match self {
            Response::Exit => ResponseView::Exit,
            Response::ParseErrors(errors) => ResponseView::ParseErrors(texts(errors)),
            Response::Value(value) => ResponseView::Value(optional_value(*value)),
        }
    }
}

/// Whether the line asks to end the session: it is the word `exit`, with or
/// without a line break behind it.
pub open spec fn is_exit(line: Seq<char>) -> bool {
    line == "exit"@ || line == "exit\n"@ || line == "exit\r\n"@
}

/// What parsing the text `line` as a program gives.
pub open spec fn parse_line(line: Seq<char>) -> grammar::Parsed {
    grammar::parse_program(ParserView::start(LexerView { input: line, position: 0 }))
}

/// Parsing the same text twice gives the same tree, the same error messages
/// and the same final state.
pub proof fn lemma_parse_line_is_deterministic(
    line: Seq<char>,
    first: grammar::Parsed,
    second: grammar::Parsed,
)
    requires
        first == parse_line(line),
        second == parse_line(line),
    ensures
        first.node == second.node,
        first.state.errors == second.state.errors,
        first == second,
{
}

/// The answer to `line` in `env`, and the environment afterwards. A line
/// that asks for the end, and one that does not parse, leave the environment
/// as it is; any other line is evaluated in it.
pub open spec fn answer(line: Seq<char>, env: EnvironmentView) -> (ResponseView, EnvironmentView) {
    if is_exit(line) {
        (ResponseView::Exit, env)
    } else {
        let p = parse_line(line);
        if p.state.errors.len() > 0 {
            (ResponseView::ParseErrors(p.state.errors), env)
        } else {
            match p.node {
                None => (ResponseView::ParseErrors(p.state.errors), env),
                Some(program) => {
                    let r = eval_node(program, env, MAX_DEPTH as nat);
                    (ResponseView::Value(r.value), r.env)
                },
            }
        }
    }
}

/// The same line in the same environment has the same answer and leaves
/// the same environment, whenever and wherever it is run: lexing, parsing
/// and evaluating depend on nothing but the text and the environment.
pub proof fn lemma_answer_is_deterministic(
    line: Seq<char>,
    env: EnvironmentView,
    first: (ResponseView, EnvironmentView),
    second: (ResponseView, EnvironmentView),
)
    requires
        first == answer(line, env),
        second == answer(line, env),
    ensures
        first == second,
{
}

fn copy_texts(strings: &Vec<String>) -> (r: Vec<String>)
    ensures
        texts(&r) == texts(strings),
{
    let mut out: Vec<String> = Vec::new();
    let mut i: usize = 0;
    while i < strings.len()
        invariant
            i <= strings.len(),
            out.len() == i,
            forall|j: int| 0 <= j < i ==> out[j]@ == strings[j]@,
        decreases strings.len() - i,
    {
        out.push(strings[i].clone());
        i += 1;
    }
    assert(texts(&out) =~= texts(strings));
    out
}

/// Answers one line of input in the environment of the session.
pub fn respond(line: &str, env: &mut Environment) -> (r: Response)
    requires
        old(env)@.well_formed(),
    ensures
        (r@, final(env)@) == answer(line@, old(env)@),
        final(env)@.well_formed(),
        closed(old(env)@) ==> closed(final(env)@),
{
    if same_text(line, "exit") || same_text(line, "exit\n") || same_text(line, "exit\r\n") {
        return Response::Exit;
    }
    let lexer = Lexer::new(line.to_owned());
    let mut parser = Parser::new(lexer);
    let program = parser.parse_program();
    if parser.errors().len() > 0 {
        return Response::ParseErrors(copy_texts(parser.errors()));
    }
    match program {
        None => Response::ParseErrors(copy_texts(parser.errors())),
        Some(program) => Response::Value(eval(&program, env)),
    }
}

} // verus!
