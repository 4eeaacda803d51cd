//! The Common Expression Language engine that the rules are written in.
//!
//! Programs are compiled and run by the `cel` crate; this module holds the
//! library's side of that boundary.

use std::sync::Arc;
use cel::extractors::This;
use vstd::prelude::*;
use crate::request::{request_value, Request, RequestData, RequestValue};
use crate::text::{lower, trim};
use crate::lexer::{cel_safe, is_cel_safe};

verus! {

#[verifier::external_type_specification]
#[verifier::external_body]
pub struct ExProgram(cel::Program);

#[verifier::external_type_specification]
#[verifier::external_body]
pub struct ExContext<'a>(cel::Context<'a>);

#[verifier::external_type_specification]
#[verifier::external_body]
pub struct ExValue(cel::Value);

/// Declared because `cel::Value`'s operator impls name it.
#[verifier::external_type_specification]
#[verifier::external_body]
pub struct ExExecutionError(cel::ExecutionError);

/// The parser's verdict on a program text: `None` where it accepts the text,
/// otherwise the text of the errors it reports.
pub uninterp spec fn cel_parse_error(source: Seq<char>) -> Option<Seq<char>>;

/// `cel::Program::compile`.
/// Claims: the program is accepted or refused, and the error text given,
/// as the function `cel_parse_error` of the source says.
#[verifier::external_body]
fn compile_program(source: &str) -> (r: Result<cel::Program, String>)
    ensures
        r is Ok <==> cel_parse_error(source@) is None,
        r matches Err(m) ==> cel_parse_error(source@) == Some(m@),
{
    match cel::Program::compile(source) {
        Ok(program) => Ok(program),
        Err(errors) => Err(errors.to_string()),
    }
}

/// One compiled test: a program in the Common Expression Language together
/// with the text it was compiled from.
#[derive(Debug)]
pub struct Test {
    source: String,
    program: cel::Program,
}

impl View for Test {
    type V = Seq<char>;

    /// A test is known by its source text; the compiled program is what the
    /// parser made of that text.
    closed spec fn view(&self) -> Seq<char> {
        self.source@
    }
}

impl Test {
    /// Compiles a test: accepted exactly where the parser accepts the text,
    /// refused with the parser's error text otherwise.
    pub fn compile(source: &str) -> (r: Result<Test, String>)
        ensures
            r is Ok <==> cel_parse_error(source@) is None,
            r matches Ok(t) ==> t@ == source@,
            r matches Err(m) ==> cel_parse_error(source@) == Some(m@),
    {
        match compile_program(source) {
            Ok(program) => Ok(Test { source: source.to_string(), program }),
            Err(m) => Err(m),
        }
    }

    /// The source text of the test.
    pub fn source(&self) -> (s: &str)
        ensures
            s@ == self@,
    {
        self.source.as_str()
    }
}

/// What running a program gave, in the terms the library reads it by.
#[derive(Debug, Clone, PartialEq, Eq)]
pub enum Evaluation {
    /// The program returned a boolean.
    Bool(bool),
    /// The program returned a string.
    Text(String),
    /// The program returned another kind of value; its debug form.
    Other(String),
    /// The program failed, or was not run; the error message.
    Failed(String),
}

/// What the library reads from a program's result: a boolean, a string, or
/// neither (another value, or a failure).
pub enum Verdict {
    Bool(bool),
    Text(Seq<char>),
    Neither,
}

/// The verdict an evaluation carries.
pub open spec fn verdict_of(e: Evaluation) -> Verdict {
    match e {
        Evaluation::Bool(b) => Verdict::Bool(b),
        Evaluation::Text(s) => Verdict::Text(s@),
        _ => Verdict::Neither,
    }
}

/// The verdict of running `program` in the library's environment, with
/// `request` bound to the given value.
pub uninterp spec fn cel_verdict(program: Seq<char>, request: RequestValue) -> Verdict;

/// The verdict of a test as the library runs it: the engine's verdict for
/// a `cel_safe` program; a program that is not `cel_safe` is not run and
/// gives neither a boolean nor a string.
pub open spec fn run_verdict(program: Seq<char>, request: RequestValue) -> Verdict {
    if cel_safe(program) {
        cel_verdict(program, request)
    } else {
        Verdict::Neither
    }
}

/// The message of a test that the library declines to run.
pub open spec fn unsupported_message() -> Seq<char> {
    "program not supported: it uses a comprehension, a struct literal, bytes, a raw string, a duration, a timestamp or a minus sign"@
}

/// What the receiver of `get_first()` is: a list, or anything else.
pub enum Receiver<T> {
    List(Vec<T>),
    Other,
}

/// What a call of an extension function gives: a value, or no overload for
/// its receiver.
#[derive(Debug, PartialEq, Eq)]
pub enum Applied<T> {
    Value(T),
    NoSuchOverload,
}

/// The rules' `get_first()`: the first item of a list, or `null` where the
/// list is empty; a receiver that is not a list has no such overload.
pub fn get_first<T>(receiver: Receiver<T>, null: T) -> (r: Applied<T>)
    ensures
        match receiver {
            Receiver::List(items) => r == Applied::Value(if items@.len() > 0 { items@[0] } else { null }),
            Receiver::Other => r == Applied::<T>::NoSuchOverload,
        },
{
    match receiver {
        Receiver::List(items) => {
            let mut items = items;
            if items.len() > 0 {
                Applied::Value(items.swap_remove(0))
            } else {
                Applied::Value(null)
            }
        },
        Receiver::Other => Applied::NoSuchOverload,
    }
}

/// `cel::Context::default` with `Context::add_function` for the library's
/// extension functions: `contains` (the crate's own), `lower` and `trim`
/// (calls of the library functions of those names), and `get_first` (a call
/// of the library's `get_first`, with `null` as the default).
#[verifier::external_body]
fn standard_context() -> cel::Context<'static> {
    let mut context = cel::Context::default();
    context.add_function("contains", cel::functions::contains);
    context.add_function("lower", |This(s): This<Arc<String>>| lower(s.as_str()));
    context.add_function("trim", |This(s): This<Arc<String>>| trim(s.as_str()));
    context.add_function("get_first", |This(this): This<cel::Value>| -> cel::ResolveResult {
        let receiver = match this {
            cel::Value::List(v) => Receiver::List((*v).clone()),
            _ => Receiver::Other,
        };
        match get_first(receiver, cel::Value::Null) {
            Applied::Value(v) => Ok(v),
            Applied::NoSuchOverload => Err(cel::ExecutionError::NoSuchOverload),
        }
    });
    context
}

/// The library's CEL environment: the standard functions of the `cel`
/// crate together with `lower()` and `trim()` on strings, `contains()`, and
/// `get_first()` on lists. It holds nothing: each run builds it anew.
pub struct Environment;

impl Environment {
    /// The library's environment.
    pub fn new() -> (e: Environment) {
        Environment
    }

    /// Runs a test against a request, the request's value (see
    /// `request_value`) bound to the variable `request`. A test that is not
    /// `cel_safe` is not run: it fails with `unsupported_message`.
    pub fn run(&self, test: &Test, request: &Request) -> (e: Evaluation)
        ensures
            verdict_of(e) == run_verdict(test@, request_value(request@)),
            !cel_safe(test@) ==> (e matches Evaluation::Failed(m) && m@ == unsupported_message()),
    {
        if !is_cel_safe(test.source()) {
            return Evaluation::Failed(
                "program not supported: it uses a comprehension, a struct literal, bytes, a raw string, a duration, a timestamp or a minus sign".to_string(),
            );
        }
        let data = request.data();
        run_program(test, &data)
    }
}

/// `standard_context`, `Context::add_variable_from_value` (the request as
/// `request`) and `cel::Program::execute`, the result read as an
/// `Evaluation`: a boolean or a string as such, another value by its debug
/// form, an error by its message.
/// Claims that a boolean or string result, or the lack of one, is the
/// function `cel_verdict` of the program text and the request value: a
/// `cel_safe` program has no comprehension, so no boolean or string it
/// returns depends on the order in which a map's keys are walked. The text of another value or of an error is left
/// unsaid: it can show a map, whose keys come out in an order seeded anew in
/// each process. Programs that are not `cel_safe` are left out: on some of
/// them `execute` panics.
#[verifier::external_body]
fn run_program(test: &Test, data: &RequestData) -> (e: Evaluation)
    requires
        cel_safe(test@),
    ensures
        verdict_of(e) == cel_verdict(test@, data@),
{
    let mut context = standard_context();
    context.add_variable_from_value("request", data.cel_value());
    match test.program.execute(&context) {
        Ok(cel::Value::Bool(b)) => Evaluation::Bool(b),
        Ok(cel::Value::String(s)) => Evaluation::Text(s.to_string()),
        Ok(v) => Evaluation::Other(format!("{:?}", v)),
        Err(e) => Evaluation::Failed(e.to_string()),
    }
}

} // verus!
