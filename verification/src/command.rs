//! The command under which the server is offered to a shell.

use vstd::prelude::*;

verus! {

/// The `http serve` command.
#[derive(Debug, Clone, Copy, PartialEq, Eq, Structural)]
pub struct HttpServe;

/// What kind of value an argument takes.
#[derive(Debug, Clone, Copy, PartialEq, Eq, Structural)]
pub enum ArgumentShape {
    /// A string.
    Text,
    /// A closure that takes one record.
    Closure,
}

/// One required argument of the command.
#[derive(Debug, PartialEq, Eq)]
pub struct Argument {
    pub name: &'static str,
    pub shape: ArgumentShape,
    pub description: &'static str,
}

impl HttpServe {
    /// The name of the command.
    pub fn name(&self) -> (name: &'static str)
        ensures
            name@ == "http serve"@,
    {
        "http serve"
    }

    /// What the command does, in one line.
    pub fn description(&self) -> (description: &'static str)
        ensures
            description@ == "Start an HTTP server that evaluates a closure for each request"@,
    {
        "Start an HTTP server that evaluates a closure for each request"
    }

    /// The required arguments, in order: the address to bind, then the
    /// closure to evaluate.
    pub fn arguments(&self) -> (arguments: Vec<Argument>)
        ensures
            arguments@.len() == 2,
            arguments@[0].name@ == "address"@,
            arguments@[0].shape == ArgumentShape::Text,
            arguments@[0].description@
                == "Address to bind to: TCP (e.g., ':3000', '127.0.0.1:8080') or Unix socket (e.g., './server.sock')"@,
            arguments@[1].name@ == "closure"@,
            arguments@[1].shape == ArgumentShape::Closure,
            arguments@[1].description@ == "The closure to evaluate for each HTTP request"@,
    {
        let mut arguments: Vec<Argument> = Vec::new();
        arguments.push(
            Argument {
                name: "address",
                shape: ArgumentShape::Text,
                description: "Address to bind to: TCP (e.g., ':3000', '127.0.0.1:8080') or Unix socket (e.g., './server.sock')",
            },
        );
        arguments.push(
            Argument {
                name: "closure",
                shape: ArgumentShape::Closure,
                description: "The closure to evaluate for each HTTP request",
            },
        );
        arguments
    }

    /// What the command returns once the server has stopped.
    pub fn stopped_message(&self) -> (message: &'static str)
        ensures
            message@ == "Server stopped"@,
    {
        "Server stopped"
    }
}

} // verus!
