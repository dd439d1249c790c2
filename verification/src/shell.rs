//! A command to run as a child process, described by plain values.

use vstd::prelude::*;

verus! {

/// What a command line is: the program and its arguments, as text.
pub struct CommandLineView {
    pub program: Seq<char>,
    pub args: Seq<Seq<char>>,
}

/// A program to run and the arguments to hand it.
pub struct CommandLine {
    pub program: String,
    pub args: Vec<String>,
}

impl View for CommandLine {
    type V = CommandLineView;

    open spec fn view(&self) -> CommandLineView {
        CommandLineView { program: self.program@, args: self.args@.map_values(|a: String| a@) }
    }
}

impl CommandLine {
    /// A command line that runs `program` with no arguments.
    pub fn new(program: &str) -> (r: CommandLine)
        ensures
            r@.program == program@,
            r@.args == Seq::<Seq<char>>::empty(),
    {
        let r = CommandLine { program: String::from_str(program), args: Vec::new() };
        assert(r@.args =~= Seq::<Seq<char>>::empty());
        r
    }

    /// Appends one argument.
    pub fn arg(&mut self, a: &str)
        ensures
            final(self)@.program == old(self)@.program,
            final(self)@.args == old(self)@.args.push(a@),
    {
        self.args.push(String::from_str(a));
        assert(self@.args =~= old(self)@.args.push(a@));
    }
}

/// A child process to run, whose output goes to this program's output.
pub struct Shell {
    command: CommandLine,
}

impl View for Shell {
    type V = CommandLineView;

    closed spec fn view(&self) -> CommandLineView {
        self.command@
    }
}

impl Shell {
    /// Wraps the command that the shell will run.
    pub fn new(cmd: CommandLine) -> (r: Shell)
        ensures
            r@ == cmd@,
    {
        Shell { command: cmd }
    }

    /// The command that the shell runs.
    pub fn command(&self) -> (r: &CommandLine)
        ensures
            r@ == self@,
    {
        &self.command
    }
}

} // verus!
