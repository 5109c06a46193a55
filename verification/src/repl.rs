//! The interactive loop: prompt, read a line, execute it, write what it
//! printed, and again.
//!
//! The loop is turned inside out. [`Shell::run`] takes the reply to the
//! request it made last and returns the next request; the driver does the
//! work in between.

use vstd::prelude::*;
use vstd::string::*;
use crate::command::{command_step, diagnostic, parsed, Command, CommandView};
use crate::host::{
    refusal, refuse, utf8, Reply, ReplyView, Request, RequestView, ShellError, ShellErrorView, Step,
    StepView,
};

verus! {

/// What the shell is waiting for.
#[derive(Debug, Clone, Copy, PartialEq, Eq, Structural)]
pub enum Phase {
    /// The driver to start.
    Start,
    /// The prompt to be written.
    Prompting,
    /// A line of input.
    Reading,
    /// The reply to a request made for the command that is being executed.
    Running,
    /// The command's output to be written.
    Reporting,
    /// Nothing: the shell has ended.
    Stopped,
}

/// The shell between two requests.
pub struct Shell {
    phase: Phase,
    command: Command,
    replies: Vec<Reply>,
}

/// The mathematical value of a [`Shell`]: what it is waiting for, with the
/// command that is being executed and the replies received for it so far.
pub enum ShellView {
    Start,
    Prompting,
    Reading,
    Running(CommandView, Seq<ReplyView>),
    Reporting,
    Stopped,
}

/// The mathematical value of what [`Shell::run`] returns.
pub open spec fn outcome(result: Result<Request, ShellError>) -> Result<
    RequestView,
    ShellErrorView,
> {
    match result {
        Ok(request) => Ok(request@),
        Err(error) => Err(error@),
    }
}

/// The state and the request that executing `command` leads to, given the
/// replies so far. A request is handed on to the driver; `exit` ends the
/// shell. The output of a command that is over is written, and in place of
/// the output of one that failed, the line that says so.
pub open spec fn advanced(command: CommandView, replies: Seq<ReplyView>) -> (
    ShellView,
    Result<RequestView, ShellErrorView>,
) {
    match command_step(command, replies) {
        StepView::Ask(RequestView::Exit(status)) => (
            ShellView::Stopped,
            Ok(RequestView::Exit(status)),
        ),
        StepView::Ask(request) => (ShellView::Running(command, replies), Ok(request)),
        StepView::Done(Ok(bytes)) => (ShellView::Reporting, Ok(RequestView::Write(bytes))),
        StepView::Done(Err(error)) => (
            ShellView::Reporting,
            Ok(RequestView::Write(utf8(diagnostic(command, error)))),
        ),
    }
}

/// The state that the shell ends in, and the error it ends with, after a
/// reply that its own channels give no sense to.
pub open spec fn stopped(other: ReplyView) -> (ShellView, Result<RequestView, ShellErrorView>) {
    (ShellView::Stopped, Err(refusal(other)))
}

/// The next state of the shell and what it returns, for each state and
/// reply. The shell writes the prompt `$ `, reads a line, executes it, and
/// writes its output, in this order and for ever. The end of the input ends
/// the shell with status 0. A failure of the input or output channel ends it
/// with that error; a failure while a command is executed is the command's
/// failure, and the shell goes on.
pub open spec fn shell_step(state: ShellView, reply: ReplyView) -> (
    ShellView,
    Result<RequestView, ShellErrorView>,
) {
    match state {
        ShellView::Start => match reply {
            ReplyView::Started => (ShellView::Prompting, Ok(RequestView::Write(utf8("$ "@)))),
            other => stopped(other),
        },
        ShellView::Prompting => match reply {
            ReplyView::Written => (ShellView::Reading, Ok(RequestView::ReadLine)),
            other => stopped(other),
        },
        ShellView::Reading => match reply {
            ReplyView::Line(Some(line)) => advanced(parsed(line), Seq::empty()),
            ReplyView::Line(None) => (ShellView::Stopped, Ok(RequestView::Exit(0))),
            other => stopped(other),
        },
        ShellView::Running(command, replies) => advanced(command, replies.push(reply)),
        ShellView::Reporting => match reply {
            ReplyView::Written => (ShellView::Prompting, Ok(RequestView::Write(utf8("$ "@)))),
            other => stopped(other),
        },
        ShellView::Stopped => (ShellView::Stopped, Err(ShellErrorView::Unexpected)),
    }
}

impl View for Shell {
    type V = ShellView;

    closed spec fn view(&self) -> ShellView {
        match self.phase {
            Phase::Start => ShellView::Start,
            Phase::Prompting => ShellView::Prompting,
            Phase::Reading => ShellView::Reading,
            Phase::Running => ShellView::Running(self.command@, self.replies.deep_view()),
            Phase::Reporting => ShellView::Reporting,
            Phase::Stopped => ShellView::Stopped,
        }
    }
}

impl Shell {
    /// A shell that waits for its driver to start.
    pub fn new() -> (shell: Shell)
        ensures
            shell@ == ShellView::Start,
    {
        Shell { phase: Phase::Start, command: Command::new(String::new()), replies: Vec::new() }
    }

    /// What the shell is waiting for.
    pub fn phase(&self) -> (phase: Phase)
        ensures
            phase == match self@ {
                ShellView::Start => Phase::Start,
                ShellView::Prompting => Phase::Prompting,
                ShellView::Reading => Phase::Reading,
                ShellView::Running(_, _) => Phase::Running,
                ShellView::Reporting => Phase::Reporting,
                ShellView::Stopped => Phase::Stopped,
            },
    {
        self.phase
    }

    /// Takes the reply to the request made last and returns the next
    /// request, or the error that the shell ends with.
    pub fn run(&mut self, reply: Reply) -> (next: Result<Request, ShellError>)
        ensures
            (final(self)@, outcome(next)) == shell_step(old(self)@, reply@),
    {
        match self.phase {
            Phase::Start => match reply {
                Reply::Started => self.prompt(),
                other => self.stop(&other),
            },
            Phase::Prompting => match reply {
                Reply::Written => {
                    self.phase = Phase::Reading;
                    Ok(Request::ReadLine)
                },
                other => self.stop(&other),
            },
            Phase::Reading => match reply {
                Reply::Line(Some(line)) => {
                    self.command = Command::new(line);
                    self.replies = Vec::new();
                    assert(self.replies.deep_view() =~= Seq::<ReplyView>::empty());
                    self.advance()
                },
                Reply::Line(None) => {
                    self.phase = Phase::Stopped;
                    Ok(Request::Exit(0))
                },
                other => self.stop(&other),
            },
            Phase::Running => {
                let ghost before = self.replies.deep_view();
                self.replies.push(reply);
                assert(self.replies.deep_view() =~= before.push(reply@));
                self.advance()
            },
            Phase::Reporting => match reply {
                Reply::Written => self.prompt(),
                other => self.stop(&other),
            },
            Phase::Stopped => Err(ShellError::Unexpected),
        }
    }

    /// Asks for the prompt to be written.
    fn prompt(&mut self) -> (next: Result<Request, ShellError>)
        ensures
            final(self)@ == ShellView::Prompting,
            outcome(next) == Ok::<RequestView, ShellErrorView>(RequestView::Write(utf8("$ "@))),
    {
        self.phase = Phase::Prompting;
        Ok(Request::Write("$ ".as_bytes_vec()))
    }

    /// Ends the shell after a reply that its own channels give no sense to.
    fn stop(&mut self, other: &Reply) -> (next: Result<Request, ShellError>)
        ensures
            (final(self)@, outcome(next)) == stopped(other@),
    {
        self.phase = Phase::Stopped;
        Err(refuse(other))
    }

    /// Goes on with the command that is being executed.
    fn advance(&mut self) -> (next: Result<Request, ShellError>)
        ensures
            (final(self)@, outcome(next)) == advanced(
                old(self).command@,
                old(self).replies.deep_view(),
            ),
    {
        match self.command.exec(self.replies.as_slice()) {
            Step::Ask(Request::Exit(status)) => {
                self.phase = Phase::Stopped;
                Ok(Request::Exit(status))
            },
            Step::Ask(request) => {
                self.phase = Phase::Running;
                Ok(request)
            },
            Step::Done(Ok(bytes)) => {
                self.phase = Phase::Reporting;
                Ok(Request::Write(bytes))
            },
            Step::Done(Err(error)) => {
                self.phase = Phase::Reporting;
                Ok(Request::Write(self.command.report(&error).as_str().as_bytes_vec()))
            },
        }
    }
}

} // verus!
