//! What the shell asks of the process that hosts it, and what it is told.
//!
//! The shell decides; it never reads the environment, touches the file
//! system or starts a process itself. Each such piece of work is a
//! [`Request`] handed to the driver, which carries it out and answers with a
//! [`Reply`]. A command is executed by asking, again and again, for the next
//! [`Step`] given the replies received so far.

use vstd::prelude::*;
use vstd::string::*;

verus! {

/// Work that the driver does on behalf of the shell.
#[derive(Debug, Clone, PartialEq, Eq)]
pub enum Request {
    /// Write these bytes to the output channel and flush it.
    Write(Vec<u8>),
    /// Read one line from the input channel, its newline included.
    ReadLine,
    /// Look up the environment variable of this name.
    Var(String),
    /// Test whether anything exists at this path.
    Probe(String),
    /// Report the current working directory.
    CurrentDir,
    /// Make this path the current working directory.
    ChangeDir(String),
    /// Run the program at this path with these arguments, wait for it, and
    /// capture its standard output.
    Spawn(String, Vec<String>),
    /// End the process with this status. No reply follows.
    Exit(i32),
}

/// The mathematical value of a [`Request`].
pub enum RequestView {
    Write(Seq<u8>),
    ReadLine,
    Var(Seq<char>),
    Probe(Seq<char>),
    CurrentDir,
    ChangeDir(Seq<char>),
    Spawn(Seq<char>, Seq<Seq<char>>),
    Exit(i32),
}

impl View for Request {
    type V = RequestView;

    open spec fn view(&self) -> RequestView {
        match self {
            Request::Write(bytes) => RequestView::Write(bytes@),
            Request::ReadLine => RequestView::ReadLine,
            Request::Var(name) => RequestView::Var(name@),
            Request::Probe(path) => RequestView::Probe(path@),
            Request::CurrentDir => RequestView::CurrentDir,
            Request::ChangeDir(path) => RequestView::ChangeDir(path@),
            Request::Spawn(program, args) => RequestView::Spawn(program@, args.deep_view()),
            Request::Exit(status) => RequestView::Exit(*status),
        }
    }
}

/// What the driver answers to a [`Request`].
#[derive(Debug, Clone, PartialEq, Eq)]
pub enum Reply {
    /// Nothing was asked yet: the driver has just started.
    Started,
    /// The bytes were written and flushed.
    Written,
    /// The line that was read, or `None` at the end of the input.
    Line(Option<String>),
    /// The value of the variable, or `None` when it is not set.
    Var(Option<String>),
    /// Whether the path exists.
    Exists(bool),
    /// The current working directory.
    Dir(String),
    /// The working directory was changed.
    Changed,
    /// The standard output of the program that ran.
    Output(Vec<u8>),
    /// The work could not be done; the operating system's message.
    Failed(String),
}

/// The mathematical value of a [`Reply`].
pub enum ReplyView {
    Started,
    Written,
    Line(Option<Seq<char>>),
    Var(Option<Seq<char>>),
    Exists(bool),
    Dir(Seq<char>),
    Changed,
    Output(Seq<u8>),
    Failed(Seq<char>),
}

impl View for Reply {
    type V = ReplyView;

    open spec fn view(&self) -> ReplyView {
        match self {
            Reply::Started => ReplyView::Started,
            Reply::Written => ReplyView::Written,
            Reply::Line(line) => ReplyView::Line(line.deep_view()),
            Reply::Var(value) => ReplyView::Var(value.deep_view()),
            Reply::Exists(found) => ReplyView::Exists(*found),
            Reply::Dir(path) => ReplyView::Dir(path@),
            Reply::Changed => ReplyView::Changed,
            Reply::Output(bytes) => ReplyView::Output(bytes@),
            Reply::Failed(message) => ReplyView::Failed(message@),
        }
    }
}

impl DeepView for Reply {
    type V = ReplyView;

    open spec fn deep_view(&self) -> ReplyView {
        self@
    }
}

/// Why a command produced no output.
#[derive(Debug, Clone, PartialEq, Eq)]
pub enum ShellError {
    /// A builtin that needs an argument was given none.
    MissingOperand,
    /// The argument of `exit` is not an integer that fits an exit status.
    InvalidStatus,
    /// `cd` had to expand `~` and `HOME` is not set.
    HomeNotSet,
    /// The driver could not do what was asked; its message.
    Failed(String),
    /// The driver's reply does not answer the request that was made.
    Unexpected,
}

/// The mathematical value of a [`ShellError`].
pub enum ShellErrorView {
    MissingOperand,
    InvalidStatus,
    HomeNotSet,
    Failed(Seq<char>),
    Unexpected,
}

impl View for ShellError {
    type V = ShellErrorView;

    open spec fn view(&self) -> ShellErrorView {
        match self {
            ShellError::MissingOperand => ShellErrorView::MissingOperand,
            ShellError::InvalidStatus => ShellErrorView::InvalidStatus,
            ShellError::HomeNotSet => ShellErrorView::HomeNotSet,
            ShellError::Failed(message) => ShellErrorView::Failed(message@),
            ShellError::Unexpected => ShellErrorView::Unexpected,
        }
    }
}

/// Why there is no output, in words.
pub open spec fn reason(error: ShellErrorView) -> Seq<char> {
    match error {
        ShellErrorView::MissingOperand => "missing operand"@,
        ShellErrorView::InvalidStatus => "invalid exit status"@,
        ShellErrorView::HomeNotSet => "HOME not set"@,
        ShellErrorView::Failed(message) => message,
        ShellErrorView::Unexpected => "unexpected reply"@,
    }
}

impl ShellError {
    /// Why there is no output, in words.
    pub fn describe(&self) -> (text: String)
        ensures
            text@ == reason(self@),
    {
        match self {
            ShellError::MissingOperand => String::from_str("missing operand"),
            ShellError::InvalidStatus => String::from_str("invalid exit status"),
            ShellError::HomeNotSet => String::from_str("HOME not set"),
            ShellError::Failed(message) => message.clone(),
            ShellError::Unexpected => String::from_str("unexpected reply"),
        }
    }
}

/// What executing a command comes to, given the replies received so far.
#[derive(Debug, PartialEq, Eq)]
pub enum Step {
    /// The driver is to do this and add its reply to the replies.
    Ask(Request),
    /// The command is over: its output, or the reason there is none.
    Done(Result<Vec<u8>, ShellError>),
}

/// The mathematical value of a [`Step`].
pub enum StepView {
    Ask(RequestView),
    Done(Result<Seq<u8>, ShellErrorView>),
}

impl View for Step {
    type V = StepView;

    open spec fn view(&self) -> StepView {
        match self {
            Step::Ask(request) => StepView::Ask(request@),
            Step::Done(Ok(bytes)) => StepView::Done(Ok(bytes@)),
            Step::Done(Err(error)) => StepView::Done(Err(error@)),
        }
    }
}

/// The bytes that stand for `text` on the output channel: its UTF-8 encoding.
pub open spec fn utf8(text: Seq<char>) -> Seq<u8> {
    vstd::utf8::encode_utf8(text)
}

/// The step that ends a command with `text` as its output.
pub open spec fn says(text: Seq<char>) -> StepView {
    StepView::Done(Ok(utf8(text)))
}

/// The step that ends a command without output, for the reason `error`.
pub open spec fn fails(error: ShellErrorView) -> StepView {
    StepView::Done(Err(error))
}

/// The error that stands for a reply that is not the answer waited for: the
/// driver's failure is passed on, anything else is a reply out of place.
pub open spec fn refusal(other: ReplyView) -> ShellErrorView {
    match other {
        ReplyView::Failed(message) => ShellErrorView::Failed(message),
        _ => ShellErrorView::Unexpected,
    }
}

/// The bytes of two texts in a row are the bytes of the first and then
/// those of the second.
pub proof fn lemma_utf8_concat(a: Seq<char>, b: Seq<char>)
    ensures
        utf8(a + b) == utf8(a) + utf8(b),
    decreases a.len(),
{
    if a.len() == 0 {
        assert(a + b =~= b);
        assert(utf8(a) + utf8(b) =~= utf8(b));
    } else {
        assert((a + b).drop_first() =~= a.drop_first() + b);
        lemma_utf8_concat(a.drop_first(), b);
        assert(vstd::utf8::encode_scalar(a[0] as u32) + (utf8(a.drop_first()) + utf8(b))
            =~= (vstd::utf8::encode_scalar(a[0] as u32) + utf8(a.drop_first())) + utf8(b));
    }
}

/// Text that ends in a newline is written as bytes that end in the newline
/// byte.
pub proof fn lemma_ends_in_newline(text: Seq<char>)
    ensures
        utf8(text + "\n"@).len() > 0,
        utf8(text + "\n"@).last() == 10u8,
{
    reveal_strlit("\n");
    let newline = "\n"@;
    lemma_utf8_concat(text, newline);
    assert(newline.len() == 1 && newline[0] == '\n');
    assert(utf8(newline.drop_first()) =~= Seq::<u8>::empty()) by {
        assert(newline.drop_first().len() == 0);
    }
    assert(vstd::utf8::leading_byte_width_1(10u32) == 10u8) by {
        assert((10u32 & 0x7F) as u8 == 10u8) by (bit_vector);
    }
    assert(utf8(newline) =~= seq![10u8]);
}

/// The error that stands for `other`, a reply that is not the answer waited
/// for.
pub fn refuse(other: &Reply) -> (error: ShellError)
    ensures
        error@ == refusal(other@),
{
    match other {
        Reply::Failed(message) => ShellError::Failed(message.clone()),
        _ => ShellError::Unexpected,
    }
}

/// The step that ends a command with `text` as its output.
pub fn say(text: &String) -> (step: Step)
    ensures
        step@ == says(text@),
{
    Step::Done(Ok(text.as_str().as_bytes_vec()))
}

} // verus!
