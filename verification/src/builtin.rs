//! The commands that the shell carries out itself.

use vstd::prelude::*;
use vstd::string::*;
use vstd::slice::slice_subrange;
use crate::host::{
    fails, lemma_ends_in_newline, refusal, refuse, say, says, utf8, Reply, ReplyView, Request,
    RequestView, ShellError, ShellErrorView, Step, StepView,
};
use crate::path::{lemma_lookup_ends, resolve, resolved, search_path, Lookup, LookupView};
use crate::status::{parse_status, status_of};
use crate::text::{cut, join, joined, same, to_chars};

verus! {

/// The commands that the shell carries out itself. The set is closed.
#[derive(Debug, Clone, Copy, PartialEq, Eq, Structural)]
pub enum Builtin {
    Echo,
    Exit,
    Type,
    Pwd,
    Cd,
}

/// The builtin that `name` names, if any. Names are matched exactly, case
/// included, and no builtin has a second name.
pub open spec fn builtin_of(name: Seq<char>) -> Option<Builtin> {
    if name == "echo"@ {
        Some(Builtin::Echo)
    } else if name == "exit"@ {
        Some(Builtin::Exit)
    } else if name == "type"@ {
        Some(Builtin::Type)
    } else if name == "pwd"@ {
        Some(Builtin::Pwd)
    } else if name == "cd"@ {
        Some(Builtin::Cd)
    } else {
        None
    }
}

/// The builtin that `name` names, if any.
pub fn is_builtin(name: &str) -> (r: Option<Builtin>)
    ensures
        r == builtin_of(name@),
{
    if same(name, "echo") {
        Some(Builtin::Echo)
    } else if same(name, "exit") {
        Some(Builtin::Exit)
    } else if same(name, "type") {
        Some(Builtin::Type)
    } else if same(name, "pwd") {
        Some(Builtin::Pwd)
    } else if same(name, "cd") {
        Some(Builtin::Cd)
    } else {
        None
    }
}

/// What `echo` prints: its arguments with one space between each two, and a
/// newline.
pub open spec fn echo_text(args: Seq<Seq<char>>) -> Seq<char> {
    joined(args, " "@) + "\n"@
}

/// The step that `exit` comes to: the process ends with the status that the
/// first argument writes, or with 0 when there is no argument. An argument
/// that writes no status is an error, and the process goes on.
pub open spec fn exit_step(args: Seq<Seq<char>>) -> StepView {
    if args.len() == 0 {
        StepView::Ask(RequestView::Exit(0))
    } else {
        match status_of(args.first()) {
            Some(status) => StepView::Ask(RequestView::Exit(status)),
            None => fails(ShellErrorView::InvalidStatus),
        }
    }
}

/// The step that `type` comes to, given the replies so far. The first
/// argument is described: a builtin's name as such, without asking
/// anything; any other name by where the search path has it, or as not
/// found.
pub open spec fn type_step(args: Seq<Seq<char>>, replies: Seq<ReplyView>) -> StepView {
    if args.len() == 0 {
        fails(ShellErrorView::MissingOperand)
    } else if builtin_of(args.first()) is Some {
        says(args.first() + " is a shell builtin\n"@)
    } else {
        match resolved(args.first(), replies) {
            LookupView::Ask(request) => StepView::Ask(request),
            LookupView::Found(path, _) => says(args.first() + " is "@ + path + "\n"@),
            LookupView::Missing => says(args.first() + ": not found\n"@),
            LookupView::Failed(error) => fails(error),
        }
    }
}

/// The step that `pwd` comes to, given the replies so far: the working
/// directory is asked for, and printed as it was reported, with a newline.
pub open spec fn pwd_step(replies: Seq<ReplyView>) -> StepView {
    if replies.len() == 0 {
        StepView::Ask(RequestView::CurrentDir)
    } else {
        match replies.first() {
            ReplyView::Dir(path) => says(path + "\n"@),
            other => fails(refusal(other)),
        }
    }
}

/// `target` with each `~` that stands at its beginning, before any other
/// character, replaced by `home`.
pub open spec fn expanded(target: Seq<char>, home: Seq<char>) -> Seq<char>
    decreases target.len(),
{
    if target.len() > 0 && target.first() == '~' {
        home + expanded(target.drop_first(), home)
    } else {
        target
    }
}

/// The step that entering the directory `target` comes to, given the
/// replies so far. The target is probed first. One that does not exist is
/// reported on the output, and nothing is changed. One that exists is made
/// the working directory, and nothing is printed.
pub open spec fn enter_step(target: Seq<char>, replies: Seq<ReplyView>) -> StepView {
    if replies.len() == 0 {
        StepView::Ask(RequestView::Probe(target))
    } else {
        match replies.first() {
            ReplyView::Exists(false) => says(target + ": No such file or directory\n"@),
            ReplyView::Exists(true) => if replies.len() == 1 {
                StepView::Ask(RequestView::ChangeDir(target))
            } else {
                match replies[1] {
                    ReplyView::Changed => StepView::Done(Ok(Seq::empty())),
                    other => fails(refusal(other)),
                }
            },
            other => fails(refusal(other)),
        }
    }
}

/// The step that `cd` comes to, given the replies so far. The first argument
/// is the target. Where it begins with `~`, the value of `HOME` is asked for
/// first and the target expanded with it; `HOME` not being set is an error.
/// A target that does not begin with `~` is entered as it stands, and
/// `HOME` is not looked at.
pub open spec fn cd_step(args: Seq<Seq<char>>, replies: Seq<ReplyView>) -> StepView {
    if args.len() == 0 {
        fails(ShellErrorView::MissingOperand)
    } else if args.first().len() > 0 && args.first().first() == '~' {
        if replies.len() == 0 {
            StepView::Ask(RequestView::Var("HOME"@))
        } else {
            match replies.first() {
                ReplyView::Var(Some(home)) => enter_step(
                    expanded(args.first(), home),
                    replies.drop_first(),
                ),
                ReplyView::Var(None) => fails(ShellErrorView::HomeNotSet),
                other => fails(refusal(other)),
            }
        }
    } else {
        enter_step(args.first(), replies)
    }
}

/// The step that the builtin `kind` comes to with the arguments `args`,
/// given the replies so far.
pub open spec fn builtin_step(kind: Builtin, args: Seq<Seq<char>>, replies: Seq<ReplyView>)
    -> StepView {
    match kind {
        Builtin::Echo => says(echo_text(args)),
        Builtin::Exit => exit_step(args),
        Builtin::Type => type_step(args, replies),
        Builtin::Pwd => pwd_step(replies),
        Builtin::Cd => cd_step(args, replies),
    }
}

/// Whether `step` ends the command: the command is over, or the process is
/// to end.
pub open spec fn is_last(step: StepView) -> bool {
    step is Done || step matches StepView::Ask(RequestView::Exit(_))
}

/// Whether the replies are as many as any command waits for: three, and
/// where the first is the value of the search path, two more than the
/// directories that it lists.
pub open spec fn enough(replies: Seq<ReplyView>) -> bool {
    &&& replies.len() >= 3
    &&& replies.first() matches ReplyView::Var(value) ==> replies.len() >= search_path(value).len()
        + 2
}

/// A builtin comes to an end: with enough replies, nothing further is asked.
pub proof fn lemma_builtin_ends(kind: Builtin, args: Seq<Seq<char>>, replies: Seq<ReplyView>)
    requires
        enough(replies),
    ensures
        is_last(builtin_step(kind, args, replies)),
{
    match kind {
        Builtin::Type => {
            if let ReplyView::Var(value) = replies.first() {
                lemma_lookup_ends(search_path(value), args.first(), replies.drop_first());
            }
        },
        Builtin::Cd => {
            assert(replies.drop_first()[1] == replies[2]);
        },
        _ => {},
    }
}

/// What `echo` and `pwd` print ends in a newline, and so does what `type`
/// prints.
pub proof fn lemma_prints_lines(args: Seq<Seq<char>>, replies: Seq<ReplyView>)
    ensures
        utf8(echo_text(args)).len() > 0 && utf8(echo_text(args)).last() == 10u8,
        pwd_step(replies) matches StepView::Done(Ok(bytes)) ==> bytes.len() > 0 && bytes.last()
            == 10u8,
        type_step(args, replies) matches StepView::Done(Ok(bytes)) ==> bytes.len() > 0
            && bytes.last() == 10u8,
{
    lemma_ends_in_newline(joined(args, " "@));
    if replies.len() > 0 {
        if let ReplyView::Dir(path) = replies.first() {
            lemma_ends_in_newline(path);
        }
    }
    if args.len() > 0 {
        let arg = args.first();
        if builtin_of(arg) is Some {
            reveal_strlit(" is a shell builtin\n");
            reveal_strlit(" is a shell builtin");
            reveal_strlit("\n");
            assert(arg + " is a shell builtin\n"@ =~= (arg + " is a shell builtin"@) + "\n"@);
            lemma_ends_in_newline(arg + " is a shell builtin"@);
        } else {
            match resolved(arg, replies) {
                LookupView::Found(path, _) => {
                    lemma_ends_in_newline(arg + " is "@ + path);
                },
                LookupView::Missing => {
                    reveal_strlit(": not found\n");
                    reveal_strlit(": not found");
                    reveal_strlit("\n");
                    assert(arg + ": not found\n"@ =~= (arg + ": not found"@) + "\n"@);
                    lemma_ends_in_newline(arg + ": not found"@);
                },
                _ => {},
            }
        }
    }
}

/// `cd` asks for no change of directory but to a path that it has just
/// probed and that was reported to exist.
pub proof fn lemma_cd_enters_what_exists(args: Seq<Seq<char>>, replies: Seq<ReplyView>)
    ensures
        cd_step(args, replies) matches StepView::Ask(RequestView::ChangeDir(target)) ==> {
            &&& replies.len() > 0
            &&& replies.last() == ReplyView::Exists(true)
            &&& cd_step(args, replies.drop_last()) == StepView::Ask(RequestView::Probe(target))
        },
{
    if cd_step(args, replies) matches StepView::Ask(RequestView::ChangeDir(target)) {
        if args.first().len() > 0 && args.first().first() == '~' {
            assert(replies.drop_first().drop_last() =~= replies.drop_last().drop_first());
            assert(replies.drop_last().drop_first().len() == 0);
        }
    }
}

/// Where `cd` probes its target, the reply decides. A target that does not
/// exist is reported, and the command is over: no change of directory is
/// asked for. A target that exists is entered, and once that is done the
/// command is over without output.
pub proof fn lemma_cd_decides(args: Seq<Seq<char>>, replies: Seq<ReplyView>, target: Seq<char>)
    requires
        cd_step(args, replies) == StepView::Ask(RequestView::Probe(target)),
    ensures
        cd_step(args, replies.push(ReplyView::Exists(false))) == says(
            target + ": No such file or directory\n"@,
        ),
        cd_step(args, replies.push(ReplyView::Exists(true))) == StepView::Ask(
            RequestView::ChangeDir(target),
        ),
        cd_step(args, replies.push(ReplyView::Exists(true)).push(ReplyView::Changed))
            == StepView::Done(Ok(Seq::<u8>::empty())),
{
    let no = replies.push(ReplyView::Exists(false));
    let yes = replies.push(ReplyView::Exists(true));
    let done = yes.push(ReplyView::Changed);
    if args.first().len() > 0 && args.first().first() == '~' {
        assert(replies.len() == 1);
        assert(no.drop_first() =~= seq![ReplyView::Exists(false)]);
        assert(yes.drop_first() =~= seq![ReplyView::Exists(true)]);
        assert(done.drop_first() =~= seq![ReplyView::Exists(true), ReplyView::Changed]);
    } else {
        assert(replies.len() == 0);
    }
}

/// `cd ~` goes home: the value of `HOME` is asked for, then probed, and then
/// made the working directory.
pub proof fn lemma_cd_home(home: Seq<char>)
    ensures
        cd_step(seq![seq!['~']], seq![]) == StepView::Ask(RequestView::Var("HOME"@)),
        cd_step(seq![seq!['~']], seq![ReplyView::Var(Some(home))]) == StepView::Ask(
            RequestView::Probe(home),
        ),
        cd_step(seq![seq!['~']], seq![ReplyView::Var(Some(home)), ReplyView::Exists(true)])
            == StepView::Ask(RequestView::ChangeDir(home)),
{
    let tilde = seq!['~'];
    assert(tilde.drop_first() =~= Seq::<char>::empty());
    assert(expanded(tilde.drop_first(), home) == tilde.drop_first());
    assert(expanded(tilde, home) =~= home);
    let one = seq![ReplyView::Var(Some(home))];
    let two = seq![ReplyView::Var(Some(home)), ReplyView::Exists(true)];
    assert(one.drop_first() =~= Seq::<ReplyView>::empty());
    assert(two.drop_first() =~= seq![ReplyView::Exists(true)]);
}

impl Builtin {
    /// The step that this builtin comes to with the arguments `args`, given
    /// the replies so far.
    pub fn exec(self, args: Vec<String>, replies: &[Reply]) -> (step: Step)
        ensures
            step@ == builtin_step(self, args.deep_view(), replies.deep_view()),
    {
        match self {
            Builtin::Echo => Step::Done(echo(args)),
            Builtin::Exit => exit(args),
            Builtin::Type => proc_type(args, replies),
            Builtin::Pwd => print_working_directory(replies),
            Builtin::Cd => change_directory(args, replies),
        }
    }
}

/// The output of `echo`. It never fails.
pub fn echo(args: Vec<String>) -> (out: Result<Vec<u8>, ShellError>)
    ensures
        out matches Ok(bytes) && bytes@ == utf8(echo_text(args.deep_view())),
{
    let mut response = join(&args, " ");
    response.append("\n");
    Ok(response.as_str().as_bytes_vec())
}

/// The step that `exit` comes to.
pub fn exit(args: Vec<String>) -> (step: Step)
    ensures
        step@ == exit_step(args.deep_view()),
{
    if args.len() == 0 {
        Step::Ask(Request::Exit(0))
    } else {
        match parse_status(args[0].as_str()) {
            Some(status) => Step::Ask(Request::Exit(status)),
            None => Step::Done(Err(ShellError::InvalidStatus)),
        }
    }
}

/// The step that `type` comes to, given the replies so far.
pub fn proc_type(args: Vec<String>, replies: &[Reply]) -> (step: Step)
    ensures
        step@ == type_step(args.deep_view(), replies.deep_view()),
{
    if args.len() == 0 {
        return Step::Done(Err(ShellError::MissingOperand));
    }
    let type_arg = args[0].as_str();
    let mut text = String::from_str(type_arg);
    if is_builtin(type_arg).is_some() {
        text.append(" is a shell builtin\n");
        return say(&text);
    }
    match resolve(type_arg, replies) {
        Lookup::Ask(request) => Step::Ask(request),
        Lookup::Found(entry, _) => {
            text.append(" is ");
            text.append(entry.as_str());
            text.append("\n");
            say(&text)
        },
        Lookup::Missing => {
            text.append(": not found\n");
            say(&text)
        },
        Lookup::Failed(error) => Step::Done(Err(error)),
    }
}

/// The step that `pwd` comes to, given the replies so far.
pub fn print_working_directory(replies: &[Reply]) -> (step: Step)
    ensures
        step@ == pwd_step(replies.deep_view()),
{
    if replies.len() == 0 {
        return Step::Ask(Request::CurrentDir);
    }
    match &replies[0] {
        Reply::Dir(cwd) => {
            let mut text = cwd.clone();
            text.append("\n");
            say(&text)
        },
        other => Step::Done(Err(refuse(other))),
    }
}

/// `target` with each `~` at its beginning replaced by `home`.
pub fn expand(target: &str, home: &str) -> (out: String)
    ensures
        out@ == expanded(target@, home@),
{
    let chars = to_chars(target);
    let n: usize = chars.len();
    let mut out = String::new();
    let mut i: usize = 0;
    assert(target@.skip(0) =~= target@);
    assert(out@ + expanded(target@, home@) =~= expanded(target@, home@));
    while i < n && chars[i] == '~'
        invariant
            chars@ == target@,
            n == chars.len(),
            i <= n,
            expanded(target@, home@) == out@ + expanded(target@.skip(i as int), home@),
        decreases n - i,
    {
        let ghost before = out@;
        out.append(home);
        proof {
            let rest = target@.skip(i as int);
            assert(rest.drop_first() =~= target@.skip(i as int + 1));
            assert(before + (home@ + expanded(rest.drop_first(), home@)) =~= (before + home@)
                + expanded(rest.drop_first(), home@));
        }
        i += 1;
    }
    let rest = cut(target, i, n);
    assert(rest@ =~= target@.skip(i as int));
    out.append(rest.as_str());
    out
}

/// The step that entering the directory `target` comes to, given the
/// replies so far.
pub fn enter(target: String, replies: &[Reply]) -> (step: Step)
    ensures
        step@ == enter_step(target@, replies.deep_view()),
{
    if replies.len() == 0 {
        return Step::Ask(Request::Probe(target));
    }
    match &replies[0] {
        Reply::Exists(false) => {
            let mut text = target;
            text.append(": No such file or directory\n");
            say(&text)
        },
        Reply::Exists(true) => {
            if replies.len() == 1 {
                Step::Ask(Request::ChangeDir(target))
            } else {
                match &replies[1] {
                    Reply::Changed => Step::Done(Ok(Vec::new())),
                    other => Step::Done(Err(refuse(other))),
                }
            }
        },
        other => Step::Done(Err(refuse(other))),
    }
}

/// The step that `cd` comes to, given the replies so far.
pub fn change_directory(args: Vec<String>, replies: &[Reply]) -> (step: Step)
    ensures
        step@ == cd_step(args.deep_view(), replies.deep_view()),
{
    if args.len() == 0 {
        return Step::Done(Err(ShellError::MissingOperand));
    }
    let target = args[0].as_str();
    let chars = to_chars(target);
    if chars.len() > 0 && chars[0] == '~' {
        if replies.len() == 0 {
            return Step::Ask(Request::Var(String::from_str("HOME")));
        }
        match &replies[0] {
            Reply::Var(Some(home)) => {
                let rest = slice_subrange(replies, 1, replies.len());
                assert(rest.deep_view() =~= replies.deep_view().drop_first());
                enter(expand(target, home.as_str()), rest)
            },
            Reply::Var(None) => Step::Done(Err(ShellError::HomeNotSet)),
            other => Step::Done(Err(refuse(other))),
        }
    } else {
        enter(String::from_str(target), replies)
    }
}

} // verus!
