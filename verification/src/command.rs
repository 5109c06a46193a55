//! One line of input as a command: its name, its arguments, and the builtin
//! that the name stands for, if any.

use vstd::prelude::*;
use vstd::string::*;
use crate::builtin::{
    builtin_of, builtin_step, enough, is_builtin, is_last, lemma_builtin_ends, Builtin,
};
use crate::host::{
    fails, reason, refusal, refuse, say, says, Reply, ReplyView, Request, RequestView, ShellError,
    ShellErrorView, Step, StepView,
};
use crate::path::{
    lemma_lookup_ends, lemma_misses_from, resolve, resolved, search_path, Lookup, LookupView,
};
use crate::text::{
    cut, fields, is_whitespace, join, joined, lemma_fields_free, lemma_span_first, lemma_span_is,
    lemma_trimmed, span, split, to_chars, trim, trimmed,
};

verus! {

/// A command as parsed from one line of input.
pub struct Command {
    pub(crate) name: String,
    pub(crate) args: Vec<String>,
    pub(crate) builtin: Option<Builtin>,
}

/// The mathematical value of a [`Command`].
pub struct CommandView {
    /// The first token of the trimmed line; empty for a blank line.
    pub name: Seq<char>,
    /// The tokens after the name, left to right; none of them is empty.
    pub args: Seq<Seq<char>>,
    /// The builtin that `name` names, if any.
    pub builtin: Option<Builtin>,
}

/// The pieces that are not empty, in order.
pub open spec fn non_empty(pieces: Seq<Seq<char>>) -> Seq<Seq<char>> {
    pieces.filter(|piece: Seq<char>| piece.len() > 0)
}

/// The non-empty pieces of `s` between spaces, in order. Only the space
/// itself separates: a tab is part of a word.
pub open spec fn words(s: Seq<char>) -> Seq<Seq<char>> {
    non_empty(fields(s, ' '))
}

/// The command that a line of input stands for. The line is trimmed; the
/// name is what stands before its first space, or all of it; the arguments
/// are the words of what follows that space.
pub open spec fn parsed(line: Seq<char>) -> CommandView {
    let t = trimmed(line);
    let n = span(t, ' ') as int;
    CommandView {
        name: t.take(n),
        args: if n < t.len() {
            words(t.skip(n + 1))
        } else {
            Seq::empty()
        },
        builtin: builtin_of(t.take(n)),
    }
}

/// The step that running the program `name` with the arguments `args` comes
/// to, given the replies so far. The name is searched for first. A name that
/// no directory of the search path holds is reported on the output. One that
/// was found is run, and what the program wrote to its standard output is
/// the command's output, byte for byte.
pub open spec fn external_step(name: Seq<char>, args: Seq<Seq<char>>, replies: Seq<ReplyView>)
    -> StepView {
    match resolved(name, replies) {
        LookupView::Ask(request) => StepView::Ask(request),
        LookupView::Found(program, index) => if replies.len() <= index + 2 {
            StepView::Ask(RequestView::Spawn(program, args))
        } else {
            match replies[index as int + 2] {
                ReplyView::Output(bytes) => StepView::Done(Ok(bytes)),
                other => fails(refusal(other)),
            }
        },
        LookupView::Missing => says(name + ": command not found\n"@),
        LookupView::Failed(error) => fails(error),
    }
}

/// The step that executing `command` comes to, given the replies so far. A
/// builtin is carried out by the shell. The command of a blank line does
/// nothing and prints nothing. Any other command runs a program.
pub open spec fn command_step(command: CommandView, replies: Seq<ReplyView>) -> StepView {
    match command.builtin {
        Some(kind) => builtin_step(kind, command.args, replies),
        None => if command.name.len() == 0 {
            StepView::Done(Ok(Seq::empty()))
        } else {
            external_step(command.name, command.args, replies)
        },
    }
}

/// The line that tells the operator that `command` failed with `error`: the
/// command's name and arguments with one space between each two, a colon,
/// the reason, and a newline.
pub open spec fn diagnostic(command: CommandView, error: ShellErrorView) -> Seq<char> {
    joined(seq![command.name] + command.args, " "@) + ": "@ + reason(error) + "\n"@
}

/// The pieces that are kept are not empty, and hold no space where none of
/// the pieces they were taken from does.
pub proof fn lemma_non_empty(pieces: Seq<Seq<char>>)
    requires
        forall|i: int| 0 <= i < pieces.len() ==> !(#[trigger] pieces[i]).contains(' '),
    ensures
        forall|i: int|
            0 <= i < non_empty(pieces).len() ==> (#[trigger] non_empty(pieces)[i]).len() > 0
                && !non_empty(pieces)[i].contains(' '),
    decreases pieces.len(),
{
    reveal(Seq::filter);
    if pieces.len() > 0 {
        let front = pieces.drop_last();
        assert forall|i: int| 0 <= i < front.len() implies !(#[trigger] front[i]).contains(
            ' ',
        ) by {
            assert(front[i] == pieces[i]);
        }
        lemma_non_empty(front);
        let kept = non_empty(pieces);
        assert(kept == if pieces.last().len() > 0 {
            non_empty(front).push(pieces.last())
        } else {
            non_empty(front)
        });
        assert forall|i: int| 0 <= i < kept.len() implies (#[trigger] kept[i]).len() > 0
            && !kept[i].contains(' ') by {
            if i < non_empty(front).len() {
                assert(kept[i] == non_empty(front)[i]);
            } else {
                assert(kept[i] == pieces[pieces.len() - 1]);
            }
        }
    }
}

/// A line without a space is a name and nothing else: the name is the
/// trimmed line, and there are no arguments.
pub proof fn lemma_name_alone(line: Seq<char>)
    requires
        !line.contains(' '),
    ensures
        parsed(line).name == trimmed(line),
        parsed(line).args == Seq::<Seq<char>>::empty(),
{
    let t = trimmed(line);
    let (from, to) = lemma_trimmed(line);
    assert forall|i: int| 0 <= i < t.len() implies t[i] != ' ' by {
        assert(t[i] == line[from + i]);
    }
    lemma_span_is(t, ' ', t.len() as int);
    assert(t.take(t.len() as int) =~= t);
}

/// No argument is empty and none holds a space, whatever the line: spaces
/// in a row count as one. The name holds no space either.
pub proof fn lemma_args_are_words(line: Seq<char>)
    ensures
        !parsed(line).name.contains(' '),
        forall|i: int|
            0 <= i < parsed(line).args.len() ==> (#[trigger] parsed(line).args[i]).len() > 0
                && !parsed(line).args[i].contains(' '),
{
    let t = trimmed(line);
    let n = span(t, ' ') as int;
    lemma_span_first(t, ' ');
    if n < t.len() {
        lemma_fields_free(t.skip(n + 1), ' ');
        lemma_non_empty(fields(t.skip(n + 1), ' '));
    }
}

/// The name is empty for a blank line, one of white space only, and for no
/// other. The command of a blank line has no arguments and is no builtin.
pub proof fn lemma_blank_line(line: Seq<char>)
    ensures
        parsed(line).name.len() == 0 <==> forall|i: int|
            0 <= i < line.len() ==> is_whitespace(line[i]),
        parsed(line).name.len() == 0 ==> parsed(line).args.len() == 0 && parsed(line).builtin
            is None,
{
    let t = trimmed(line);
    let (from, to) = lemma_trimmed(line);
    lemma_span_first(t, ' ');
    if t.len() > 0 {
        assert(t.first() == line[from]);
        assert(!is_whitespace(t.first()));
        assert(t.first() != ' ');
    }
    reveal_strlit("echo");
    reveal_strlit("exit");
    reveal_strlit("type");
    reveal_strlit("pwd");
    reveal_strlit("cd");
}

/// Every command comes to an end: with enough replies, nothing further is
/// asked of the driver.
pub proof fn lemma_command_ends(command: CommandView, replies: Seq<ReplyView>)
    requires
        enough(replies),
    ensures
        is_last(command_step(command, replies)),
{
    match command.builtin {
        Some(kind) => {
            lemma_builtin_ends(kind, command.args, replies);
        },
        None => {
            if let ReplyView::Var(value) = replies.first() {
                lemma_lookup_ends(search_path(value), command.name, replies.drop_first());
            }
        },
    }
}

/// A program that no directory of the search path holds is reported as not
/// found: once the value of `PATH` is known and every directory that it
/// lists was probed in vain, the command is over, and nothing was run.
pub proof fn lemma_command_not_found(
    name: Seq<char>,
    args: Seq<Seq<char>>,
    value: Option<Seq<char>>,
    replies: Seq<ReplyView>,
)
    requires
        replies.len() == 1 + search_path(value).len(),
        replies.first() == ReplyView::Var(value),
        forall|i: int| 1 <= i < replies.len() ==> replies[i] == ReplyView::Exists(false),
    ensures
        external_step(name, args, replies) == says(name + ": command not found\n"@),
{
    let probes = replies.drop_first();
    assert forall|i: int| 0 <= i < probes.len() implies probes[i] == ReplyView::Exists(
        false,
    ) by {
        assert(probes[i] == replies[i + 1]);
    }
    lemma_misses_from(probes, probes.len() as int);
}

/// The pieces that are not empty, in order.
pub fn keep_non_empty(pieces: &Vec<String>) -> (out: Vec<String>)
    ensures
        out.deep_view() == non_empty(pieces.deep_view()),
{
    let mut out: Vec<String> = Vec::new();
    let n: usize = pieces.len();
    let mut i: usize = 0;
    proof {
        reveal(Seq::filter);
        assert(pieces.deep_view().take(0) =~= Seq::<Seq<char>>::empty());
        assert(out.deep_view() =~= Seq::<Seq<char>>::empty());
    }
    while i < n
        invariant
            n == pieces.len(),
            i <= n,
            out.deep_view() == non_empty(pieces.deep_view().take(i as int)),
        decreases n - i,
    {
        let ghost before = out.deep_view();
        proof {
            reveal(Seq::filter);
            let now = pieces.deep_view().take(i as int + 1);
            assert(now.drop_last() =~= pieces.deep_view().take(i as int));
            assert(now.last() == pieces[i as int]@);
        }
        if !pieces[i].as_str().is_empty() {
            out.push(pieces[i].clone());
            assert(out.deep_view() =~= before.push(pieces[i as int]@));
        }
        i += 1;
    }
    assert(pieces.deep_view().take(n as int) =~= pieces.deep_view());
    out
}

impl View for Command {
    type V = CommandView;

    closed spec fn view(&self) -> CommandView {
        CommandView { name: self.name@, args: self.args.deep_view(), builtin: self.builtin }
    }
}

impl Command {
    /// Every command names the builtin that its name stands for, and no
    /// other.
    #[verifier::type_invariant]
    spec fn well_formed(self) -> bool {
        self.builtin == builtin_of(self.name@)
    }

    /// Parses one line of input. Nothing is rejected: a blank line gives the
    /// command with the empty name and no arguments. A line without a space
    /// is a name alone, and no argument is ever empty.
    pub fn new(input: String) -> (command: Command)
        ensures
            command@ == parsed(input@),
            command@.builtin == builtin_of(command@.name),
            !input@.contains(' ') ==> command@.name == trimmed(input@) && command@.args.len() == 0,
            forall|i: int| 0 <= i < command@.args.len() ==> (#[trigger] command@.args[i]).len() > 0,
    {
        proof {
            lemma_args_are_words(input@);
            if !input@.contains(' ') {
                lemma_name_alone(input@);
            }
        }
        let line = trim(input.as_str());
        let chars = to_chars(line.as_str());
        let len: usize = chars.len();
        let mut n: usize = 0;
        while n < len && chars[n] != ' '
            invariant
                chars@ == line@,
                len == chars.len(),
                n <= len,
                forall|k: int| 0 <= k < n ==> line@[k] != ' ',
            decreases len - n,
        {
            n += 1;
        }
        proof {
            lemma_span_is(line@, ' ', n as int);
        }
        if n == len {
            assert(line@.take(n as int) =~= line@);
            let builtin = is_builtin(line.as_str());
            let args: Vec<String> = Vec::new();
            assert(args.deep_view() =~= Seq::<Seq<char>>::empty());
            Command { name: line, args, builtin }
        } else {
            let name = cut(line.as_str(), 0, n);
            let rest = cut(line.as_str(), n + 1, len);
            assert(line@.subrange(0, n as int) =~= line@.take(n as int));
            assert(line@.subrange(n as int + 1, len as int) =~= line@.skip(n as int + 1));
            let args = keep_non_empty(&split(rest.as_str(), ' '));
            let builtin = is_builtin(name.as_str());
            Command { name, args, builtin }
        }
    }

    /// The step that executing this command comes to, given the replies to
    /// the requests made for it so far, in order.
    pub fn exec(&self, replies: &[Reply]) -> (step: Step)
        ensures
            step@ == command_step(self@, replies.deep_view()),
    {
        if let Some(builtin) = self.builtin {
            builtin.exec(self.args.clone(), replies)
        } else if self.name.as_str().is_empty() {
            Step::Done(Ok(Vec::new()))
        } else {
            match resolve(self.name.as_str(), replies) {
                Lookup::Ask(request) => Step::Ask(request),
                Lookup::Found(entry, index) => {
                    if replies.len() <= index + 2 {
                        Step::Ask(Request::Spawn(entry, self.args.clone()))
                    } else {
                        match &replies[index + 2] {
                            Reply::Output(bytes) => Step::Done(Ok(bytes.clone())),
                            other => Step::Done(Err(refuse(other))),
                        }
                    }
                },
                Lookup::Missing => {
                    let mut text = self.name.clone();
                    text.append(": command not found\n");
                    say(&text)
                },
                Lookup::Failed(error) => Step::Done(Err(error)),
            }
        }
    }

    /// The line that tells the operator that this command failed with
    /// `error`.
    pub fn report(&self, error: &ShellError) -> (line: String)
        ensures
            line@ == diagnostic(self@, error@),
    {
        let mut parts: Vec<String> = Vec::new();
        parts.push(self.name.clone());
        let n: usize = self.args.len();
        let mut i: usize = 0;
        assert(parts.deep_view() =~= seq![self.name@] + self.args.deep_view().take(0));
        while i < n
            invariant
                n == self.args.len(),
                i <= n,
                parts.deep_view() == seq![self.name@] + self.args.deep_view().take(i as int),
            decreases n - i,
        {
            let ghost before = parts.deep_view();
            parts.push(self.args[i].clone());
            assert(parts.deep_view() =~= before.push(self.args[i as int]@));
            assert(parts.deep_view() =~= seq![self.name@] + self.args.deep_view().take(
                i as int + 1,
            ));
            i += 1;
        }
        assert(self.args.deep_view().take(n as int) =~= self.args.deep_view());
        let mut line = join(&parts, " ");
        line.append(": ");
        line.append(error.describe().as_str());
        line.append("\n");
        line
    }

    /// The command's name.
    pub fn name(&self) -> (name: &String)
        ensures
            name@ == self@.name,
    {
        &self.name
    }

    /// The command's arguments.
    pub fn args(&self) -> (args: &Vec<String>)
        ensures
            args.deep_view() == self@.args,
    {
        &self.args
    }

    /// The builtin that the command's name stands for, if any.
    pub fn builtin(&self) -> (builtin: Option<Builtin>)
        ensures
            builtin == self@.builtin,
            builtin == builtin_of(self@.name),
    {
        proof {
            use_type_invariant(self);
        }
        self.builtin
    }
}

} // verus!
