//! The search path: the directories in which a command's name is looked up,
//! and the search itself, one probe at a time.

use vstd::prelude::*;
use vstd::string::*;
use vstd::slice::slice_subrange;
use crate::host::{
    refusal, refuse, Reply, ReplyView, Request, RequestView, ShellError, ShellErrorView,
};
use crate::text::{fields, split, to_chars};

verus! {

/// The directories that the value of the search-path variable lists, in
/// order: its pieces between colons. A variable that is not set, or is set
/// to nothing, lists none.
pub open spec fn search_path(value: Option<Seq<char>>) -> Seq<Seq<char>> {
    match value {
        Some(list) if list.len() > 0 => fields(list, ':'),
        _ => Seq::empty(),
    }
}

/// The path of the entry `name` in the directory `dir`. A name that starts
/// at the root stands for itself. Otherwise the name follows the directory,
/// after a `/` unless the directory is empty or ends in one.
pub open spec fn adjoined(dir: Seq<char>, name: Seq<char>) -> Seq<char> {
    if name.len() > 0 && name.first() == '/' {
        name
    } else if dir.len() == 0 || dir.last() == '/' {
        dir + name
    } else {
        dir + seq!['/'] + name
    }
}

/// How many replies, from the first on, say that a path does not exist.
pub open spec fn misses(replies: Seq<ReplyView>) -> nat
    decreases replies.len(),
{
    if replies.len() > 0 && replies.first() == ReplyView::Exists(false) {
        1 + misses(replies.drop_first())
    } else {
        0
    }
}

/// Where a search stands.
#[derive(Debug, Clone, PartialEq, Eq)]
pub enum Lookup {
    /// The driver is to do this and add its reply to the replies.
    Ask(Request),
    /// The name was found at this path, in the directory of this index.
    Found(String, usize),
    /// No directory of the search path holds the name.
    Missing,
    /// The search was given up for this reason.
    Failed(ShellError),
}

/// The mathematical value of a [`Lookup`].
pub enum LookupView {
    Ask(RequestView),
    Found(Seq<char>, nat),
    Missing,
    Failed(ShellErrorView),
}

impl View for Lookup {
    type V = LookupView;

    open spec fn view(&self) -> LookupView {
        match self {
            Lookup::Ask(request) => LookupView::Ask(request@),
            Lookup::Found(path, index) => LookupView::Found(path@, *index as nat),
            Lookup::Missing => LookupView::Missing,
            Lookup::Failed(error) => LookupView::Failed(error@),
        }
    }
}

/// Where the search for `name` in the directories `path` stands, given the
/// replies to the probes made so far, one for each directory from the first
/// on. The directories reported not to hold the name are passed over. If
/// that was all of them, the name is missing. Else the next directory
/// decides: with no reply for it yet, it is to be probed; reported to hold
/// the name, it is where the name was found. (A reply at that place that
/// speaks of existence says yes: one that says no would have been passed
/// over.)
pub open spec fn lookup(path: Seq<Seq<char>>, name: Seq<char>, replies: Seq<ReplyView>)
    -> LookupView {
    let next = misses(replies);
    if next >= path.len() {
        LookupView::Missing
    } else if next >= replies.len() {
        LookupView::Ask(RequestView::Probe(adjoined(path[next as int], name)))
    } else {
        match replies[next as int] {
            ReplyView::Exists(_) => LookupView::Found(adjoined(path[next as int], name), next),
            other => LookupView::Failed(refusal(other)),
        }
    }
}

/// Where the search for `name` stands, given the replies so far. The first
/// reply is the value of `PATH`, which is asked for before anything else;
/// the replies after it answer the probes.
pub open spec fn resolved(name: Seq<char>, replies: Seq<ReplyView>) -> LookupView {
    if replies.len() == 0 {
        LookupView::Ask(RequestView::Var("PATH"@))
    } else {
        match replies.first() {
            ReplyView::Var(value) => lookup(search_path(value), name, replies.drop_first()),
            other => LookupView::Failed(refusal(other)),
        }
    }
}

/// As many replies as there are misses all say that the path does not
/// exist, and the reply after them, if there is one, says something else.
pub proof fn lemma_misses(replies: Seq<ReplyView>)
    ensures
        misses(replies) <= replies.len(),
        forall|i: int| 0 <= i < misses(replies) ==> replies[i] == ReplyView::Exists(false),
        misses(replies) < replies.len() ==> replies[misses(replies) as int] != ReplyView::Exists(
            false,
        ),
    decreases replies.len(),
{
    if replies.len() > 0 && replies.first() == ReplyView::Exists(false) {
        let rest = replies.drop_first();
        lemma_misses(rest);
        assert forall|i: int| 0 <= i < misses(replies) implies replies[i] == ReplyView::Exists(
            false,
        ) by {
            if i > 0 {
                assert(replies[i] == rest[i - 1]);
            }
        }
    }
}

/// Replies that say "does not exist" up to position `n` are at least `n`
/// misses, and exactly `n` where the replies end there or go on otherwise.
pub proof fn lemma_misses_from(replies: Seq<ReplyView>, n: int)
    requires
        0 <= n <= replies.len(),
        forall|i: int| 0 <= i < n ==> replies[i] == ReplyView::Exists(false),
    ensures
        misses(replies) >= n,
        n == replies.len() || replies[n] != ReplyView::Exists(false) ==> misses(replies) == n,
    decreases replies.len(),
{
    if n > 0 {
        let rest = replies.drop_first();
        assert forall|i: int| 0 <= i < n - 1 implies rest[i] == ReplyView::Exists(false) by {
            assert(rest[i] == replies[i + 1]);
        }
        lemma_misses_from(rest, n - 1);
    }
}

/// Whether the replies tell the truth about the file system in which
/// exactly the paths in `present` exist: the reply to the probe of each
/// directory says whether the name's path in it is in `present`.
pub open spec fn truthful(
    path: Seq<Seq<char>>,
    name: Seq<char>,
    replies: Seq<ReplyView>,
    present: Set<Seq<char>>,
) -> bool {
    forall|i: int|
        0 <= i < replies.len() && i < path.len() ==> #[trigger] replies[i] == ReplyView::Exists(
            present.contains(adjoined(path[i], name)),
        )
}

/// The first match wins. In a file system in which exactly the paths in
/// `present` exist, and with truthful replies, a name that is found is found
/// at a path that exists, in a directory such that no directory before it
/// holds the name. A name is missing only if no directory holds it. And the
/// directories are probed one by one in the order of the search path: the one
/// probed next is the first without a reply, and none before it holds the
/// name. With truthful replies the search is never given up.
pub proof fn lemma_first_match(
    path: Seq<Seq<char>>,
    name: Seq<char>,
    replies: Seq<ReplyView>,
    present: Set<Seq<char>>,
)
    requires
        truthful(path, name, replies, present),
    ensures
        match lookup(path, name, replies) {
            LookupView::Found(entry, index) => {
                &&& index < path.len()
                &&& entry == adjoined(path[index as int], name)
                &&& present.contains(entry)
                &&& forall|i: int| 0 <= i < index ==> !present.contains(adjoined(path[i], name))
            },
            LookupView::Missing => forall|i: int|
                0 <= i < path.len() ==> !present.contains(adjoined(path[i], name)),
            LookupView::Ask(request) => {
                &&& replies.len() < path.len()
                &&& request == RequestView::Probe(adjoined(path[replies.len() as int], name))
                &&& forall|i: int|
                    0 <= i < replies.len() ==> !present.contains(adjoined(path[i], name))
            },
            LookupView::Failed(_) => false,
        },
{
    lemma_misses(replies);
    let next = misses(replies) as int;
    assert forall|i: int| 0 <= i < next && i < path.len() implies !present.contains(
        adjoined(path[i], name),
    ) by {
        assert(replies[i] == ReplyView::Exists(false));
    }
    if next < path.len() && next < replies.len() {
        assert(replies[next] == ReplyView::Exists(present.contains(adjoined(path[next], name))));
    }
}

/// A search comes to an end: once there is a reply for every directory and
/// one more, nothing further is asked.
pub proof fn lemma_lookup_ends(path: Seq<Seq<char>>, name: Seq<char>, replies: Seq<ReplyView>)
    requires
        replies.len() > path.len(),
    ensures
        !(lookup(path, name, replies) is Ask),
        lookup(path, name, replies) matches LookupView::Found(_, index) ==> index < path.len(),
{
    lemma_misses(replies);
}

/// The directories that the value of the search-path variable lists.
pub fn load_path(value: Option<String>) -> (path: Vec<String>)
    ensures
        path.deep_view() == search_path(value.deep_view()),
{
    match value {
        Some(list) => {
            if list.as_str().is_empty() {
                let path: Vec<String> = Vec::new();
                assert(path.deep_view() =~= Seq::<Seq<char>>::empty());
                path
            } else {
                split(list.as_str(), ':')
            }
        },
        None => {
            let path: Vec<String> = Vec::new();
            assert(path.deep_view() =~= Seq::<Seq<char>>::empty());
            path
        },
    }
}

/// The path of the entry `name` in the directory `dir`.
pub fn adjoin(dir: &str, name: &str) -> (path: String)
    ensures
        path@ == adjoined(dir@, name@),
{
    let d = to_chars(dir);
    let n = to_chars(name);
    if n.len() > 0 && n[0] == '/' {
        return String::from_str(name);
    }
    let mut path = String::from_str(dir);
    if d.len() > 0 && d[d.len() - 1] != '/' {
        proof {
            reveal_strlit("/");
            assert("/"@ =~= seq!['/']);
        }
        path.append("/");
    }
    path.append(name);
    path
}

/// Whether `reply` says that a path does not exist.
pub fn is_miss(reply: &Reply) -> (miss: bool)
    ensures
        miss == (reply@ == ReplyView::Exists(false)),
{
    match reply {
        Reply::Exists(found) => !*found,
        _ => false,
    }
}

/// Where the search for `name` in the directories `path` stands, given the
/// replies to the probes made so far. The first match wins: the name is
/// found in the first directory whose probe was answered with yes.
pub fn parse_path(path: Vec<String>, name: &str, replies: &[Reply]) -> (found: Lookup)
    ensures
        found@ == lookup(path.deep_view(), name@, replies.deep_view()),
        found matches Lookup::Found(entry, index) ==> {
            &&& index < path.len()
            &&& index < replies.len()
            &&& entry@ == adjoined(path[index as int]@, name@)
            &&& replies[index as int]@ == ReplyView::Exists(true)
            &&& forall|i: int|
                0 <= i < index ==> (#[trigger] replies[i])@ == ReplyView::Exists(false)
        },
{
    let ghost r = replies.deep_view();
    let mut next: usize = 0;
    while next < path.len() && next < replies.len() && is_miss(&replies[next])
        invariant
            r == replies.deep_view(),
            next <= path.len(),
            next <= replies.len(),
            forall|i: int| 0 <= i < next ==> r[i] == ReplyView::Exists(false),
        decreases replies.len() - next,
    {
        next += 1;
    }
    proof {
        lemma_misses_from(r, next as int);
        lemma_misses(r);
        assert forall|i: int| 0 <= i < next implies (#[trigger] replies[i])@ == ReplyView::Exists(
            false,
        ) by {
            assert(r[i] == replies[i]@);
        }
        if next < replies.len() {
            assert(r[next as int] == replies[next as int]@);
        }
    }
    if next >= path.len() {
        Lookup::Missing
    } else if next >= replies.len() {
        Lookup::Ask(Request::Probe(adjoin(path[next].as_str(), name)))
    } else {
        match &replies[next] {
            Reply::Exists(_) => Lookup::Found(adjoin(path[next].as_str(), name), next),
            other => Lookup::Failed(refuse(other)),
        }
    }
}

/// Where the search for `name` stands, given the replies so far, the value
/// of `PATH` first.
pub fn resolve(name: &str, replies: &[Reply]) -> (found: Lookup)
    ensures
        found@ == resolved(name@, replies.deep_view()),
{
    if replies.len() == 0 {
        Lookup::Ask(Request::Var(String::from_str("PATH")))
    } else {
        match &replies[0] {
            Reply::Var(value) => {
                let rest = slice_subrange(replies, 1, replies.len());
                assert(rest.deep_view() =~= replies.deep_view().drop_first());
                parse_path(load_path(value.clone()), name, rest)
            },
            other => Lookup::Failed(refuse(other)),
        }
    }
}

} // verus!
