use shell::host::{Reply, Request, ShellError};
use shell::path::{adjoin, is_miss, load_path, parse_path, resolve, Lookup};
use std::path::Path;

fn strings(items: &[&str]) -> Vec<String> {
    items.iter().map(|s| s.to_string()).collect()
}

#[test]
fn load_path_splits_on_colons() {
    assert_eq!(load_path(Some("/bin:/usr/bin".to_string())), strings(&["/bin", "/usr/bin"]));
    assert_eq!(load_path(Some("/bin".to_string())), strings(&["/bin"]));
}

#[test]
fn load_path_keeps_empty_entries_between_colons() {
    assert_eq!(
        load_path(Some("/bin::/usr/bin:".to_string())),
        strings(&["/bin", "", "/usr/bin", ""])
    );
}

#[test]
fn load_path_of_unset_or_empty_is_empty() {
    assert_eq!(load_path(None), Vec::<String>::new());
    assert_eq!(load_path(Some(String::new())), Vec::<String>::new());
}

#[test]
fn adjoin_puts_a_slash_between() {
    assert_eq!(adjoin("/usr/bin", "ls"), "/usr/bin/ls");
    assert_eq!(adjoin("bin", "ls"), "bin/ls");
}

#[test]
fn adjoin_adds_no_second_slash() {
    assert_eq!(adjoin("/usr/bin/", "ls"), "/usr/bin/ls");
    assert_eq!(adjoin("/", "ls"), "/ls");
}

#[test]
fn adjoin_to_the_empty_directory_is_the_name() {
    assert_eq!(adjoin("", "ls"), "ls");
}

#[test]
fn adjoin_of_a_rooted_name_is_the_name() {
    assert_eq!(adjoin("/usr/bin", "/bin/ls"), "/bin/ls");
    assert_eq!(adjoin("", "/bin/ls"), "/bin/ls");
}

#[test]
fn adjoin_of_the_empty_name_ends_in_a_slash() {
    assert_eq!(adjoin("/usr/bin", ""), "/usr/bin/");
    assert_eq!(adjoin("/usr/bin/", ""), "/usr/bin/");
    assert_eq!(adjoin("", ""), "");
}

#[test]
fn adjoin_agrees_with_std() {
    let dirs = ["", "/", "/usr/bin", "/usr/bin/", "bin", "a//", ".", "é"];
    let names = ["", "ls", "/bin/ls", "a/b", "./x", "/", "ü", "~"];
    for dir in dirs {
        for name in names {
            let expected = Path::new(dir).join(name);
            assert_eq!(Some(adjoin(dir, name).as_str()), expected.to_str(), "{:?} {:?}", dir, name);
        }
    }
}

#[test]
fn is_miss_only_for_a_no() {
    assert!(is_miss(&Reply::Exists(false)));
    assert!(!is_miss(&Reply::Exists(true)));
    assert!(!is_miss(&Reply::Written));
    assert!(!is_miss(&Reply::Failed("no".to_string())));
}

#[test]
fn parse_path_probes_the_first_directory_first() {
    let found = parse_path(strings(&["/a", "/b"]), "x", &[]);
    assert_eq!(found, Lookup::Ask(Request::Probe("/a/x".to_string())));
}

#[test]
fn parse_path_probes_the_next_after_a_miss() {
    let found = parse_path(strings(&["/a", "/b"]), "x", &[Reply::Exists(false)]);
    assert_eq!(found, Lookup::Ask(Request::Probe("/b/x".to_string())));
}

#[test]
fn parse_path_first_match_wins() {
    let path = strings(&["/a", "/b", "/c"]);
    let found = parse_path(path.clone(), "x", &[Reply::Exists(false), Reply::Exists(true)]);
    assert_eq!(found, Lookup::Found("/b/x".to_string(), 1));
    let found = parse_path(path.clone(), "x", &[Reply::Exists(true)]);
    assert_eq!(found, Lookup::Found("/a/x".to_string(), 0));
    let found = parse_path(
        path,
        "x",
        &[Reply::Exists(false), Reply::Exists(true), Reply::Exists(true)],
    );
    assert_eq!(found, Lookup::Found("/b/x".to_string(), 1));
}

#[test]
fn parse_path_missing_after_all_misses() {
    let replies = [Reply::Exists(false), Reply::Exists(false)];
    let found = parse_path(strings(&["/a", "/b"]), "x", &replies);
    assert_eq!(found, Lookup::Missing);
}

#[test]
fn parse_path_of_empty_path_is_missing() {
    assert_eq!(parse_path(Vec::new(), "x", &[]), Lookup::Missing);
    assert_eq!(parse_path(Vec::new(), "x", &[Reply::Exists(true)]), Lookup::Missing);
}

#[test]
fn parse_path_passes_a_failure_on() {
    let found = parse_path(strings(&["/a"]), "x", &[Reply::Failed("denied".to_string())]);
    assert_eq!(found, Lookup::Failed(ShellError::Failed("denied".to_string())));
}

#[test]
fn parse_path_refuses_a_reply_out_of_place() {
    let found = parse_path(strings(&["/a", "/b"]), "x", &[Reply::Exists(false), Reply::Written]);
    assert_eq!(found, Lookup::Failed(ShellError::Unexpected));
}

#[test]
fn resolve_asks_for_the_path_first() {
    assert_eq!(resolve("ls", &[]), Lookup::Ask(Request::Var("PATH".to_string())));
}

#[test]
fn resolve_searches_the_directories_in_order() {
    let path = Reply::Var(Some("/bin:/usr/bin".to_string()));
    assert_eq!(
        resolve("ls", &[path.clone()]),
        Lookup::Ask(Request::Probe("/bin/ls".to_string()))
    );
    assert_eq!(
        resolve("ls", &[path.clone(), Reply::Exists(false)]),
        Lookup::Ask(Request::Probe("/usr/bin/ls".to_string()))
    );
    assert_eq!(
        resolve("ls", &[path.clone(), Reply::Exists(false), Reply::Exists(true)]),
        Lookup::Found("/usr/bin/ls".to_string(), 1)
    );
    assert_eq!(
        resolve("ls", &[path, Reply::Exists(false), Reply::Exists(false)]),
        Lookup::Missing
    );
}

#[test]
fn resolve_with_unset_or_empty_path_is_missing() {
    assert_eq!(resolve("ls", &[Reply::Var(None)]), Lookup::Missing);
    assert_eq!(resolve("ls", &[Reply::Var(Some(String::new()))]), Lookup::Missing);
}

#[test]
fn resolve_refuses_a_reply_that_is_no_variable() {
    assert_eq!(resolve("ls", &[Reply::Exists(true)]), Lookup::Failed(ShellError::Unexpected));
    assert_eq!(
        resolve("ls", &[Reply::Failed("boom".to_string())]),
        Lookup::Failed(ShellError::Failed("boom".to_string()))
    );
}
