use shell::builtin::{
    change_directory, echo, enter, exit, expand, is_builtin, print_working_directory, proc_type,
    Builtin,
};
use shell::text::same;
use shell::host::{Reply, Request, ShellError, Step};

fn strings(items: &[&str]) -> Vec<String> {
    items.iter().map(|s| s.to_string()).collect()
}

fn says(text: &str) -> Step {
    Step::Done(Ok(text.as_bytes().to_vec()))
}

fn path(value: &str) -> Reply {
    Reply::Var(Some(value.to_string()))
}

#[test]
fn same_compares_by_characters() {
    assert!(same("echo", "echo"));
    assert!(same("", ""));
    assert!(!same("echo", "echO"));
    assert!(!same("echo", "ech"));
    assert!(!same("ech", "echo"));
}

#[test]
fn is_builtin_knows_the_five() {
    assert_eq!(is_builtin("echo"), Some(Builtin::Echo));
    assert_eq!(is_builtin("exit"), Some(Builtin::Exit));
    assert_eq!(is_builtin("type"), Some(Builtin::Type));
    assert_eq!(is_builtin("pwd"), Some(Builtin::Pwd));
    assert_eq!(is_builtin("cd"), Some(Builtin::Cd));
}

#[test]
fn is_builtin_matches_exactly() {
    assert_eq!(is_builtin(""), None);
    assert_eq!(is_builtin("Echo"), None);
    assert_eq!(is_builtin("ECHO"), None);
    assert_eq!(is_builtin("echo "), None);
    assert_eq!(is_builtin("ech"), None);
    assert_eq!(is_builtin("echoo"), None);
    assert_eq!(is_builtin("ls"), None);
    assert_eq!(is_builtin("chdir"), None);
}

#[test]
fn echo_joins_with_one_space() {
    assert_eq!(echo(strings(&["a", "b"])), Ok(b"a b\n".to_vec()));
    assert_eq!(echo(strings(&["hello"])), Ok(b"hello\n".to_vec()));
}

#[test]
fn echo_of_nothing_is_a_newline() {
    assert_eq!(echo(Vec::new()), Ok(b"\n".to_vec()));
}

#[test]
fn echo_writes_utf8() {
    assert_eq!(echo(strings(&["é", "日本"])), Ok("é 日本\n".as_bytes().to_vec()));
}

#[test]
fn exit_without_argument_is_status_zero() {
    assert_eq!(exit(Vec::new()), Step::Ask(Request::Exit(0)));
}

#[test]
fn exit_with_status() {
    assert_eq!(exit(strings(&["3"])), Step::Ask(Request::Exit(3)));
    assert_eq!(exit(strings(&["-1"])), Step::Ask(Request::Exit(-1)));
    assert_eq!(exit(strings(&["3", "ignored"])), Step::Ask(Request::Exit(3)));
}

#[test]
fn exit_with_what_is_no_integer_fails() {
    assert_eq!(exit(strings(&["abc"])), Step::Done(Err(ShellError::InvalidStatus)));
    assert_eq!(exit(strings(&[""])), Step::Done(Err(ShellError::InvalidStatus)));
    assert_eq!(exit(strings(&["2147483648"])), Step::Done(Err(ShellError::InvalidStatus)));
}

#[test]
fn type_of_a_builtin() {
    assert_eq!(proc_type(strings(&["echo"]), &[]), says("echo is a shell builtin\n"));
    assert_eq!(proc_type(strings(&["cd"]), &[]), says("cd is a shell builtin\n"));
    assert_eq!(proc_type(strings(&["type"]), &[]), says("type is a shell builtin\n"));
}

#[test]
fn type_of_an_unknown_name() {
    let args = strings(&["nonexistent_cmd_xyz"]);
    assert_eq!(proc_type(args.clone(), &[]), Step::Ask(Request::Var("PATH".to_string())));
    assert_eq!(
        proc_type(args.clone(), &[path("/bin:/usr/bin")]),
        Step::Ask(Request::Probe("/bin/nonexistent_cmd_xyz".to_string()))
    );
    assert_eq!(
        proc_type(args.clone(), &[path("/bin:/usr/bin"), Reply::Exists(false)]),
        Step::Ask(Request::Probe("/usr/bin/nonexistent_cmd_xyz".to_string()))
    );
    assert_eq!(
        proc_type(args, &[path("/bin:/usr/bin"), Reply::Exists(false), Reply::Exists(false)]),
        says("nonexistent_cmd_xyz: not found\n")
    );
}

#[test]
fn type_without_search_path_is_not_found() {
    assert_eq!(proc_type(strings(&["ls"]), &[Reply::Var(None)]), says("ls: not found\n"));
}

#[test]
fn type_of_a_program_names_the_first_match() {
    let replies = [path("/a:/b:/c"), Reply::Exists(false), Reply::Exists(true)];
    assert_eq!(proc_type(strings(&["ls"]), &replies), says("ls is /b/ls\n"));
}

#[test]
fn type_without_operand_fails() {
    assert_eq!(proc_type(Vec::new(), &[]), Step::Done(Err(ShellError::MissingOperand)));
}

#[test]
fn type_passes_a_failure_on() {
    assert_eq!(
        proc_type(strings(&["ls"]), &[path("/a"), Reply::Failed("denied".to_string())]),
        Step::Done(Err(ShellError::Failed("denied".to_string())))
    );
}

#[test]
fn pwd_asks_then_prints() {
    assert_eq!(print_working_directory(&[]), Step::Ask(Request::CurrentDir));
    assert_eq!(
        print_working_directory(&[Reply::Dir("/home/user".to_string())]),
        says("/home/user\n")
    );
}

#[test]
fn pwd_fails_when_the_directory_cannot_be_reported() {
    assert_eq!(
        print_working_directory(&[Reply::Failed("No such file or directory".to_string())]),
        Step::Done(Err(ShellError::Failed("No such file or directory".to_string())))
    );
}

#[test]
fn pwd_refuses_a_reply_out_of_place() {
    assert_eq!(
        print_working_directory(&[Reply::Exists(true)]),
        Step::Done(Err(ShellError::Unexpected))
    );
}

#[test]
fn expand_replaces_leading_tildes() {
    assert_eq!(expand("~", "/home/u"), "/home/u");
    assert_eq!(expand("~/src", "/home/u"), "/home/u/src");
    assert_eq!(expand("~~", "/h"), "/h/h");
}

#[test]
fn expand_leaves_other_tildes() {
    assert_eq!(expand("/tmp", "/home/u"), "/tmp");
    assert_eq!(expand("a~b", "/home/u"), "a~b");
    assert_eq!(expand("~/a~", "/h"), "/h/a~");
    assert_eq!(expand("", "/h"), "");
}

#[test]
fn enter_probes_then_changes() {
    assert_eq!(enter("/tmp".to_string(), &[]), Step::Ask(Request::Probe("/tmp".to_string())));
    assert_eq!(
        enter("/tmp".to_string(), &[Reply::Exists(true)]),
        Step::Ask(Request::ChangeDir("/tmp".to_string()))
    );
    assert_eq!(
        enter("/tmp".to_string(), &[Reply::Exists(true), Reply::Changed]),
        Step::Done(Ok(Vec::new()))
    );
}

#[test]
fn cd_to_a_missing_directory_is_reported() {
    let args = strings(&["/nonexistent/path"]);
    assert_eq!(
        change_directory(args.clone(), &[]),
        Step::Ask(Request::Probe("/nonexistent/path".to_string()))
    );
    assert_eq!(
        change_directory(args, &[Reply::Exists(false)]),
        says("/nonexistent/path: No such file or directory\n")
    );
}

#[test]
fn cd_to_an_existing_directory() {
    let args = strings(&["/tmp"]);
    assert_eq!(
        change_directory(args.clone(), &[Reply::Exists(true)]),
        Step::Ask(Request::ChangeDir("/tmp".to_string()))
    );
    assert_eq!(
        change_directory(args, &[Reply::Exists(true), Reply::Changed]),
        Step::Done(Ok(Vec::new()))
    );
}

#[test]
fn cd_home() {
    let args = strings(&["~"]);
    let home = path("/home/user");
    assert_eq!(change_directory(args.clone(), &[]), Step::Ask(Request::Var("HOME".to_string())));
    assert_eq!(
        change_directory(args.clone(), &[home.clone()]),
        Step::Ask(Request::Probe("/home/user".to_string()))
    );
    assert_eq!(
        change_directory(args.clone(), &[home.clone(), Reply::Exists(true)]),
        Step::Ask(Request::ChangeDir("/home/user".to_string()))
    );
    assert_eq!(
        change_directory(args, &[home, Reply::Exists(true), Reply::Changed]),
        Step::Done(Ok(Vec::new()))
    );
}

#[test]
fn cd_below_home() {
    let replies = [path("/home/user"), Reply::Exists(false)];
    assert_eq!(
        change_directory(strings(&["~/nowhere"]), &replies),
        says("/home/user/nowhere: No such file or directory\n")
    );
}

#[test]
fn cd_with_tilde_and_no_home_fails() {
    assert_eq!(
        change_directory(strings(&["~"]), &[Reply::Var(None)]),
        Step::Done(Err(ShellError::HomeNotSet))
    );
}

#[test]
fn cd_without_tilde_does_not_ask_for_home() {
    assert_eq!(
        change_directory(strings(&["a~"]), &[]),
        Step::Ask(Request::Probe("a~".to_string()))
    );
}

#[test]
fn cd_without_operand_fails() {
    assert_eq!(change_directory(Vec::new(), &[]), Step::Done(Err(ShellError::MissingOperand)));
}

#[test]
fn cd_passes_a_failure_to_change_on() {
    let replies = [Reply::Exists(true), Reply::Failed("Permission denied".to_string())];
    assert_eq!(
        change_directory(strings(&["/root"]), &replies),
        Step::Done(Err(ShellError::Failed("Permission denied".to_string())))
    );
}

#[test]
fn cd_refuses_a_reply_out_of_place() {
    assert_eq!(
        change_directory(strings(&["/tmp"]), &[Reply::Changed]),
        Step::Done(Err(ShellError::Unexpected))
    );
    assert_eq!(
        change_directory(strings(&["~"]), &[Reply::Exists(true)]),
        Step::Done(Err(ShellError::Unexpected))
    );
}

#[test]
fn builtin_exec_dispatches() {
    assert_eq!(Builtin::Echo.exec(strings(&["a", "b"]), &[]), says("a b\n"));
    assert_eq!(Builtin::Exit.exec(strings(&["7"]), &[]), Step::Ask(Request::Exit(7)));
    assert_eq!(Builtin::Type.exec(strings(&["pwd"]), &[]), says("pwd is a shell builtin\n"));
    assert_eq!(Builtin::Pwd.exec(Vec::new(), &[]), Step::Ask(Request::CurrentDir));
    assert_eq!(
        Builtin::Cd.exec(strings(&["/"]), &[]),
        Step::Ask(Request::Probe("/".to_string()))
    );
}
