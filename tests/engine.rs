use shell_core::command::Command;
use shell_core::engine::{
    cd_output, console_text, expand_home, launch_output, located_output, working_dir_output,
    Action, CommandOutput, DirChange,
};
use shell_core::error::ShellError;
use shell_core::executable::{first_found, search_dirs, ExecutableOutput, PathFinder, Runner};
use shell_core::redirection::{OutputMode, Redirection, Source};
use shell_core::text::{join_with_space, parse_i32, same_text, trim_white_space};

fn out(s: &str) -> CommandOutput {
    CommandOutput { stdout: Some(s.to_string()), stderr: None }
}

fn action_of(line: &str) -> Action {
    Command::parse(line).unwrap().kind.action()
}

fn output_of(line: &str) -> CommandOutput {
    match action_of(line) {
        Action::Output(o) => o,
        other => panic!("unexpected {:?}", other),
    }
}

#[test]
fn echo_prints_words_and_newline() {
    let o = output_of("echo  hello   world");
    assert_eq!(o.stdout.as_deref(), Some("hello world\n"));
    assert_eq!(o.stderr, None);
}

#[test]
fn echo_round_trip_on_plain_input() {
    let line = "echo a bb ccc";
    let words = shell_core::tokenizer::parse_args(line);
    let expected = format!("{}\n", join_with_space(&words, 1));
    assert_eq!(output_of(line).stdout, Some(expected));
}

#[test]
fn redirected_echo_writes_text_to_file() {
    let c = Command::parse("echo hi > f.txt").unwrap();
    let o = match c.kind.action() {
        Action::Output(o) => o,
        other => panic!("unexpected {:?}", other),
    };
    let r = c.redirection.as_ref().unwrap();
    assert_eq!(r.source, Source::Stdout(OutputMode::Override));
    assert_eq!(r.file_contents(&o), "hi\n");
    assert_eq!(console_text(&o, &c.redirection), None);

    let c = Command::parse("echo hi >> f.txt").unwrap();
    assert_eq!(c.redirection.unwrap().source, Source::Stdout(OutputMode::Append));
}

#[test]
fn type_of_builtin() {
    assert_eq!(output_of("type echo").stdout.as_deref(), Some("echo is a shell builtin\n"));
}

#[test]
fn type_of_missing_program() {
    match action_of("type doesnotexist123") {
        Action::Locate { name } => {
            assert_eq!(name, "doesnotexist123");
            let o = located_output(&name, None);
            assert_eq!(o.stdout, None);
            assert_eq!(o.stderr.as_deref(), Some("doesnotexist123: not found\n"));
        }
        other => panic!("unexpected {:?}", other),
    }
}

#[test]
fn type_of_found_program() {
    let o = located_output("ls", Some("/bin/ls".to_string()));
    assert_eq!(o.stdout.as_deref(), Some("ls is /bin/ls\n"));
    assert_eq!(o.stderr, None);
}

#[test]
fn unlaunchable_program_reports_not_found() {
    match action_of("nosuchprog123 -x") {
        Action::Launch { name, args } => {
            assert_eq!(name, "nosuchprog123");
            assert_eq!(args, vec!["-x".to_string()]);
            let o = launch_output(&name, None);
            assert_eq!(o.stdout, None);
            assert_eq!(o.stderr.as_deref(), Some("nosuchprog123: command not found\n"));
        }
        other => panic!("unexpected {:?}", other),
    }
}

#[test]
fn launched_program_output_passes_through() {
    let captured = ExecutableOutput::from_captured("x\n".to_string(), String::new());
    assert_eq!(captured.stdout.as_deref(), Some("x\n"));
    assert_eq!(captured.stderr, None);
    let o = launch_output("p", Some(captured));
    assert_eq!(o.stdout.as_deref(), Some("x\n"));
    assert_eq!(o.stderr, None);

    let both = ExecutableOutput::from_captured("a".to_string(), "b".to_string());
    let o = launch_output("p", Some(both));
    assert_eq!(o.stdout.as_deref(), Some("a"));
    assert_eq!(o.stderr.as_deref(), Some("b"));
}

#[test]
fn exit_pwd_cd_need_the_outside() {
    assert!(matches!(action_of("exit 4"), Action::Exit { code: 4 }));
    assert!(matches!(action_of("pwd"), Action::ReportWorkingDir));
    match action_of("cd ~/x") {
        Action::ChangeDir { path } => assert_eq!(path, "~/x"),
        other => panic!("unexpected {:?}", other),
    }
}

#[test]
fn pwd_output_ends_with_newline() {
    assert_eq!(working_dir_output("/home/u").stdout.as_deref(), Some("/home/u\n"));
}

#[test]
fn home_expansion_only_at_start() {
    assert_eq!(expand_home("~/src", "/home/u"), "/home/u/src");
    assert_eq!(expand_home("~", "/home/u"), "/home/u");
    assert_eq!(expand_home("a/~/b", "/home/u"), "a/~/b");
    assert_eq!(expand_home("", "/home/u"), "");
}

#[test]
fn cd_outcomes() {
    let ok = cd_output("/tmp", DirChange::Changed).unwrap();
    assert_eq!((ok.stdout, ok.stderr), (None, None));
    let missing = cd_output("/nope", DirChange::NotFound).unwrap();
    assert_eq!(missing.stdout, None);
    assert_eq!(missing.stderr.as_deref(), Some("cd: /nope: No such file or directory\n"));
    assert_eq!(cd_output("/root", DirChange::Failed).unwrap_err(), ShellError::DirectoryChangeFailed);
}

#[test]
fn console_prefers_stderr_without_redirection() {
    let both = CommandOutput { stdout: Some("o".to_string()), stderr: Some("e".to_string()) };
    assert_eq!(console_text(&both, &None).as_deref(), Some("e"));
    assert_eq!(console_text(&out("o"), &None).as_deref(), Some("o"));
    let none = CommandOutput { stdout: None, stderr: None };
    assert_eq!(console_text(&none, &None), None);
}

#[test]
fn redirection_splits_streams() {
    let both = CommandOutput { stdout: Some("o".to_string()), stderr: Some("e".to_string()) };
    let to_out = Some(Redirection { source: Source::Stdout(OutputMode::Append), target: "f".to_string() });
    let to_err = Some(Redirection { source: Source::Stderr(OutputMode::Override), target: "f".to_string() });
    assert_eq!(to_out.as_ref().unwrap().file_contents(&both), "o");
    assert_eq!(console_text(&both, &to_out).as_deref(), Some("e"));
    assert_eq!(to_err.as_ref().unwrap().file_contents(&both), "e");
    assert_eq!(console_text(&both, &to_err).as_deref(), Some("o"));
    assert_eq!(to_err.as_ref().unwrap().file_contents(&out("o")), "");
}

#[test]
fn search_path_pieces() {
    let v = |ws: &[&str]| ws.iter().map(|w| w.to_string()).collect::<Vec<_>>();
    assert_eq!(search_dirs("/usr/bin:/bin"), v(&["/usr/bin", "/bin"]));
    assert_eq!(search_dirs(""), v(&[""]));
    assert_eq!(search_dirs("a::b:"), v(&["a", "", "b", ""]));
}

#[test]
fn first_existing_directory_wins() {
    assert_eq!(first_found(&vec![false, true, true]), Some(1));
    assert_eq!(first_found(&vec![true]), Some(0));
    assert_eq!(first_found(&vec![false, false]), None);
    assert_eq!(first_found(&vec![]), None);
}

#[test]
fn text_helpers() {
    assert!(same_text("abc", "abc"));
    assert!(!same_text("abc", "abd"));
    assert!(!same_text("ab", "abc"));
    assert_eq!(trim_white_space("  a b\t\n"), "a b");
    assert_eq!(trim_white_space(" \u{a0} "), "");
    assert_eq!(parse_i32("-15"), Some(-15));
    assert_eq!(parse_i32("1 "), None);
    assert_eq!(parse_i32("+"), None);
    assert_eq!(join_with_space(&vec!["x".to_string(), "y".to_string(), "z".to_string()], 0), "x y z");
}

#[test]
fn unit_collaborators_construct() {
    let _finder = PathFinder::new();
    let _runner = Runner::new();
}
