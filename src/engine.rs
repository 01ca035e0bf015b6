//! The execution engine's decisions: what each command needs from the
//! outside world, the text it produces, and where that text goes.

use vstd::prelude::*;
use crate::command::{operator_position, parse_line, BuiltinCommand, CommandKind, CommandView, TypeCommand};
use crate::text::{joined, trimmed};
use crate::tokenizer::{lemma_tokenize_nonempty, tokenize};
use crate::error::ShellError;
use crate::executable::ExecutableOutput;
use crate::redirection::{Redirection, Source};

verus! {

/// What a command printed on each stream; `None` where it printed nothing.
#[derive(Debug)]
pub struct CommandOutput {
    pub stdout: Option<String>,
    pub stderr: Option<String>,
}

/// The text on each of the two output streams.
pub struct Streams {
    pub stdout: Option<Seq<char>>,
    pub stderr: Option<Seq<char>>,
}

impl View for CommandOutput {
    type V = Streams;

    open spec fn view(&self) -> Streams {
        Streams { stdout: self.stdout.deep_view(), stderr: self.stderr.deep_view() }
    }
}

/// `text` on standard output alone.
pub open spec fn on_stdout(text: Seq<char>) -> Streams {
    Streams { stdout: Some(text), stderr: None }
}

/// `text` on standard error alone.
pub open spec fn on_stderr(text: Seq<char>) -> Streams {
    Streams { stdout: None, stderr: Some(text) }
}

/// Nothing on either stream.
pub open spec fn silent() -> Streams {
    Streams { stdout: None, stderr: None }
}

/// What running a command needs next.
#[derive(Debug)]
pub enum Action {
    /// End the process with this status, with no output.
    Exit { code: i32 },
    /// The command is done; this is its output.
    Output(CommandOutput),
    /// Look the name up on the search path, then call `located_output`.
    Locate { name: String },
    /// Read the working directory, then call `working_dir_output`.
    ReportWorkingDir,
    /// Expand the path with `expand_home`, change to it, then call
    /// `cd_output`.
    ChangeDir { path: String },
    /// Launch the program, then call `launch_output`.
    Launch { name: String, args: Vec<String> },
}

/// The mathematical content of an `Action`.
pub enum ActionView {
    Exit(i32),
    Output(Streams),
    Locate(Seq<char>),
    ReportWorkingDir,
    ChangeDir(Seq<char>),
    Launch(Seq<char>, Seq<Seq<char>>),
}

impl View for Action {
    type V = ActionView;

    open spec fn view(&self) -> ActionView {
        match self {
            Action::Exit { code } => ActionView::Exit(*code),
            Action::Output(o) => ActionView::Output(o@),
            Action::Locate { name } => ActionView::Locate(name@),
            Action::ReportWorkingDir => ActionView::ReportWorkingDir,
            Action::ChangeDir { path } => ActionView::ChangeDir(path@),
            Action::Launch { name, args } => ActionView::Launch(name@, args.deep_view()),
        }
    }
}

/// The first step of running command `c`: `echo` and `type` on a builtin
/// name finish at once; the rest need the outside world.
pub open spec fn action_for(c: CommandView) -> ActionView {
    match c {
        CommandView::Exit(code) => ActionView::Exit(code),
        CommandView::Echo(text) => ActionView::Output(on_stdout(text + "\n"@)),
        CommandView::TypeBuiltin(name) => ActionView::Output(
            on_stdout(name + " is a shell builtin\n"@),
        ),
        CommandView::TypeSearch(name) => ActionView::Locate(name),
        CommandView::Pwd => ActionView::ReportWorkingDir,
        CommandView::Cd(path) => ActionView::ChangeDir(path),
        CommandView::External(name, args) => ActionView::Launch(name, args),
    }
}

/// `a` followed by `b`.
fn concat(a: &str, b: &str) -> (r: String)
    ensures
        r@ == a@ + b@,
{
    let mut r = a.to_owned();
    r.append(b);
    r
}

/// Copies each of `parts`.
fn copy_words(parts: &Vec<String>) -> (r: Vec<String>)
    ensures
        r.deep_view() == parts.deep_view(),
{
    let mut r: Vec<String> = Vec::new();
    let mut k: usize = 0;
    while k < parts.len()
        invariant
            k <= parts@.len(),
            r.deep_view() == parts.deep_view().subrange(0, k as int),
        decreases parts@.len() - k,
    {
        let ghost before = r.deep_view();
        let word = parts[k].clone();
        r.push(word);
        assert(r.deep_view() =~= before.push(word@));
        assert(r.deep_view() =~= parts.deep_view().subrange(0, k + 1));
        k = k + 1;
    }
    assert(parts.deep_view().subrange(0, k as int) =~= parts.deep_view());
    r
}

impl CommandKind {
    /// The first step of running this command (see `action_for`).
    pub fn action(&self) -> (r: Action)
        ensures
            r@ == action_for(self@),
    {
        match self {
            CommandKind::Builtin(BuiltinCommand::Exit { code }) => Action::Exit { code: *code },
            CommandKind::Builtin(BuiltinCommand::Echo { input }) => Action::Output(
                CommandOutput { stdout: Some(concat(input.as_str(), "\n")), stderr: None },
            ),
            CommandKind::Builtin(BuiltinCommand::Type(TypeCommand::WellKnown { cmd })) => {
                Action::Output(
                    CommandOutput {
                        stdout: Some(concat(cmd.as_str(), " is a shell builtin\n")),
                        stderr: None,
                    },
                )
            },
            CommandKind::Builtin(BuiltinCommand::Type(TypeCommand::Unknown { cmd })) => {
                Action::Locate { name: cmd.clone() }
            },
            CommandKind::Builtin(BuiltinCommand::Pwd) => Action::ReportWorkingDir,
            CommandKind::Builtin(BuiltinCommand::Cd { path }) => Action::ChangeDir {
                path: path.clone(),
            },
            CommandKind::Unknown { cmd, args } => Action::Launch {
                name: cmd.clone(),
                args: copy_words(args),
            },
        }
    }
}

/// The output of `type` on a name that is no builtin, given where the search
/// path has it, if anywhere.
pub fn located_output(name: &str, found: Option<String>) -> (r: CommandOutput)
    ensures
        r@ == match found.deep_view() {
            Some(path) => on_stdout(name@ + " is "@ + path + "\n"@),
            None => on_stderr(name@ + ": not found\n"@),
        },
{
    match found {
        Some(path) => {
            let mut text = concat(name, " is ");
            text.append(path.as_str());
            text.append("\n");
            CommandOutput { stdout: Some(text), stderr: None }
        },
        None => CommandOutput { stdout: None, stderr: Some(concat(name, ": not found\n")) },
    }
}

/// The output of `pwd` in directory `dir`.
pub fn working_dir_output(dir: &str) -> (r: CommandOutput)
    ensures
        r@ == on_stdout(dir@ + "\n"@),
{
    CommandOutput { stdout: Some(concat(dir, "\n")), stderr: None }
}

/// `path` with a leading `~` replaced by `home`.
pub open spec fn home_expanded(path: Seq<char>, home: Seq<char>) -> Seq<char> {
    if path.len() > 0 && path[0] == '~' {
        home + path.drop_first()
    } else {
        path
    }
}

/// Replaces a leading `~` of `path` by `home`.
pub fn expand_home(path: &str, home: &str) -> (r: String)
    ensures
        r@ == home_expanded(path@, home@),
{
    let n = path.unicode_len();
    if n > 0 && path.get_char(0) == '~' {
        let rest = path.substring_char(1, n);
        assert(rest@ =~= path@.drop_first());
        concat(home, rest)
    } else {
        path.to_owned()
    }
}

/// How an attempt to change the working directory ended.
#[derive(Clone, Copy, Debug, PartialEq, Eq, Structural)]
pub enum DirChange {
    Changed,
    NotFound,
    Failed,
}

/// The result of `cd` to `path` (already expanded), given how the change
/// ended: nothing on success, a message when the directory does not exist,
/// an error otherwise.
pub open spec fn cd_result(path: Seq<char>, outcome: DirChange) -> Result<Streams, ShellError> {
    match outcome {
        DirChange::Changed => Ok(silent()),
        DirChange::NotFound => Ok(on_stderr("cd: "@ + path + ": No such file or directory\n"@)),
        DirChange::Failed => Err(ShellError::DirectoryChangeFailed),
    }
}

/// The output of `cd` (see `cd_result`).
pub fn cd_output(path: &str, outcome: DirChange) -> (r: Result<CommandOutput, ShellError>)
    ensures
        match r {
            Ok(o) => cd_result(path@, outcome) == Ok::<Streams, ShellError>(o@),
            Err(e) => cd_result(path@, outcome) == Err::<Streams, ShellError>(e),
        },
{
    match outcome {
        DirChange::Changed => Ok(CommandOutput { stdout: None, stderr: None }),
        DirChange::NotFound => {
            let mut text = concat("cd: ", path);
            text.append(": No such file or directory\n");
            Ok(CommandOutput { stdout: None, stderr: Some(text) })
        },
        DirChange::Failed => Err(ShellError::DirectoryChangeFailed),
    }
}

/// The output of an external command `name`, given what it printed, or
/// `None` where it could not be launched at all: that is reported on
/// standard error and is not fatal.
pub fn launch_output(name: &str, launched: Option<ExecutableOutput>) -> (r: CommandOutput)
    ensures
        r@ == match launched {
            Some(o) => o@,
            None => on_stderr(name@ + ": command not found\n"@),
        },
{
    match launched {
        Some(o) => CommandOutput { stdout: o.stdout, stderr: o.stderr },
        None => CommandOutput { stdout: None, stderr: Some(concat(name, ": command not found\n")) },
    }
}

/// The text a redirection from `source` writes to its file: that stream's
/// text, or nothing.
pub open spec fn redirected_text(source: Source, o: Streams) -> Seq<char> {
    let s = match source {
        Source::Stdout(_) => o.stdout,
        Source::Stderr(_) => o.stderr,
    };
    match s {
        Some(t) => t,
        None => Seq::empty(),
    }
}

/// What reaches the console. Without a redirection standard error wins over
/// standard output; with one, the stream that is not redirected is shown.
pub open spec fn console_of(o: Streams, source: Option<Source>) -> Option<Seq<char>> {
    match source {
        None => if o.stderr is Some {
            o.stderr
        } else {
            o.stdout
        },
        Some(Source::Stdout(_)) => o.stderr,
        Some(Source::Stderr(_)) => o.stdout,
    }
}

fn copy_text(t: &Option<String>) -> (r: Option<String>)
    ensures
        r.deep_view() == t.deep_view(),
{
    match t {
        Some(s) => Some(s.clone()),
        None => None,
    }
}

impl Redirection {
    /// The text this redirection writes to its file.
    pub fn file_contents(&self, output: &CommandOutput) -> (r: String)
        ensures
            r@ == redirected_text(self.source, output@),
    {
        let chosen = match self.source {
            Source::Stdout(_) => &output.stdout,
            Source::Stderr(_) => &output.stderr,
        };
        match chosen {
            Some(t) => t.clone(),
            None => String::new(),
        }
    }
}

/// The text shown on the console for `output` under `redirection`.
pub fn console_text(output: &CommandOutput, redirection: &Option<Redirection>) -> (r: Option<
    String,
>)
    ensures
        r.deep_view() == console_of(
            output@,
            match redirection {
                Some(red) => Some(red.source),
                None => None,
            },
        ),
{
    match redirection {
        None => if output.stderr.is_some() {
            copy_text(&output.stderr)
        } else {
            copy_text(&output.stdout)
        },
        Some(red) => match red.source {
            Source::Stdout(_) => copy_text(&output.stderr),
            Source::Stderr(_) => copy_text(&output.stdout),
        },
    }
}

} // verus!

verus! {

/// On a line whose first word is `echo` and that holds no redirection
/// operator, the standard output of the command is its remaining words
/// joined with single spaces, followed by a newline.
pub proof fn lemma_echo_round_trip(s: Seq<char>)
    requires
        trimmed(tokenize(s)[0]) == "echo"@,
        operator_position(tokenize(s)) == tokenize(s).len(),
    ensures
        parse_line(s) is Ok,
        parse_line(s)->Ok_0.redirection is None,
        action_for(parse_line(s)->Ok_0.kind) == ActionView::Output(
            on_stdout(joined(tokenize(s).drop_first(), ' ') + "\n"@),
        ),
{
    lemma_tokenize_nonempty(s);
    reveal_strlit("exit");
    reveal_strlit("echo");
    assert("echo"@[1] != "exit"@[1]);
}

} // verus!
