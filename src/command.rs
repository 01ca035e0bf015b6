//! Command resolution: from the words of a line to a builtin or an external
//! command.

use vstd::prelude::*;
use crate::error::ShellError;
use crate::redirection::{is_operator, redirection_of, Redirection, RedirectionView};
use crate::tokenizer::{parse_args, tokenize};
use crate::text::{i32_of, joined, join_with_space, parse_i32, same_text, trim_white_space, trimmed};

verus! {

/// The names of the builtin commands.
pub open spec fn is_builtin_name(s: Seq<char>) -> bool {
    s == "exit"@ || s == "echo"@ || s == "type"@ || s == "pwd"@ || s == "cd"@
}

/// Whether `name` is the name of a builtin command.
pub fn is_builtin(name: &str) -> (r: bool)
    ensures
        r == is_builtin_name(name@),
{
    same_text(name, "exit") || same_text(name, "echo") || same_text(name, "type") || same_text(
        name,
        "pwd",
    ) || same_text(name, "cd")
}

/// What `type` is asked about.
#[derive(Debug)]
pub enum TypeCommand {
    /// A builtin name.
    WellKnown { cmd: String },
    /// Any other name, to be looked up on the search path.
    Unknown { cmd: String },
}

/// A command the shell runs itself.
#[derive(Debug)]
pub enum BuiltinCommand {
    Exit { code: i32 },
    Echo { input: String },
    Type(TypeCommand),
    Pwd,
    Cd { path: String },
}

/// A resolved command.
#[derive(Debug)]
pub enum CommandKind {
    Builtin(BuiltinCommand),
    /// A program to launch, with its arguments.
    Unknown { cmd: String, args: Vec<String> },
}

/// The mathematical content of a `CommandKind`.
pub enum CommandView {
    Exit(i32),
    Echo(Seq<char>),
    TypeBuiltin(Seq<char>),
    TypeSearch(Seq<char>),
    Pwd,
    Cd(Seq<char>),
    External(Seq<char>, Seq<Seq<char>>),
}

impl View for CommandKind {
    type V = CommandView;

    open spec fn view(&self) -> CommandView {
        match self {
            CommandKind::Builtin(BuiltinCommand::Exit { code }) => CommandView::Exit(*code),
            CommandKind::Builtin(BuiltinCommand::Echo { input }) => CommandView::Echo(input@),
            CommandKind::Builtin(BuiltinCommand::Type(TypeCommand::WellKnown { cmd })) => {
                CommandView::TypeBuiltin(cmd@)
            },
            CommandKind::Builtin(BuiltinCommand::Type(TypeCommand::Unknown { cmd })) => {
                CommandView::TypeSearch(cmd@)
            },
            CommandKind::Builtin(BuiltinCommand::Pwd) => CommandView::Pwd,
            CommandKind::Builtin(BuiltinCommand::Cd { path }) => CommandView::Cd(path@),
            CommandKind::Unknown { cmd, args } => CommandView::External(cmd@, args.deep_view()),
        }
    }
}

/// The command that the words `ws` name. The first word, trimmed of white
/// space, picks a builtin or else names an external command; `exit`, `type`
/// and `cd` take exactly one argument, `echo` joins all
/// of its arguments with single spaces.
pub open spec fn resolve(ws: Seq<Seq<char>>) -> Result<CommandView, ShellError> {
    if ws.len() == 0 {
        Err(ShellError::EmptyCommand)
    } else {
        let name = trimmed(ws[0]);
        let rest = ws.drop_first();
        if name == "exit"@ {
            if rest.len() != 1 {
                Err(ShellError::InvalidExitCode)
            } else {
                match i32_of(rest[0]) {
                    Some(code) => Ok(CommandView::Exit(code)),
                    None => Err(ShellError::InvalidExitCode),
                }
            }
        } else if name == "echo"@ {
            Ok(CommandView::Echo(joined(rest, ' ')))
        } else if name == "type"@ {
            if rest.len() != 1 {
                Err(ShellError::WrongArgumentCount)
            } else if is_builtin_name(rest[0]) {
                Ok(CommandView::TypeBuiltin(rest[0]))
            } else {
                Ok(CommandView::TypeSearch(rest[0]))
            }
        } else if name == "pwd"@ {
            Ok(CommandView::Pwd)
        } else if name == "cd"@ {
            if rest.len() != 1 {
                Err(ShellError::WrongArgumentCount)
            } else {
                Ok(CommandView::Cd(rest[0]))
            }
        } else {
            Ok(CommandView::External(name, rest))
        }
    }
}

/// Copies `parts[from..to]`.
fn words_between(parts: &Vec<String>, from: usize, to: usize) -> (r: Vec<String>)
    requires
        from <= to <= parts@.len(),
    ensures
        r.deep_view() == parts.deep_view().subrange(from as int, to as int),
{
    let mut r: Vec<String> = Vec::new();
    let mut k: usize = from;
    assert(r.deep_view() =~= parts.deep_view().subrange(from as int, from as int));
    while k < to
        invariant
            from <= k <= to,
            to <= parts@.len(),
            r.deep_view() == parts.deep_view().subrange(from as int, k as int),
        decreases to - k,
    {
        let ghost before = r.deep_view();
        let word = parts[k].clone();
        assert(word@ == parts.deep_view()[k as int]);
        r.push(word);
        assert(r.deep_view() =~= before.push(word@));
        assert(r.deep_view() =~= parts.deep_view().subrange(from as int, k + 1));
        k = k + 1;
    }
    r
}

impl CommandKind {
    /// Resolves the words of a command (see `resolve`).
    pub fn new(args: Vec<String>) -> (r: Result<CommandKind, ShellError>)
        ensures
            match r {
                Ok(k) => resolve(args.deep_view()) == Ok::<CommandView, ShellError>(k@),
                Err(e) => resolve(args.deep_view()) == Err::<CommandView, ShellError>(e),
            },
    {
        let ghost ws = args.deep_view();
        if args.len() == 0 {
            return Err(ShellError::EmptyCommand);
        }
        let name = trim_white_space(args[0].as_str());
        assert(ws[0] == args@[0]@);
        let ghost rest = ws.drop_first();
        assert(rest =~= ws.subrange(1, ws.len() as int));
        let one_arg = args.len() == 2;
        assert(one_arg ==> rest[0] == args@[1]@);
        if same_text(name.as_str(), "exit") {
            if !one_arg {
                return Err(ShellError::InvalidExitCode);
            }
            match parse_i32(args[1].as_str()) {
                Some(code) => Ok(CommandKind::Builtin(BuiltinCommand::Exit { code })),
                None => Err(ShellError::InvalidExitCode),
            }
        } else if same_text(name.as_str(), "echo") {
            let input = join_with_space(&args, 1);
            Ok(CommandKind::Builtin(BuiltinCommand::Echo { input }))
        } else if same_text(name.as_str(), "type") {
            if !one_arg {
                return Err(ShellError::WrongArgumentCount);
            }
            let cmd = args[1].clone();
            if is_builtin(args[1].as_str()) {
                Ok(CommandKind::Builtin(BuiltinCommand::Type(TypeCommand::WellKnown { cmd })))
            } else {
                Ok(CommandKind::Builtin(BuiltinCommand::Type(TypeCommand::Unknown { cmd })))
            }
        } else if same_text(name.as_str(), "pwd") {
            Ok(CommandKind::Builtin(BuiltinCommand::Pwd))
        } else if same_text(name.as_str(), "cd") {
            if !one_arg {
                return Err(ShellError::WrongArgumentCount);
            }
            let path = args[1].clone();
            Ok(CommandKind::Builtin(BuiltinCommand::Cd { path }))
        } else {
            let rest_args = words_between(&args, 1, args.len());
            Ok(CommandKind::Unknown { cmd: name, args: rest_args })
        }
    }
}

/// A command line: the command and, if the line holds one, its redirection.
#[derive(Debug)]
pub struct Command {
    pub kind: CommandKind,
    pub redirection: Option<Redirection>,
}

/// The mathematical content of a `Command`.
pub struct CommandLineView {
    pub kind: CommandView,
    pub redirection: Option<RedirectionView>,
}

impl View for Command {
    type V = CommandLineView;

    open spec fn view(&self) -> CommandLineView {
        CommandLineView {
            kind: self.kind@,
            redirection: match self.redirection {
                Some(r) => Some(r@),
                None => None,
            },
        }
    }
}

/// The position of the first redirection operator among `ws`, or `ws.len()`
/// if there is none.
pub open spec fn operator_position(ws: Seq<Seq<char>>) -> int
    decreases ws.len(),
{
    if ws.len() == 0 {
        0
    } else if is_operator(ws[0]) {
        0
    } else {
        1 + operator_position(ws.drop_first())
    }
}

proof fn lemma_operator_position(ws: Seq<Seq<char>>, i: int)
    requires
        0 <= i <= ws.len(),
        forall|j: int| 0 <= j < i ==> !is_operator(#[trigger] ws[j]),
        i == ws.len() || is_operator(ws[i]),
    ensures
        operator_position(ws) == i,
    decreases i,
{
    if i > 0 {
        let t = ws.drop_first();
        assert forall|j: int| 0 <= j < i - 1 implies !is_operator(#[trigger] t[j]) by {
            assert(t[j] == ws[j + 1]);
        }
        assert(!is_operator(ws[0]));
        lemma_operator_position(t, i - 1);
    }
}

/// What an input line means. The words before the first redirection operator
/// name the command; that operator and the word after it give the
/// redirection. A failure to resolve the command is reported before a
/// failure to build the redirection.
pub open spec fn parse_line(s: Seq<char>) -> Result<CommandLineView, ShellError> {
    let ws = tokenize(s);
    let i = operator_position(ws);
    if i < ws.len() {
        match resolve(ws.take(i)) {
            Err(e) => Err(e),
            Ok(k) => match redirection_of(ws.skip(i)) {
                Err(e) => Err(e),
                Ok(r) => Ok(CommandLineView { kind: k, redirection: Some(r) }),
            },
        }
    } else {
        match resolve(ws) {
            Err(e) => Err(e),
            Ok(k) => Ok(CommandLineView { kind: k, redirection: None }),
        }
    }
}

impl Command {
    /// Parses an input line (see `parse_line`).
    pub fn parse(input: &str) -> (r: Result<Command, ShellError>)
        ensures
            match r {
                Ok(c) => parse_line(input@) == Ok::<CommandLineView, ShellError>(c@),
                Err(e) => parse_line(input@) == Err::<CommandLineView, ShellError>(e),
            },
    {
        let words = parse_args(input);
        let ghost ws = words.deep_view();
        let mut i: usize = 0;
        while i < words.len() && !Redirection::is_redirection_arg(words[i].as_str())
            invariant
                ws == words.deep_view(),
                i <= words@.len(),
                forall|j: int| 0 <= j < i ==> !is_operator(#[trigger] ws[j]),
            decreases words@.len() - i,
        {
            assert(ws[i as int] == words@[i as int]@);
            i = i + 1;
        }
        proof {
            if i < words@.len() {
                assert(ws[i as int] == words@[i as int]@);
            }
            lemma_operator_position(ws, i as int);
        }
        if i < words.len() {
            let head = words_between(&words, 0, i);
            let tail = words_between(&words, i, words.len());
            assert(ws.subrange(0, i as int) =~= ws.take(i as int));
            assert(ws.subrange(i as int, ws.len() as int) =~= ws.skip(i as int));
            let kind = CommandKind::new(head)?;
            let redirection = Redirection::new(tail)?;
            Ok(Command { kind, redirection: Some(redirection) })
        } else {
            let kind = CommandKind::new(words)?;
            Ok(Command { kind, redirection: None })
        }
    }
}

impl std::str::FromStr for Command {
    type Err = ShellError;

    fn from_str(input: &str) -> (r: Result<Command, ShellError>)
        ensures
            match r {
                Ok(c) => parse_line(input@) == Ok::<CommandLineView, ShellError>(c@),
                Err(e) => parse_line(input@) == Err::<CommandLineView, ShellError>(e),
            },
    {
        Command::parse(input)
    }
}

} // verus!
