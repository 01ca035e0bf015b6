//! Redirection operators and the redirection they describe.

use vstd::prelude::*;
use crate::error::ShellError;
use crate::text::same_text;

verus! {

/// How a redirection opens its file.
#[derive(Clone, Copy, Debug, PartialEq, Eq, Structural)]
pub enum OutputMode {
    /// Create the file or add to its end.
    Append,
    /// Create the file or truncate it.
    Override,
}

/// Which stream a redirection sends to its file.
#[derive(Clone, Copy, Debug, PartialEq, Eq, Structural)]
pub enum Source {
    Stdout(OutputMode),
    Stderr(OutputMode),
}

/// A redirection of one output stream to a file.
#[derive(Debug)]
pub struct Redirection {
    pub source: Source,
    pub target: String,
}

/// The mathematical content of a `Redirection`.
pub struct RedirectionView {
    pub source: Source,
    pub target: Seq<char>,
}

impl View for Redirection {
    type V = RedirectionView;

    open spec fn view(&self) -> RedirectionView {
        RedirectionView { source: self.source, target: self.target@ }
    }
}

/// The stream and mode that a redirection operator stands for, if `s` is one.
pub open spec fn operator_source(s: Seq<char>) -> Option<Source> {
    if s == ">"@ || s == "1>"@ {
        Some(Source::Stdout(OutputMode::Override))
    } else if s == ">>"@ || s == "1>>"@ {
        Some(Source::Stdout(OutputMode::Append))
    } else if s == "2>"@ {
        Some(Source::Stderr(OutputMode::Override))
    } else if s == "2>>"@ {
        Some(Source::Stderr(OutputMode::Append))
    } else {
        None
    }
}

/// Whether `s` is one of the redirection operators.
pub open spec fn is_operator(s: Seq<char>) -> bool {
    operator_source(s) is Some
}

/// The redirection that the words `ws` describe: an operator, then the file.
/// Words after the file are not read.
pub open spec fn redirection_of(ws: Seq<Seq<char>>) -> Result<RedirectionView, ShellError> {
    if ws.len() == 0 || operator_source(ws[0]) is None {
        Err(ShellError::UnknownRedirection)
    } else if ws.len() < 2 {
        Err(ShellError::RedirectionTargetMissing)
    } else {
        Ok(RedirectionView { source: operator_source(ws[0])->Some_0, target: ws[1] })
    }
}

fn source_of_operator(arg: &str) -> (r: Option<Source>)
    ensures
        r == operator_source(arg@),
{
    if same_text(arg, ">") || same_text(arg, "1>") {
        Some(Source::Stdout(OutputMode::Override))
    } else if same_text(arg, ">>") || same_text(arg, "1>>") {
        Some(Source::Stdout(OutputMode::Append))
    } else if same_text(arg, "2>") {
        Some(Source::Stderr(OutputMode::Override))
    } else if same_text(arg, "2>>") {
        Some(Source::Stderr(OutputMode::Append))
    } else {
        None
    }
}

impl Redirection {
    /// Builds the redirection that `args` describe (see `redirection_of`).
    pub fn new(args: Vec<String>) -> (r: Result<Redirection, ShellError>)
        ensures
            match r {
                Ok(red) => redirection_of(args.deep_view()) == Ok::<RedirectionView, ShellError>(
                    red@,
                ),
                Err(e) => redirection_of(args.deep_view()) == Err::<RedirectionView, ShellError>(
                    e,
                ),
            },
    {
        let ghost ws = args.deep_view();
        if args.len() == 0 {
            return Err(ShellError::UnknownRedirection);
        }
        assert(ws[0] == args@[0]@);
        let source = match source_of_operator(args[0].as_str()) {
            Some(s) => s,
            None => {
                return Err(ShellError::UnknownRedirection);
            },
        };
        if args.len() < 2 {
            return Err(ShellError::RedirectionTargetMissing);
        }
        assert(ws[1] == args@[1]@);
        Ok(Redirection { source, target: args[1].clone() })
    }

    /// Whether `arg` is one of the redirection operators `>`, `1>`, `>>`,
    /// `1>>`, `2>` and `2>>`.
    pub fn is_redirection_arg(arg: &str) -> (r: bool)
        ensures
            r == is_operator(arg@),
    {
        source_of_operator(arg).is_some()
    }
}

} // verus!
