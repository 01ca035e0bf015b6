//! What the shell knows of external programs: the directories of the search
//! path and the output a launched program left.

use vstd::prelude::*;
use vstd::string::*;
use crate::engine::Streams;
use crate::text::joined;

verus! {

/// What a launched program printed; `None` for a stream it left empty.
#[derive(Debug)]
pub struct ExecutableOutput {
    pub stdout: Option<String>,
    pub stderr: Option<String>,
}

impl View for ExecutableOutput {
    type V = Streams;

    open spec fn view(&self) -> Streams {
        Streams { stdout: self.stdout.deep_view(), stderr: self.stderr.deep_view() }
    }
}

/// A captured stream, with empty text counting as no text.
pub open spec fn captured(t: Seq<char>) -> Option<Seq<char>> {
    if t.len() == 0 {
        None
    } else {
        Some(t)
    }
}

fn keep_if_printed(t: String) -> (r: Option<String>)
    ensures
        r.deep_view() == captured(t@),
{
    if t.as_str().is_empty() {
        None
    } else {
        Some(t)
    }
}

impl ExecutableOutput {
    /// The output of a program that printed `stdout` and `stderr`.
    pub fn from_captured(stdout: String, stderr: String) -> (r: ExecutableOutput)
        ensures
            r@ == (Streams { stdout: captured(stdout@), stderr: captured(stderr@) }),
    {
        ExecutableOutput { stdout: keep_if_printed(stdout), stderr: keep_if_printed(stderr) }
    }
}

/// Looks programs up on the search path.
pub struct PathFinder {}

impl PathFinder {
    pub fn new() -> (r: PathFinder) {
        PathFinder {  }
    }
}

/// Launches programs.
pub struct Runner {}

impl Runner {
    pub fn new() -> (r: Runner) {
        Runner {  }
    }
}

/// Whether `w` holds no `:`.
pub open spec fn colon_free(w: Seq<char>) -> bool {
    forall|k: int| 0 <= k < w.len() ==> #[trigger] w[k] != ':'
}

/// The directories of a colon-separated search path, in order: pieces
/// without a colon that, joined with `:`, give the path back. An empty path
/// gives one empty piece.
pub fn search_dirs(env_path: &str) -> (r: Vec<String>)
    ensures
        r@.len() >= 1,
        joined(r.deep_view(), ':') == env_path@,
        forall|k: int| 0 <= k < r@.len() ==> colon_free(#[trigger] r.deep_view()[k]),
{
    let n = env_path.unicode_len();
    let mut dirs: Vec<String> = Vec::new();
    let mut cur = String::new();
    let mut i: usize = 0;
    assert(dirs.deep_view().push(cur@) =~= seq![cur@]);
    assert(env_path@.subrange(0, 0) =~= cur@);
    while i < n
        invariant
            n == env_path@.len(),
            i <= n,
            joined(dirs.deep_view().push(cur@), ':') == env_path@.subrange(0, i as int),
            colon_free(cur@),
            forall|k: int| 0 <= k < dirs@.len() ==> colon_free(#[trigger] dirs.deep_view()[k]),
        decreases n - i,
    {
        let ghost ws = dirs.deep_view();
        let c = env_path.get_char(i);
        let piece = env_path.substring_char(i, i + 1);
        assert(piece@ =~= seq![c]);
        if c == ':' {
            dirs.push(cur);
            assert(dirs.deep_view() =~= ws.push(cur@));
            cur = String::new();
            assert(dirs.deep_view().push(cur@).drop_last() =~= dirs.deep_view());
            assert(joined(dirs.deep_view().push(cur@), ':') =~= joined(dirs.deep_view(), ':')
                + seq![':']);
        } else {
            let ghost before = cur@;
            cur.append(piece);
            assert(ws.push(cur@).drop_last() =~= ws);
            assert(ws.push(before).drop_last() =~= ws);
            proof {
                if ws.len() == 0 {
                    assert(ws.push(cur@) =~= seq![cur@]);
                    assert(ws.push(before) =~= seq![before]);
                }
            }
            assert(joined(ws.push(cur@), ':') =~= joined(ws.push(before), ':') + seq![c]);
        }
        assert(env_path@.subrange(0, i + 1) =~= env_path@.subrange(0, i as int) + seq![c]);
        i = i + 1;
    }
    let ghost ws = dirs.deep_view();
    dirs.push(cur);
    assert(dirs.deep_view() =~= ws.push(cur@));
    assert(env_path@.subrange(0, n as int) =~= env_path@);
    dirs
}

/// The first directory of the search path that holds the program, given for
/// each directory, in order, whether it does.
pub fn first_found(found: &Vec<bool>) -> (r: Option<usize>)
    ensures
        match r {
            Some(i) => i < found@.len() && found@[i as int] && forall|j: int|
                0 <= j < i ==> !#[trigger] found@[j],
            None => forall|j: int| 0 <= j < found@.len() ==> !#[trigger] found@[j],
        },
{
    let mut i: usize = 0;
    while i < found.len()
        invariant
            i <= found@.len(),
            forall|j: int| 0 <= j < i ==> !#[trigger] found@[j],
        decreases found@.len() - i,
    {
        if found[i] {
            return Some(i);
        }
        i = i + 1;
    }
    None
}

} // verus!
