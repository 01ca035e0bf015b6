//! The line lexer: splits a raw input line into words, honouring single
//! quotes, double quotes and backslash escapes.

use vstd::prelude::*;
use vstd::string::*;
use crate::text::{joined, lemma_joined_first};

verus! {

/// The quoting context the lexer is in.
#[derive(Clone, Copy, Debug, PartialEq, Eq, Structural)]
pub enum Quoting {
    Unquoted,
    SingleQuoted,
    DoubleQuoted,
}

/// Characters that a backslash escapes inside double quotes.
pub open spec fn escapable_in_double_quotes(c: char) -> bool {
    c == '"' || c == '$' || c == '\\'
}

/// The words of `s` from position `i` on, when the lexer stands in quoting
/// context `q` with the word `cur` begun and the words `done` already complete.
///
/// Outside quotes a backslash takes the next character literally and an
/// unescaped space ends a non-empty word; a quote character opens its context.
/// Inside single quotes everything is literal up to the closing `'`. Inside
/// double quotes a backslash escapes only `"`, `$` and `\`, and is kept before
/// anything else. At the end the word in progress, even empty, is emitted.
pub open spec fn lex_from(
    s: Seq<char>,
    i: int,
    q: Quoting,
    cur: Seq<char>,
    done: Seq<Seq<char>>,
) -> Seq<Seq<char>>
    decreases s.len() - i,
{
    if i < 0 || i >= s.len() {
        done.push(cur)
    } else {
        let c = s[i];
        match q {
            Quoting::Unquoted => {
                if c == '\\' {
                    if i + 1 < s.len() {
                        lex_from(s, i + 2, q, cur.push(s[i + 1]), done)
                    } else {
                        lex_from(s, i + 1, q, cur, done)
                    }
                } else if c == '\'' {
                    lex_from(s, i + 1, Quoting::SingleQuoted, cur, done)
                } else if c == '"' {
                    lex_from(s, i + 1, Quoting::DoubleQuoted, cur, done)
                } else if c == ' ' {
                    if cur.len() > 0 {
                        lex_from(s, i + 1, q, Seq::empty(), done.push(cur))
                    } else {
                        lex_from(s, i + 1, q, cur, done)
                    }
                } else {
                    lex_from(s, i + 1, q, cur.push(c), done)
                }
            },
            Quoting::SingleQuoted => {
                if c == '\'' {
                    lex_from(s, i + 1, Quoting::Unquoted, cur, done)
                } else {
                    lex_from(s, i + 1, q, cur.push(c), done)
                }
            },
            Quoting::DoubleQuoted => {
                if c == '"' {
                    lex_from(s, i + 1, Quoting::Unquoted, cur, done)
                } else if c == '\\' && i + 1 < s.len() && escapable_in_double_quotes(s[i + 1]) {
                    lex_from(s, i + 2, q, cur.push(s[i + 1]), done)
                } else {
                    lex_from(s, i + 1, q, cur.push(c), done)
                }
            },
        }
    }
}

/// The words of a whole input line.
pub open spec fn tokenize(s: Seq<char>) -> Seq<Seq<char>> {
    lex_from(s, 0, Quoting::Unquoted, Seq::empty(), Seq::empty())
}

/// Appends the character at position `i` of `s` to `cur`.
fn push_char_at(cur: &mut String, s: &str, i: usize)
    requires
        i < s@.len(),
        s@.len() <= usize::MAX,
    ensures
        final(cur)@ == old(cur)@.push(s@[i as int]),
{
    let piece = s.substring_char(i, i + 1);
    cur.append(piece);
    assert(piece@ =~= seq![s@[i as int]]);
    assert(cur@ =~= old(cur)@.push(s@[i as int]));
}

/// Splits an input line into its words (see `tokenize`). Never fails; the
/// result holds at least one word.
pub fn parse_args(args: &str) -> (r: Vec<String>)
    ensures
        r.deep_view() == tokenize(args@),
        r@.len() >= 1,
{
    let n = args.unicode_len();
    let mut words: Vec<String> = Vec::new();
    let mut cur = String::new();
    let mut q = Quoting::Unquoted;
    let mut i: usize = 0;
    assert(words.deep_view() =~= Seq::<Seq<char>>::empty());
    while i < n
        invariant
            n == args@.len(),
            i <= n,
            lex_from(args@, i as int, q, cur@, words.deep_view()) == tokenize(args@),
        decreases n - i,
    {
        let c = args.get_char(i);
        match q {
            Quoting::Unquoted => {
                if c == '\\' {
                    if i + 1 < n {
                        push_char_at(&mut cur, args, i + 1);
                        i = i + 2;
                    } else {
                        i = i + 1;
                    }
                } else if c == '\'' {
                    q = Quoting::SingleQuoted;
                    i = i + 1;
                } else if c == '"' {
                    q = Quoting::DoubleQuoted;
                    i = i + 1;
                } else if c == ' ' {
                    if !cur.as_str().is_empty() {
                        let ghost before = words.deep_view();
                        words.push(cur);
                        assert(words.deep_view() =~= before.push(cur@));
                        cur = String::new();
                    }
                    i = i + 1;
                } else {
                    push_char_at(&mut cur, args, i);
                    i = i + 1;
                }
            },
            Quoting::SingleQuoted => {
                if c == '\'' {
                    q = Quoting::Unquoted;
                } else {
                    push_char_at(&mut cur, args, i);
                }
                i = i + 1;
            },
            Quoting::DoubleQuoted => {
                if c == '"' {
                    q = Quoting::Unquoted;
                    i = i + 1;
                } else if c == '\\' && i + 1 < n && is_escapable_in_double_quotes(
                    args.get_char(i + 1),
                ) {
                    push_char_at(&mut cur, args, i + 1);
                    i = i + 2;
                } else {
                    push_char_at(&mut cur, args, i);
                    i = i + 1;
                }
            },
        }
    }
    let ghost before = words.deep_view();
    words.push(cur);
    assert(words.deep_view() =~= before.push(cur@));
    words
}

fn is_escapable_in_double_quotes(c: char) -> (r: bool)
    ensures
        r == escapable_in_double_quotes(c),
{
    c == '"' || c == '$' || c == '\\'
}

} // verus!

verus! {

/// A character with no special meaning to the lexer.
pub open spec fn is_plain_char(c: char) -> bool {
    c != ' ' && c != '\'' && c != '"' && c != '\\'
}

/// A non-empty word of plain characters.
pub open spec fn is_plain_word(w: Seq<char>) -> bool {
    w.len() > 0 && forall|k: int| 0 <= k < w.len() ==> is_plain_char(#[trigger] w[k])
}

/// A run of plain characters outside quotes extends the word in progress.
proof fn lemma_plain_run(s: Seq<char>, i: int, j: int, cur: Seq<char>, done: Seq<Seq<char>>)
    requires
        0 <= i <= j <= s.len(),
        forall|k: int| i <= k < j ==> is_plain_char(#[trigger] s[k]),
    ensures
        lex_from(s, i, Quoting::Unquoted, cur, done) == lex_from(
            s,
            j,
            Quoting::Unquoted,
            cur + s.subrange(i, j),
            done,
        ),
    decreases j - i,
{
    if i == j {
        assert(cur + s.subrange(i, j) =~= cur);
    } else {
        lemma_plain_run(s, i + 1, j, cur.push(s[i]), done);
        assert(cur.push(s[i]) + s.subrange(i + 1, j) =~= cur + s.subrange(i, j));
    }
}

proof fn lemma_plain_words_from(s: Seq<char>, i: int, ws: Seq<Seq<char>>, done: Seq<Seq<char>>)
    requires
        0 <= i <= s.len(),
        ws.len() >= 1,
        forall|k: int| 0 <= k < ws.len() ==> is_plain_word(#[trigger] ws[k]),
        s.subrange(i, s.len() as int) == joined(ws, ' '),
    ensures
        lex_from(s, i, Quoting::Unquoted, Seq::empty(), done) == done + ws,
    decreases ws.len(),
{
    let w = ws[0];
    assert(is_plain_word(w));
    let e = i + w.len();
    if ws.len() == 1 {
        assert(s.subrange(i, s.len() as int) == w);
        assert forall|k: int| i <= k < s.len() implies is_plain_char(#[trigger] s[k]) by {
            assert(s[k] == w[k - i]);
        }
        lemma_plain_run(s, i, s.len() as int, Seq::empty(), done);
        assert(Seq::<char>::empty() + s.subrange(i, s.len() as int) =~= w);
        assert(done.push(w) =~= done + ws);
    } else {
        lemma_joined_first(ws, ' ');
        let rest = s.subrange(i, s.len() as int);
        assert(rest == w + seq![' '] + joined(ws.drop_first(), ' '));
        assert(rest.len() == w.len() + 1 + joined(ws.drop_first(), ' ').len());
        assert(e + 1 <= s.len());
        assert forall|k: int| i <= k < e implies is_plain_char(#[trigger] s[k]) by {
            assert(s[k] == rest[k - i]);
            assert(rest[k - i] == w[k - i]);
        }
        lemma_plain_run(s, i, e, Seq::empty(), done);
        assert(s.subrange(i, e) =~= w);
        assert(Seq::<char>::empty() + w =~= w);
        assert(s[e] == rest[w.len() as int]);
        assert(s[e] == ' ');
        assert(s.subrange(e + 1, s.len() as int) =~= rest.subrange(
            w.len() + 1 as int,
            rest.len() as int,
        ));
        assert(rest.subrange(w.len() + 1 as int, rest.len() as int) =~= joined(ws.drop_first(), ' '));
        assert forall|k: int| 0 <= k < ws.drop_first().len() implies is_plain_word(
            #[trigger] ws.drop_first()[k],
        ) by {
            assert(ws.drop_first()[k] == ws[k + 1]);
        }
        lemma_plain_words_from(s, e + 1, ws.drop_first(), done.push(w));
        assert(done.push(w) + ws.drop_first() =~= done + ws);
    }
}

/// Plain words, each non-empty and separated by single spaces, come back from
/// the lexer exactly as they were, in order.
pub proof fn lemma_plain_words_round_trip(ws: Seq<Seq<char>>)
    requires
        ws.len() >= 1,
        forall|k: int| 0 <= k < ws.len() ==> is_plain_word(#[trigger] ws[k]),
    ensures
        tokenize(joined(ws, ' ')) == ws,
{
    let s = joined(ws, ' ');
    assert(s.subrange(0, s.len() as int) =~= s);
    lemma_plain_words_from(s, 0, ws, Seq::empty());
    assert(Seq::<Seq<char>>::empty() + ws =~= ws);
}

} // verus!

verus! {

proof fn lemma_lex_from_grows(
    s: Seq<char>,
    i: int,
    q: Quoting,
    cur: Seq<char>,
    done: Seq<Seq<char>>,
)
    ensures
        lex_from(s, i, q, cur, done).len() > done.len(),
    decreases s.len() - i,
{
    if 0 <= i < s.len() {
        let c = s[i];
        match q {
            Quoting::Unquoted => {
                if c == '\\' {
                    if i + 1 < s.len() {
                        lemma_lex_from_grows(s, i + 2, q, cur.push(s[i + 1]), done);
                    } else {
                        lemma_lex_from_grows(s, i + 1, q, cur, done);
                    }
                } else if c == '\'' {
                    lemma_lex_from_grows(s, i + 1, Quoting::SingleQuoted, cur, done);
                } else if c == '"' {
                    lemma_lex_from_grows(s, i + 1, Quoting::DoubleQuoted, cur, done);
                } else if c == ' ' {
                    if cur.len() > 0 {
                        lemma_lex_from_grows(s, i + 1, q, Seq::empty(), done.push(cur));
                    } else {
                        lemma_lex_from_grows(s, i + 1, q, cur, done);
                    }
                } else {
                    lemma_lex_from_grows(s, i + 1, q, cur.push(c), done);
                }
            },
            Quoting::SingleQuoted => {
                if c == '\'' {
                    lemma_lex_from_grows(s, i + 1, Quoting::Unquoted, cur, done);
                } else {
                    lemma_lex_from_grows(s, i + 1, q, cur.push(c), done);
                }
            },
            Quoting::DoubleQuoted => {
                if c == '"' {
                    lemma_lex_from_grows(s, i + 1, Quoting::Unquoted, cur, done);
                } else if c == '\\' && i + 1 < s.len() && escapable_in_double_quotes(s[i + 1]) {
                    lemma_lex_from_grows(s, i + 2, q, cur.push(s[i + 1]), done);
                } else {
                    lemma_lex_from_grows(s, i + 1, q, cur.push(c), done);
                }
            },
        }
    }
}

/// Every line, even an empty one, lexes to at least one word.
pub proof fn lemma_tokenize_nonempty(s: Seq<char>)
    ensures
        tokenize(s).len() >= 1,
{
    lemma_lex_from_grows(s, 0, Quoting::Unquoted, Seq::empty(), Seq::empty());
}

} // verus!
