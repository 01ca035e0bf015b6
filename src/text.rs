//! Character-level helpers on strings, stated over `Seq<char>` views.

use vstd::prelude::*;
use vstd::string::*;

verus! {

/// Whether two strings hold the same characters.
pub fn same_text(a: &str, b: &str) -> (r: bool)
    ensures
        r == (a@ == b@),
{
    let n = a.unicode_len();
    if n != b.unicode_len() {
        return false;
    }
    let mut i: usize = 0;
    while i < n
        invariant
            n == a@.len(),
            n == b@.len(),
            i <= n,
            forall|j: int| 0 <= j < i ==> a@[j] == b@[j],
        decreases n - i,
    {
        if a.get_char(i) != b.get_char(i) {
            return false;
        }
        i = i + 1;
    }
    assert(a@ =~= b@);
    true
}

} // verus!

verus! {

/// The words of `ws` with one `sep` between neighbours.
pub open spec fn joined(ws: Seq<Seq<char>>, sep: char) -> Seq<char>
    decreases ws.len(),
{
    if ws.len() == 0 {
        Seq::empty()
    } else if ws.len() == 1 {
        ws[0]
    } else {
        joined(ws.drop_last(), sep) + seq![sep] + ws.last()
    }
}

/// Splitting a join of two or more words after its first word.
pub proof fn lemma_joined_first(ws: Seq<Seq<char>>, sep: char)
    requires
        ws.len() >= 2,
    ensures
        joined(ws, sep) == ws[0] + seq![sep] + joined(ws.drop_first(), sep),
    decreases ws.len(),
{
    let df = ws.drop_first();
    if ws.len() > 2 {
        let dl = ws.drop_last();
        lemma_joined_first(dl, sep);
        assert(dl.drop_first() =~= df.drop_last());
        assert(df.last() == ws.last());
        assert(joined(df, sep) == joined(df.drop_last(), sep) + seq![sep] + df.last());
        assert(joined(ws, sep) == joined(dl, sep) + seq![sep] + ws.last());
        assert(joined(ws, sep) =~= ws[0] + seq![sep] + joined(df, sep));
    } else {
        assert(df =~= seq![ws[1]]);
        assert(ws.drop_last() =~= seq![ws[0]]);
        assert(joined(df, sep) == ws[1]);
        assert(joined(ws.drop_last(), sep) == ws[0]);
    }
}

/// Joins `parts[from..]` with single spaces.
pub fn join_with_space(parts: &Vec<String>, from: usize) -> (r: String)
    requires
        from <= parts@.len(),
    ensures
        r@ == joined(parts.deep_view().subrange(from as int, parts@.len() as int), ' '),
{
    let ghost ws = parts.deep_view();
    let mut r = String::new();
    let mut k: usize = from;
    while k < parts.len()
        invariant
            ws == parts.deep_view(),
            from <= k <= parts@.len(),
            r@ == joined(ws.subrange(from as int, k as int), ' '),
        decreases parts@.len() - k,
    {
        let ghost prev = ws.subrange(from as int, k as int);
        let ghost next = ws.subrange(from as int, k + 1);
        assert(next.drop_last() =~= prev);
        if k > from {
            r.append(" ");
            proof {
                reveal_strlit(" ");
            }
        }
        r.append(parts[k].as_str());
        proof {
            if k == from {
                assert(next =~= seq![ws[k as int]]);
            }
        }
        assert(r@ =~= joined(next, ' '));
        k = k + 1;
    }
    r
}

} // verus!

verus! {

/// Characters with the Unicode `White_Space` property.
pub open spec fn is_white_space(c: char) -> bool {
    let u = c as u32;
    (0x09 <= u <= 0x0d) || u == 0x20 || u == 0x85 || u == 0xa0 || u == 0x1680 || (0x2000 <= u
        <= 0x200a) || u == 0x2028 || u == 0x2029 || u == 0x202f || u == 0x205f || u == 0x3000
}

/// `s` without its leading white space.
pub open spec fn trim_start(s: Seq<char>) -> Seq<char>
    decreases s.len(),
{
    if s.len() > 0 && is_white_space(s[0]) {
        trim_start(s.drop_first())
    } else {
        s
    }
}

/// `s` without its trailing white space.
pub open spec fn trim_end(s: Seq<char>) -> Seq<char>
    decreases s.len(),
{
    if s.len() > 0 && is_white_space(s.last()) {
        trim_end(s.drop_last())
    } else {
        s
    }
}

/// `s` without white space at either end.
pub open spec fn trimmed(s: Seq<char>) -> Seq<char> {
    trim_end(trim_start(s))
}

fn white_space(c: char) -> (r: bool)
    ensures
        r == is_white_space(c),
{
    let u = c as u32;
    (0x09 <= u && u <= 0x0d) || u == 0x20 || u == 0x85 || u == 0xa0 || u == 0x1680 || (0x2000 <= u
        && u <= 0x200a) || u == 0x2028 || u == 0x2029 || u == 0x202f || u == 0x205f || u == 0x3000
}

/// Removes white space from both ends of `s`.
pub fn trim_white_space(s: &str) -> (r: String)
    ensures
        r@ == trimmed(s@),
{
    let n = s.unicode_len();
    let mut a: usize = 0;
    assert(s@.subrange(0, n as int) =~= s@);
    while a < n && white_space(s.get_char(a))
        invariant
            n == s@.len(),
            a <= n,
            trim_start(s@) == trim_start(s@.subrange(a as int, n as int)),
        decreases n - a,
    {
        let ghost t = s@.subrange(a as int, n as int);
        assert(t.drop_first() =~= s@.subrange(a + 1, n as int));
        a = a + 1;
    }
    let ghost front = s@.subrange(a as int, n as int);
    assert(trim_start(front) == front);
    let mut b: usize = n;
    while b > a && white_space(s.get_char(b - 1))
        invariant
            n == s@.len(),
            a <= b <= n,
            trim_end(front) == trim_end(s@.subrange(a as int, b as int)),
        decreases b - a,
    {
        let ghost t = s@.subrange(a as int, b as int);
        assert(t.drop_last() =~= s@.subrange(a as int, b - 1));
        b = b - 1;
    }
    let ghost back = s@.subrange(a as int, b as int);
    assert(trim_end(back) == back);
    s.substring_char(a, b).to_owned()
}

/// A decimal digit.
pub open spec fn is_digit(c: char) -> bool {
    '0' <= c && c <= '9'
}

/// A non-empty run of decimal digits.
pub open spec fn is_digits(ds: Seq<char>) -> bool {
    ds.len() > 0 && forall|k: int| 0 <= k < ds.len() ==> is_digit(#[trigger] ds[k])
}

/// The value of a run of decimal digits.
pub open spec fn decimal_value(ds: Seq<char>) -> int
    decreases ds.len(),
{
    if ds.len() == 0 {
        0
    } else {
        decimal_value(ds.drop_last()) * 10 + (ds.last() as u32 - '0' as u32)
    }
}

/// The integer that `s` writes: an optional `+` or `-` followed by digits.
pub open spec fn signed_decimal(s: Seq<char>) -> Option<int> {
    if s.len() > 0 && s[0] == '-' {
        if is_digits(s.drop_first()) {
            Some(-decimal_value(s.drop_first()))
        } else {
            None
        }
    } else if s.len() > 0 && s[0] == '+' {
        if is_digits(s.drop_first()) {
            Some(decimal_value(s.drop_first()))
        } else {
            None
        }
    } else if is_digits(s) {
        Some(decimal_value(s))
    } else {
        None
    }
}

/// The `i32` that `s` writes in decimal, if it writes one that fits.
pub open spec fn i32_of(s: Seq<char>) -> Option<i32> {
    match signed_decimal(s) {
        Some(v) => if i32::MIN <= v <= i32::MAX {
            Some(v as i32)
        } else {
            None
        },
        None => None,
    }
}

proof fn lemma_decimal_value_grows(ds: Seq<char>, k: int)
    requires
        0 <= k <= ds.len(),
        forall|j: int| 0 <= j < ds.len() ==> is_digit(#[trigger] ds[j]),
    ensures
        decimal_value(ds.subrange(0, k)) <= decimal_value(ds),
        0 <= decimal_value(ds.subrange(0, k)),
    decreases ds.len(),
{
    if ds.len() > 0 {
        if k == ds.len() {
            assert(ds.subrange(0, k) =~= ds);
            lemma_decimal_value_grows(ds.drop_last(), 0);
        } else {
            lemma_decimal_value_grows(ds.drop_last(), k);
            assert(ds.drop_last().subrange(0, k) =~= ds.subrange(0, k));
        }
    } else {
        assert(ds.subrange(0, k) =~= ds);
    }
}

/// Reads a decimal `i32` with an optional sign, as `str::parse::<i32>` does.
pub fn parse_i32(s: &str) -> (r: Option<i32>)
    ensures
        r == i32_of(s@),
{
    let n = s.unicode_len();
    let mut start: usize = 0;
    let mut negative = false;
    if n > 0 {
        let c = s.get_char(0);
        if c == '-' {
            negative = true;
            start = 1;
        } else if c == '+' {
            start = 1;
        }
    }
    let ghost ds = s@.subrange(start as int, n as int);
    assert(n > 0 ==> (negative <==> s@[0] == '-'));
    assert(n > 0 && start == 0 ==> s@[0] != '-' && s@[0] != '+');
    assert(n > 0 && start == 1 ==> s@[0] == '-' || s@[0] == '+');
    assert(start == 1 ==> ds =~= s@.drop_first());
    assert(start == 0 ==> ds =~= s@);
    if start >= n {
        return None;
    }
    let mut acc: i64 = 0;
    let mut k: usize = start;
    while k < n
        invariant
            n == s@.len(),
            start <= k <= n,
            ds == s@.subrange(start as int, n as int),
            start <= 1,
            start == 0 ==> ds == s@ && s@[0] != '-' && s@[0] != '+',
            start == 1 ==> ds == s@.drop_first() && (s@[0] == '-' || s@[0] == '+'),
            negative <==> (start == 1 && s@[0] == '-'),
            forall|j: int| start <= j < k ==> is_digit(#[trigger] s@[j]),
            acc == decimal_value(s@.subrange(start as int, k as int)),
            0 <= acc <= 0x8000_0000,
        decreases n - k,
    {
        let c = s.get_char(k);
        if c < '0' || c > '9' {
            assert(!is_digit(ds[k - start]));
            return None;
        }
        let ghost prev = s@.subrange(start as int, k as int);
        assert(s@.subrange(start as int, k + 1).drop_last() =~= prev);
        acc = acc * 10 + (c as u32 - '0' as u32) as i64;
        assert(acc == decimal_value(s@.subrange(start as int, k + 1)));
        if acc > 0x8000_0000 {
            proof {
                if is_digits(ds) {
                    assert(ds.subrange(0, k + 1 - start) =~= s@.subrange(start as int, k + 1));
                    lemma_decimal_value_grows(ds, k + 1 - start);
                }
            }
            return None;
        }
        k = k + 1;
    }
    assert(s@.subrange(start as int, n as int) == ds);
    assert forall|j: int| 0 <= j < ds.len() implies is_digit(#[trigger] ds[j]) by {
        assert(ds[j] == s@[start + j]);
    }
    if negative {
        Some((-acc) as i32)
    } else if acc > 0x7fff_ffff {
        None
    } else {
        Some(acc as i32)
    }
}

} // verus!
