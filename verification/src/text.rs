//! Character-sequence utilities shared by the parser and the notifier:
//! searching, trimming, splitting into lines, joining with newlines, decimal
//! rendering, and path basenames.

use vstd::prelude::*;
use vstd::string::StrSliceExecFns;
use vstd::string::StringExecFns;

verus! {

/// The characters treated as blank space when text is trimmed and when a line
/// is judged blank.
pub open spec fn is_space(c: char) -> bool {
    c == ' ' || c == '\t' || c == '\r' || c == '\n'
}

fn space_char(c: char) -> (r: bool)
    ensures
        r == is_space(c),
{
    c == ' ' || c == '\t' || c == '\r' || c == '\n'
}

/// Index of the first occurrence of `c` in `s`, or `s.len()` when `c` does not
/// occur.
pub open spec fn first_idx(s: Seq<char>, c: char) -> int
    decreases s.len(),
{
    if s.len() == 0 {
        0
    } else if s[0] == c {
        0
    } else {
        1 + first_idx(s.drop_first(), c)
    }
}

pub proof fn lemma_first_idx(s: Seq<char>, c: char)
    ensures
        0 <= first_idx(s, c) <= s.len(),
        first_idx(s, c) < s.len() ==> s[first_idx(s, c)] == c,
        forall|k: int| 0 <= k < first_idx(s, c) ==> s[k] != c,
    decreases s.len(),
{
    if s.len() > 0 && s[0] != c {
        lemma_first_idx(s.drop_first(), c);
        assert forall|k: int| 0 <= k < first_idx(s, c) implies s[k] != c by {
            if k > 0 {
                assert(s[k] == s.drop_first()[k - 1]);
            }
        }
    }
}

/// Finds the first occurrence of `c` in `s` at or past `from`; yields
/// `s@.len()` when there is none.
#[verifier::loop_isolation(false)]
pub fn find_char_from(s: &str, c: char, from: usize) -> (r: usize)
    requires
        from <= s@.len(),
    ensures
        from <= r <= s@.len(),
        r < s@.len() ==> s@[r as int] == c,
        forall|k: int| from <= k < r ==> s@[k] != c,
{
    let n = s.unicode_len();
    let mut i: usize = from;
    while i < n
        invariant
            from <= i <= n,
            forall|k: int| from <= k < i ==> s@[k] != c,
        decreases n - i,
    {
        if s.get_char(i) == c {
            return i;
        }
        i = i + 1;
    }
    n
}

/// Number of leading blank characters of `s`.
pub open spec fn ltrim_idx(s: Seq<char>) -> int
    decreases s.len(),
{
    if s.len() == 0 {
        0
    } else if is_space(s[0]) {
        1 + ltrim_idx(s.drop_first())
    } else {
        0
    }
}

pub proof fn lemma_ltrim_idx(s: Seq<char>)
    ensures
        0 <= ltrim_idx(s) <= s.len(),
        ltrim_idx(s) < s.len() ==> !is_space(s[ltrim_idx(s)]),
        forall|k: int| 0 <= k < ltrim_idx(s) ==> is_space(s[k]),
    decreases s.len(),
{
    if s.len() > 0 && is_space(s[0]) {
        lemma_ltrim_idx(s.drop_first());
        assert forall|k: int| 0 <= k < ltrim_idx(s) implies is_space(s[k]) by {
            if k > 0 {
                assert(s[k] == s.drop_first()[k - 1]);
            }
        }
    }
}

/// End of `s` with trailing blank characters dropped.
pub open spec fn rtrim_end(s: Seq<char>) -> int
    decreases s.len(),
{
    if s.len() == 0 {
        0
    } else if is_space(s.last()) {
        rtrim_end(s.drop_last())
    } else {
        s.len() as int
    }
}

pub proof fn lemma_rtrim_end(s: Seq<char>)
    ensures
        0 <= rtrim_end(s) <= s.len(),
        rtrim_end(s) > 0 ==> !is_space(s[rtrim_end(s) - 1]),
        forall|k: int| rtrim_end(s) <= k < s.len() ==> is_space(s[k]),
    decreases s.len(),
{
    if s.len() > 0 && is_space(s.last()) {
        lemma_rtrim_end(s.drop_last());
        assert forall|k: int| rtrim_end(s) <= k < s.len() implies is_space(s[k]) by {
            if k < s.len() - 1 {
                assert(s[k] == s.drop_last()[k]);
            }
        }
    }
}

/// `s` with leading and trailing blank characters removed.
pub open spec fn trim_spec(s: Seq<char>) -> Seq<char> {
    let t = s.take(rtrim_end(s));
    t.skip(ltrim_idx(t))
}

/// The pieces of `s` delimited by newline characters, in order.  A trailing
/// newline yields a final empty piece, and an empty input yields one empty
/// piece.
pub open spec fn split_lines_spec(s: Seq<char>) -> Seq<Seq<char>>
    decreases s.len(),
{
    let i = first_idx(s, '\n');
    if 0 <= i < s.len() {
        seq![s.take(i)] + split_lines_spec(s.skip(i + 1))
    } else {
        seq![s]
    }
}

/// Splits `s` at newline characters.
#[verifier::loop_isolation(false)]
pub fn split_lines(s: &str) -> (r: Vec<String>)
    ensures
        r.deep_view() == split_lines_spec(s@),
{
    let n = s.unicode_len();
    let mut out: Vec<String> = Vec::new();
    let mut p: usize = 0;
    let mut done: bool = false;
    proof {
        assert(s@.skip(0) =~= s@);
        assert(out.deep_view() + split_lines_spec(s@) =~~= split_lines_spec(s@));
    }
    while !done
        invariant
            p <= n,
            !done ==> out.deep_view() + split_lines_spec(s@.skip(p as int)) == split_lines_spec(
                s@,
            ),
            done ==> out.deep_view() == split_lines_spec(s@),
        decreases (n - p) + (if done { 0int } else { 1int }),
    {
        let j = find_char_from(s, '\n', p);
        let ghost t = s@.skip(p as int);
        proof {
            lemma_first_idx(t, '\n');
            assert(forall|k: int| 0 <= k < t.len() ==> t[k] == s@[p + k]);
            let fi = first_idx(t, '\n');
            if j - p < fi {
                assert(t[j - p] == '\n');
                assert(false);
            }
            if fi < j - p {
                assert(s@[p + fi] == '\n');
                assert(false);
            }
            assert(fi == j - p);
        }
        if j == n {
            let piece = String::from_str(s.substring_char(p, n));
            let ghost before = out.deep_view();
            proof {
                assert(piece@ =~= t);
                assert(split_lines_spec(t) == seq![t]);
            }
            out.push(piece);
            done = true;
            proof {
                assert(out.deep_view() =~~= before + seq![t]);
            }
        } else {
            let piece = String::from_str(s.substring_char(p, j));
            let ghost before = out.deep_view();
            let ghost seg = t.take(j - p);
            let ghost rest = t.skip(j - p + 1);
            proof {
                assert(piece@ =~= seg);
                assert(split_lines_spec(t) == seq![seg] + split_lines_spec(rest));
                assert(rest =~= s@.skip(j + 1));
            }
            out.push(piece);
            p = j + 1;
            proof {
                assert(out.deep_view() =~~= before + seq![seg]);
                assert(out.deep_view() + split_lines_spec(s@.skip(p as int)) =~~= before + (seq![
                    seg,
                ] + split_lines_spec(rest)));
            }
        }
    }
    out
}

/// All characters of `l` are blank; a blank line separates or pads the ones
/// that carry content.
pub open spec fn is_blank(l: Seq<char>) -> bool {
    forall|k: int| 0 <= k < l.len() ==> is_space(l[k])
}

#[verifier::loop_isolation(false)]
fn blank_str(s: &str) -> (r: bool)
    ensures
        r == is_blank(s@),
{
    let n = s.unicode_len();
    let mut i: usize = 0;
    while i < n
        invariant
            i <= n,
            forall|k: int| 0 <= k < i ==> is_space(s@[k]),
        decreases n - i,
    {
        if !space_char(s.get_char(i)) {
            return false;
        }
        i = i + 1;
    }
    true
}

/// The lines of `ls` that are not blank, in order.
pub open spec fn nonblank_of(ls: Seq<Seq<char>>) -> Seq<Seq<char>>
    decreases ls.len(),
{
    if ls.len() == 0 {
        Seq::empty()
    } else if is_blank(ls[0]) {
        nonblank_of(ls.drop_first())
    } else {
        seq![ls[0]] + nonblank_of(ls.drop_first())
    }
}

/// The non-blank lines of `s`, in order: what a newline-separated listing
/// carries as entries.
pub open spec fn nonblank_lines(s: Seq<char>) -> Seq<Seq<char>> {
    nonblank_of(split_lines_spec(s))
}

/// Splits `s` at newlines and keeps the lines that are not blank.
#[verifier::loop_isolation(false)]
pub fn list_entries(s: &str) -> (r: Vec<String>)
    ensures
        r.deep_view() == nonblank_lines(s@),
{
    let lines = split_lines(s);
    let ghost ls = lines.deep_view();
    let mut out: Vec<String> = Vec::new();
    let mut i: usize = 0;
    proof {
        assert(ls.skip(0) =~~= ls);
        assert(out.deep_view() + nonblank_of(ls) =~~= nonblank_of(ls));
    }
    while i < lines.len()
        invariant
            i <= lines.len(),
            out.deep_view() + nonblank_of(ls.skip(i as int)) == nonblank_of(ls),
        decreases lines.len() - i,
    {
        let ghost rest = ls.skip(i as int);
        proof {
            assert(rest[0] == ls[i as int]);
            assert(rest.drop_first() =~~= ls.skip(i + 1));
        }
        if !blank_str(lines[i].as_str()) {
            let ghost before = out.deep_view();
            out.push(lines[i].clone());
            proof {
                assert(out.deep_view() =~~= before + seq![ls[i as int]]);
                assert(out.deep_view() + nonblank_of(ls.skip(i + 1)) =~~= before + (seq![
                    ls[i as int],
                ] + nonblank_of(rest.drop_first())));
            }
        }
        i = i + 1;
    }
    proof {
        assert(ls.skip(ls.len() as int) =~~= Seq::<Seq<char>>::empty());
        assert(out.deep_view() + nonblank_of(ls.skip(ls.len() as int)) =~~= out.deep_view());
    }
    out
}

/// The entries joined by single newlines, with no trailing newline.
pub open spec fn join_nl(items: Seq<Seq<char>>) -> Seq<char> {
    if items.len() == 0 {
        Seq::empty()
    } else {
        items[0] + join_tail(items.drop_first())
    }
}

/// Every entry of `items` preceded by one newline, concatenated.
pub open spec fn join_tail(items: Seq<Seq<char>>) -> Seq<char>
    decreases items.len(),
{
    if items.len() == 0 {
        Seq::empty()
    } else {
        seq!['\n'] + items[0] + join_tail(items.drop_first())
    }
}

/// Joins the given strings with single newlines.
#[verifier::loop_isolation(false)]
pub fn join_strings(items: &Vec<String>) -> (r: String)
    ensures
        r@ == join_nl(items.deep_view()),
{
    let ghost all = items.deep_view();
    if items.len() == 0 {
        return String::new();
    }
    let mut acc = items[0].clone();
    let mut i: usize = 1;
    proof {
        assert(all.skip(1) =~~= all.drop_first());
        assert(acc@ + join_tail(all.drop_first()) =~~= join_nl(all));
    }
    while i < items.len()
        invariant
            1 <= i <= items.len(),
            acc@ + join_tail(all.skip(i as int)) == join_nl(all),
        decreases items.len() - i,
    {
        let ghost rest = all.skip(i as int);
        proof {
            assert(rest[0] == all[i as int]);
            assert(rest.drop_first() =~~= all.skip(i + 1));
        }
        let ghost before = acc@;
        acc.append("\n");
        acc.append(items[i].as_str());
        proof {
            reveal_strlit("\n");
            assert(acc@ =~= before + seq!['\n'] + all[i as int]);
            assert(acc@ + join_tail(all.skip(i + 1)) =~= before + join_tail(rest));
        }
        i = i + 1;
    }
    proof {
        assert(all.skip(all.len() as int) =~~= Seq::<Seq<char>>::empty());
        assert(acc@ + join_tail(all.skip(all.len() as int)) =~~= acc@);
    }
    acc
}

/// The decimal digit character for `n` in `0 ..= 9`.
pub open spec fn dec_digit(n: int) -> char {
    if n == 0 {
        '0'
    } else if n == 1 {
        '1'
    } else if n == 2 {
        '2'
    } else if n == 3 {
        '3'
    } else if n == 4 {
        '4'
    } else if n == 5 {
        '5'
    } else if n == 6 {
        '6'
    } else if n == 7 {
        '7'
    } else if n == 8 {
        '8'
    } else {
        '9'
    }
}

/// The usual decimal rendering of a non-negative number, without leading
/// zeros (except for `0` itself).
pub open spec fn dec_chars(n: int) -> Seq<char>
    decreases n,
{
    if n < 10 {
        seq![dec_digit(n)]
    } else {
        dec_chars(n / 10).push(dec_digit(n % 10))
    }
}

fn digit_str(d: usize) -> (r: &'static str)
    requires
        d < 10,
    ensures
        r@ =~= seq![dec_digit(d as int)],
{
    proof {
        reveal_strlit("0");
        reveal_strlit("1");
        reveal_strlit("2");
        reveal_strlit("3");
        reveal_strlit("4");
        reveal_strlit("5");
        reveal_strlit("6");
        reveal_strlit("7");
        reveal_strlit("8");
        reveal_strlit("9");
    }
    match d {
        0 => "0",
        1 => "1",
        2 => "2",
        3 => "3",
        4 => "4",
        5 => "5",
        6 => "6",
        7 => "7",
        8 => "8",
        _ => "9",
    }
}

/// Renders `n` in decimal.
pub fn format_usize(n: usize) -> (r: String)
    ensures
        r@ == dec_chars(n as int),
    decreases n,
{
    if n < 10 {
        String::from_str(digit_str(n))
    } else {
        proof {
            assert(n / 10 < n) by (nonlinear_arith)
                requires
                    n >= 10,
            ;
        }
        let mut r = format_usize(n / 10);
        r.append(digit_str(n % 10));
        proof {
            assert(dec_chars((n / 10) as int).push(dec_digit((n % 10) as int)) =~= dec_chars(
                (n / 10) as int,
            ) + seq![dec_digit((n % 10) as int)]);
        }
        r
    }
}

/// Index of the first blank character of `s`, or `s.len()` when `s` holds
/// none.
pub open spec fn first_space_idx(s: Seq<char>) -> int
    decreases s.len(),
{
    if s.len() == 0 {
        0
    } else if is_space(s[0]) {
        0
    } else {
        1 + first_space_idx(s.drop_first())
    }
}

pub proof fn lemma_first_space_idx(s: Seq<char>)
    ensures
        0 <= first_space_idx(s) <= s.len(),
        first_space_idx(s) < s.len() ==> is_space(s[first_space_idx(s)]),
        forall|k: int| 0 <= k < first_space_idx(s) ==> !is_space(s[k]),
    decreases s.len(),
{
    if s.len() > 0 && !is_space(s[0]) {
        lemma_first_space_idx(s.drop_first());
        assert forall|k: int| 0 <= k < first_space_idx(s) implies !is_space(s[k]) by {
            if k > 0 {
                assert(s[k] == s.drop_first()[k - 1]);
            }
        }
    }
}

/// The prefix of `s` up to (not counting) its first blank character.
#[verifier::loop_isolation(false)]
pub fn token_prefix(s: &str) -> (r: String)
    ensures
        r@ == s@.take(first_space_idx(s@)),
{
    let n = s.unicode_len();
    let mut e: usize = 0;
    while e < n && !space_char(s.get_char(e))
        invariant
            e <= n,
            forall|k: int| 0 <= k < e ==> !is_space(s@[k]),
        decreases n - e,
    {
        e = e + 1;
    }
    proof {
        lemma_first_space_idx(s@);
        let f = first_space_idx(s@);
        if e < f {
            assert(!is_space(s@[e as int]));
            assert(false);
        }
        if f < e {
            assert(is_space(s@[f]));
            assert(false);
        }
        assert(s@.subrange(0, e as int) =~= s@.take(f));
    }
    String::from_str(s.substring_char(0, e))
}

/// One past the position of the last `/` in `s`, or `0` when there is none.
pub open spec fn last_slash_end(s: Seq<char>) -> int
    decreases s.len(),
{
    if s.len() == 0 {
        0
    } else if s.last() == '/' {
        s.len() as int
    } else {
        last_slash_end(s.drop_last())
    }
}

pub proof fn lemma_last_slash_end(s: Seq<char>)
    ensures
        0 <= last_slash_end(s) <= s.len(),
        last_slash_end(s) > 0 ==> s[last_slash_end(s) - 1] == '/',
        forall|k: int| last_slash_end(s) <= k < s.len() ==> s[k] != '/',
    decreases s.len(),
{
    if s.len() > 0 && s.last() != '/' {
        lemma_last_slash_end(s.drop_last());
        assert forall|k: int| last_slash_end(s) <= k < s.len() implies s[k] != '/' by {
            if k < s.len() - 1 {
                assert(s[k] == s.drop_last()[k]);
            }
        }
    }
}

/// What comes after the last `/` of a path; the path itself when it holds no
/// `/`.
pub open spec fn basename_spec(s: Seq<char>) -> Seq<char> {
    s.skip(last_slash_end(s))
}

/// The final `/`-separated component of a path.
#[verifier::loop_isolation(false)]
pub fn basename(s: &str) -> (r: String)
    ensures
        r@ == basename_spec(s@),
{
    let n = s.unicode_len();
    let mut b: usize = n;
    while b > 0 && s.get_char(b - 1) != '/'
        invariant
            b <= n,
            forall|k: int| b <= k < n ==> s@[k] != '/',
        decreases b,
    {
        b = b - 1;
    }
    proof {
        lemma_last_slash_end(s@);
        let e = last_slash_end(s@);
        if b < e {
            assert(s@[e - 1] == '/');
            assert(false);
        }
        if e < b {
            assert(s@[b - 1] == '/');
            assert(false);
        }
        assert(s@.subrange(b as int, n as int) =~= basename_spec(s@));
    }
    String::from_str(s.substring_char(b, n))
}

/// Copy of `s` with leading and trailing blank characters removed.
#[verifier::loop_isolation(false)]
pub fn trim_str(s: &str) -> (r: String)
    ensures
        r@ == trim_spec(s@),
{
    let n = s.unicode_len();
    let mut b: usize = n;
    while b > 0 && space_char(s.get_char(b - 1))
        invariant
            b <= n,
            forall|k: int| b <= k < n ==> is_space(s@[k]),
        decreases b,
    {
        b = b - 1;
    }
    let mut a: usize = 0;
    while a < b && space_char(s.get_char(a))
        invariant
            a <= b,
            forall|k: int| 0 <= k < a ==> is_space(s@[k]),
        decreases b - a,
    {
        a = a + 1;
    }
    proof {
        lemma_rtrim_end(s@);
        assert(b == rtrim_end(s@));
        let t = s@.take(rtrim_end(s@));
        lemma_ltrim_idx(t);
        let l = ltrim_idx(t);
        assert(forall|k: int| 0 <= k < t.len() ==> t[k] == s@[k]);
        if a < l {
            assert(is_space(t[a as int]));
            assert(false);
        }
        if l < a {
            assert(is_space(s@[l]));
            assert(false);
        }
        assert(a == l);
        assert(s@.subrange(a as int, b as int) =~= t.skip(ltrim_idx(t)));
    }
    String::from_str(s.substring_char(a, b))
}

} // verus!
