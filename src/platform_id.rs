//! Reading the machine id out of what the platform tools print: the `IOPlatformUUID`
//! line of `ioreg` on macOS and the `MachineGuid` line of `reg query` on Windows.

use crate::config::{is_whitespace, is_whitespace_char, trim_end_of};
use vstd::prelude::*;
use vstd::string::*;

verus! {

/// Index of the first `c` in `s` at or after `a`, or the length of `s`.
pub open spec fn next_index_of(s: Seq<char>, c: char, a: int) -> int
    decreases s.len() - a,
{
    if a < 0 || a >= s.len() {
        s.len() as int
    } else if s[a] == c {
        a
    } else {
        next_index_of(s, c, a + 1)
    }
}

/// Start of the line that holds index `i`: just after the last newline before it.
pub open spec fn line_start(s: Seq<char>, i: int) -> int
    decreases i,
{
    if i <= 0 {
        0
    } else if s[i - 1] == '\n' {
        i
    } else {
        line_start(s, i - 1)
    }
}

/// `pat` occurs in `s` at index `i`.
pub open spec fn occurs_at(s: Seq<char>, pat: Seq<char>, i: int) -> bool {
    &&& 0 <= i
    &&& i + pat.len() <= s.len()
    &&& s.subrange(i, i + pat.len()) == pat
}

/// `i` is the first index where `pat` occurs in `s`.
pub open spec fn first_occurrence_at(s: Seq<char>, pat: Seq<char>, i: int) -> bool {
    &&& occurs_at(s, pat, i)
    &&& forall|j: int| 0 <= j < i ==> !#[trigger] occurs_at(s, pat, j)
}

/// The line that holds index `i`, without its line ending (`\n` or `\r\n`), as
/// `str::lines` gives it.
pub open spec fn line_around(s: Seq<char>, i: int) -> Seq<char> {
    let a = line_start(s, i);
    let b = next_index_of(s, '\n', i);
    if b < s.len() && b > a && s[b - 1] == '\r' {
        s.subrange(a, b - 1)
    } else {
        s.subrange(a, b)
    }
}

/// The first line of `s` that contains `pat`: the line of its first occurrence.
pub open spec fn first_line_with(s: Seq<char>, pat: Seq<char>) -> Option<Seq<char>> {
    if exists|i: int| first_occurrence_at(s, pat, i) {
        Some(line_around(s, choose|i: int| first_occurrence_at(s, pat, i)))
    } else {
        None
    }
}

/// Field `k` (from 0) of `t` split at `q`, as `str::split(q).nth(k)` gives it.
pub open spec fn field_of(t: Seq<char>, q: char, k: nat) -> Option<Seq<char>>
    decreases k,
{
    let e = next_index_of(t, q, 0);
    if k == 0 {
        Some(t.subrange(0, e))
    } else if e >= t.len() {
        None
    } else {
        field_of(t.subrange(e + 1, t.len() as int), q, (k - 1) as nat)
    }
}

/// Start of the run of non-whitespace that ends at `b`.
pub open spec fn token_start(u: Seq<char>, b: int) -> int
    decreases b,
{
    if b <= 0 {
        0
    } else if is_whitespace(u[b - 1]) {
        b
    } else {
        token_start(u, b - 1)
    }
}

/// The last whitespace-separated token of `t`, as `split_whitespace().last()` gives it.
pub open spec fn last_token(t: Seq<char>) -> Option<Seq<char>> {
    let u = trim_end_of(t);
    if u.len() == 0 {
        None
    } else {
        Some(u.subrange(token_start(u, u.len() as int), u.len() as int))
    }
}

/// The platform UUID in `ioreg` output: the fourth `"`-separated field of the first line
/// that mentions `IOPlatformUUID`.
pub open spec fn ioreg_uuid(output: Seq<char>) -> Option<Seq<char>> {
    match first_line_with(output, "IOPlatformUUID"@) {
        Some(line) => field_of(line, '"', 3),
        None => None,
    }
}

/// The machine GUID in `reg query` output: the last token of the first line that
/// mentions `MachineGuid`.
pub open spec fn reg_machine_guid(output: Seq<char>) -> Option<Seq<char>> {
    match first_line_with(output, "MachineGuid"@) {
        Some(line) => last_token(line),
        None => None,
    }
}

pub open spec fn text_of(r: Option<String>) -> Option<Seq<char>> {
    match r {
        Some(s) => Some(s@),
        None => None,
    }
}

proof fn lemma_next_index(t: Seq<char>, c: char, a: int, x: int)
    requires
        0 <= a <= x <= t.len(),
        forall|k: int| a <= k < x ==> t[k] != c,
        x == t.len() || t[x] == c,
    ensures
        next_index_of(t, c, a) == x,
    decreases x - a,
{
    if a < x {
        lemma_next_index(t, c, a + 1, x);
    }
}

proof fn lemma_line_start(s: Seq<char>, i: int, a: int)
    requires
        0 <= a <= i <= s.len(),
        forall|k: int| a <= k < i ==> s[k] != '\n',
        a == 0 || s[a - 1] == '\n',
    ensures
        line_start(s, i) == a,
    decreases i - a,
{
    if a < i {
        lemma_line_start(s, i - 1, a);
    }
}

proof fn lemma_token_start(u: Seq<char>, b: int, a: int)
    requires
        0 <= a <= b <= u.len(),
        forall|k: int| a <= k < b ==> !is_whitespace(u[k]),
        a == 0 || is_whitespace(u[a - 1]),
    ensures
        token_start(u, b) == a,
    decreases b - a,
{
    if a < b {
        lemma_token_start(u, b - 1, a);
    }
}

/// The characters of a text.
fn chars_of(text: &str) -> (r: Vec<char>)
    ensures
        r@ == text@,
{
    let n = text.unicode_len();
    let mut out: Vec<char> = Vec::new();
    let mut i: usize = 0;
    while i < n
        invariant
            n == text@.len(),
            i <= n,
            out@ == text@.subrange(0, i as int),
        decreases n - i,
    {
        out.push(text.get_char(i));
        i = i + 1;
        assert(out@ =~= text@.subrange(0, i as int));
    }
    assert(text@.subrange(0, n as int) =~= text@);
    out
}

/// Index of the first `c` in `cs` from `from` to `to`, or `to`.
fn find_char(cs: &Vec<char>, c: char, from: usize, to: usize) -> (r: usize)
    requires
        from <= to <= cs@.len(),
    ensures
        r == from + next_index_of(cs@.subrange(from as int, to as int), c, 0),
        from <= r <= to,
{
    let ghost t = cs@.subrange(from as int, to as int);
    let mut j: usize = from;
    while j < to && cs[j] != c
        invariant
            from <= j <= to,
            to <= cs@.len(),
            t == cs@.subrange(from as int, to as int),
            forall|k: int| from <= k < j ==> cs@[k] != c,
        decreases to - j,
    {
        j = j + 1;
    }
    proof {
        lemma_next_index(t, c, 0, j - from);
    }
    j
}

/// Whether `pat` occurs in `cs` at `i`.
fn matches_at(cs: &Vec<char>, pat: &Vec<char>, i: usize) -> (r: bool)
    ensures
        r == occurs_at(cs@, pat@, i as int),
{
    if pat.len() > cs.len() || i > cs.len() - pat.len() {
        return false;
    }
    let mut k: usize = 0;
    while k < pat.len()
        invariant
            i + pat.len() <= cs.len(),
            k <= pat@.len(),
            forall|m: int| 0 <= m < k ==> cs@[i + m] == pat@[m],
        decreases pat@.len() - k,
    {
        if cs[i + k] != pat[k] {
            assert(cs@.subrange(i as int, i + pat@.len())[k as int] != pat@[k as int]);
            return false;
        }
        k = k + 1;
    }
    assert(cs@.subrange(i as int, i + pat@.len()) =~= pat@);
    true
}

/// The first line of `cs` that contains `pat`, as its start and end indices.
fn find_line(cs: &Vec<char>, pat: &Vec<char>) -> (r: Option<(usize, usize)>)
    requires
        pat@.len() > 0,
    ensures
        match r {
            None => first_line_with(cs@, pat@) is None,
            Some((a, b)) => a <= b <= cs@.len() && first_line_with(cs@, pat@) == Some(
                cs@.subrange(a as int, b as int),
            ),
        },
{
    let n = cs.len();
    let mut i: usize = 0;
    while i < n
        invariant
            n == cs@.len(),
            i <= n,
            forall|j: int| 0 <= j < i ==> !#[trigger] occurs_at(cs@, pat@, j),
        ensures
            i <= n,
            forall|j: int| 0 <= j < i ==> !#[trigger] occurs_at(cs@, pat@, j),
            i < n ==> occurs_at(cs@, pat@, i as int),
        decreases n - i,
    {
        if matches_at(cs, pat, i) {
            break;
        }
        i = i + 1;
    }
    if i == n {
        assert forall|j: int| !first_occurrence_at(cs@, pat@, j) by {
            if occurs_at(cs@, pat@, j) {
                assert(j < n);
            }
        }
        return None;
    }
    assert(first_occurrence_at(cs@, pat@, i as int));
    let ghost w = choose|w: int| first_occurrence_at(cs@, pat@, w);
    assert(w == i) by {
        if w < i {
            assert(!occurs_at(cs@, pat@, w));
        }
        if w > i {
            assert(!occurs_at(cs@, pat@, i as int));
        }
    }
    let mut a: usize = i;
    while a > 0 && cs[a - 1] != '\n'
        invariant
            a <= i,
            i <= n,
            n == cs@.len(),
            forall|k: int| a <= k < i ==> cs@[k] != '\n',
        decreases a,
    {
        a = a - 1;
    }
    let b = find_char(cs, '\n', i, n);
    proof {
        lemma_line_start(cs@, i as int, a as int);
        lemma_next_index_shift(cs@, '\n', i as int, b as int);
    }
    if b < n && b > a && cs[b - 1] == '\r' {
        Some((a, b - 1))
    } else {
        Some((a, b))
    }
}

proof fn lemma_next_index_shift(s: Seq<char>, c: char, from: int, r: int)
    requires
        0 <= from <= s.len(),
        r == from + next_index_of(s.subrange(from, s.len() as int), c, 0),
    ensures
        next_index_of(s, c, from) == r,
{
    let t = s.subrange(from, s.len() as int);
    lemma_next_index_bounds(t, c, 0);
    let x = r - from;
    lemma_next_index_first(t, c, 0);
    assert forall|k: int| from <= k < r implies s[k] != c by {
        assert(t[k - from] == s[k]);
    }
    lemma_next_index(s, c, from, r);
}

proof fn lemma_next_index_bounds(t: Seq<char>, c: char, a: int)
    requires
        0 <= a <= t.len(),
    ensures
        a <= next_index_of(t, c, a) <= t.len(),
    decreases t.len() - a,
{
    if a < t.len() && t[a] != c {
        lemma_next_index_bounds(t, c, a + 1);
    }
}

proof fn lemma_next_index_first(t: Seq<char>, c: char, a: int)
    requires
        0 <= a <= t.len(),
    ensures
        forall|k: int| a <= k < next_index_of(t, c, a) ==> t[k] != c,
        next_index_of(t, c, a) == t.len() || t[next_index_of(t, c, a)] == c,
    decreases t.len() - a,
{
    if a < t.len() && t[a] != c {
        lemma_next_index_first(t, c, a + 1);
    }
}

/// The platform UUID in the output of `ioreg -rd1 -c IOPlatformExpertDevice`.
pub fn parse_ioreg_uuid(output: &str) -> (r: Option<String>)
    ensures
        text_of(r) == ioreg_uuid(output@),
{
    let cs = chars_of(output);
    let pat = chars_of("IOPlatformUUID");
    proof {
        reveal_strlit("IOPlatformUUID");
    }
    let (a, b) = match find_line(&cs, &pat) {
        Some(bounds) => bounds,
        None => {
            return None;
        },
    };
    let ghost line = cs@.subrange(a as int, b as int);
    assert(ioreg_uuid(output@) == field_of(line, '"', 3));
    let mut off: usize = a;
    let mut k: usize = 0;
    assert(cs@.subrange(off as int, b as int) =~= line);
    while k < 3
        invariant
            a <= off <= b <= cs@.len(),
            k <= 3,
            line == cs@.subrange(a as int, b as int),
            ioreg_uuid(output@) == field_of(line, '"', 3),
            field_of(line, '"', 3) == field_of(cs@.subrange(off as int, b as int), '"', (3 - k) as nat),
        decreases 3 - k,
    {
        let e = find_char(&cs, '"', off, b);
        if e >= b {
            assert(field_of(cs@.subrange(off as int, b as int), '"', (3 - k) as nat) is None);
            return None;
        }
        assert(cs@.subrange(off as int, b as int).subrange(e - off + 1, b - off) =~= cs@.subrange(
            e + 1,
            b as int,
        ));
        off = e + 1;
        k = k + 1;
    }
    let e = find_char(&cs, '"', off, b);
    assert(cs@.subrange(off as int, b as int).subrange(0, e - off) =~= output@.subrange(
        off as int,
        e as int,
    ));
    Some(String::from_str(output.substring_char(off, e)))
}

/// The machine GUID in the output of `reg query ... /v MachineGuid`.
pub fn parse_machine_guid(output: &str) -> (r: Option<String>)
    ensures
        text_of(r) == reg_machine_guid(output@),
{
    let cs = chars_of(output);
    let pat = chars_of("MachineGuid");
    proof {
        reveal_strlit("MachineGuid");
    }
    let (a, b) = match find_line(&cs, &pat) {
        Some(bounds) => bounds,
        None => {
            return None;
        },
    };
    let ghost line = cs@.subrange(a as int, b as int);
    let mut j: usize = b;
    while j > a && is_whitespace_char(cs[j - 1])
        invariant
            a <= j <= b <= cs@.len(),
            line == cs@.subrange(a as int, b as int),
            trim_end_of(cs@.subrange(a as int, j as int)) == trim_end_of(line),
        decreases j,
    {
        assert(cs@.subrange(a as int, j as int).drop_last() =~= cs@.subrange(a as int, j - 1));
        j = j - 1;
    }
    let ghost u = cs@.subrange(a as int, j as int);
    assert(trim_end_of(u) == u);
    if j == a {
        return None;
    }
    let mut t: usize = j;
    while t > a && !is_whitespace_char(cs[t - 1])
        invariant
            a <= t <= j <= cs@.len(),
            u == cs@.subrange(a as int, j as int),
            forall|m: int| t <= m < j ==> !is_whitespace(cs@[m]),
        decreases t,
    {
        t = t - 1;
    }
    proof {
        assert forall|m: int| t - a <= m < j - a implies !is_whitespace(u[m]) by {
            assert(u[m] == cs@[a + m]);
        }
        lemma_token_start(u, j - a, t - a);
    }
    assert(u.subrange(t - a, j - a) =~= output@.subrange(t as int, j as int));
    Some(String::from_str(output.substring_char(t, j)))
}

} // verus!
