use vstd::prelude::*;
use crate::text::{chars_of, extend_chars, string_of};

verus! {

/// A file's text cut at its delimiter lines.
#[derive(Clone, Debug)]
pub struct FrontMatterSplit {
    pub front_matter: String,
    pub contents: String,
}

/// `d` can stand on a line of its own.
pub open spec fn is_line_text(d: Seq<char>) -> bool {
    forall|i: int| 0 <= i < d.len() ==> d[i] != '\n'
}

/// A line equal to `d` starts at position `i` of `s`.
pub open spec fn is_delim_line_at(s: Seq<char>, d: Seq<char>, i: int) -> bool {
    &&& 0 <= i
    &&& i + d.len() <= s.len()
    &&& (i == 0 || s[i - 1] == '\n')
    &&& s.subrange(i, i + d.len()) == d
    &&& (i + d.len() == s.len() || s[i + d.len()] == '\n')
}

/// The first position at or after `lo` where a delimiter line starts.
pub open spec fn first_delim_from(s: Seq<char>, d: Seq<char>, lo: int) -> Option<int>
    decreases s.len() + 1 - lo,
{
    if lo < 0 || lo > s.len() {
        None
    } else if is_delim_line_at(s, d, lo) {
        Some(lo)
    } else {
        first_delim_from(s, d, lo + 1)
    }
}

pub open spec fn min_int(a: int, b: int) -> int {
    if a <= b {
        a
    } else {
        b
    }
}

/// The front matter (between the first two delimiter lines) and the body (after the
/// line break that ends the second), or `None` where fewer than two delimiter lines exist.
pub open spec fn split_spec(s: Seq<char>, d: Seq<char>) -> Option<(Seq<char>, Seq<char>)> {
    match first_delim_from(s, d, 0) {
        Some(a) => match first_delim_from(s, d, a + 1) {
            Some(b) => Some(
                (
                    s.subrange(a + d.len() + 1, b),
                    s.subrange(min_int(b + d.len() + 1, s.len() as int), s.len() as int),
                ),
            ),
            None => None,
        },
        None => None,
    }
}

/// A file of the usual shape: it opens with a delimiter line, and a line break ends
/// the second delimiter line.
pub open spec fn is_front_matter_file(s: Seq<char>, d: Seq<char>) -> bool {
    &&& first_delim_from(s, d, 0) == Some(0int)
    &&& first_delim_from(s, d, 1) matches Some(b) && b + d.len() < s.len()
}

/// The file with front matter `fm` and body `body`, laid out with delimiter `d`.
pub open spec fn join_spec(fm: Seq<char>, body: Seq<char>, d: Seq<char>) -> Seq<char> {
    d + seq!['\n'] + fm + d + seq!['\n'] + body
}

proof fn lemma_first_delim_step(s: Seq<char>, d: Seq<char>, lo: int)
    requires
        0 <= lo <= s.len(),
        !is_delim_line_at(s, d, lo),
    ensures
        first_delim_from(s, d, lo) == first_delim_from(s, d, lo + 1),
{
}

proof fn lemma_first_delim_bounds(s: Seq<char>, d: Seq<char>, lo: int)
    requires
        0 <= lo,
    ensures
        first_delim_from(s, d, lo) matches Some(k) ==> lo <= k && is_delim_line_at(s, d, k),
    decreases s.len() + 1 - lo,
{
    if lo <= s.len() && !is_delim_line_at(s, d, lo) {
        lemma_first_delim_bounds(s, d, lo + 1);
    }
}

/// Splitting a file of the usual shape and joining the two parts again with the same
/// delimiter gives back the file.
pub proof fn lemma_split_then_join(s: Seq<char>, d: Seq<char>)
    requires
        is_line_text(d),
        is_front_matter_file(s, d),
    ensures
        split_spec(s, d) matches Some(p) && join_spec(p.0, p.1, d) == s,
{
    let b = first_delim_from(s, d, 1)->0;
    let n = d.len() as int;
    lemma_first_delim_bounds(s, d, 1);
    lemma_first_delim_bounds(s, d, 0);
    assert(s[n] == '\n');
    assert(s[b - 1] == '\n');
    if b - 1 < n {
        assert(s.subrange(0, n)[b - 1] == d[b - 1]);
    }
    assert(s.subrange(n, n + 1) =~= seq!['\n']);
    assert(s.subrange(b + n, b + n + 1) =~= seq!['\n']);
    assert(s =~= s.subrange(0, n) + s.subrange(n, n + 1) + s.subrange(n + 1, b) + s.subrange(
        b,
        b + n,
    ) + s.subrange(b + n, b + n + 1) + s.subrange(b + n + 1, s.len() as int));
}

proof fn lemma_first_delim_is(s: Seq<char>, d: Seq<char>, lo: int, b: int)
    requires
        0 <= lo <= b <= s.len(),
        is_delim_line_at(s, d, b),
        forall|p: int| lo <= p < b ==> !is_delim_line_at(s, d, p),
    ensures
        first_delim_from(s, d, lo) == Some(b),
    decreases b - lo,
{
    if lo < b {
        lemma_first_delim_is(s, d, lo + 1, b);
    }
}

/// Joining a front matter and a body with a delimiter, then splitting the result at that
/// delimiter, gives back the two parts, where the front matter holds no delimiter line
/// and ends with a line break (or is empty).
pub proof fn lemma_join_then_split(fm: Seq<char>, body: Seq<char>, d: Seq<char>)
    requires
        is_line_text(d),
        fm.len() == 0 || fm.last() == '\n',
        forall|q: int| !is_delim_line_at(fm, d, q),
    ensures
        split_spec(join_spec(fm, body, d), d) == Some((fm, body)),
{
    let s = join_spec(fm, body, d);
    let n = d.len() as int;
    let m = fm.len() as int;
    let b = n + 1 + m;
    assert(s.len() == b + n + 1 + body.len());
    assert forall|k: int| 0 <= k < n implies s[k] == d[k] && s[b + k] == d[k] by {}
    assert forall|k: int| 0 <= k < m implies s[n + 1 + k] == fm[k] by {}
    assert forall|k: int| 0 <= k < body.len() implies s[b + n + 1 + k] == body[k] by {}
    assert(s[n] == '\n');
    assert(s[b + n] == '\n');
    assert(s.subrange(0, n) =~= d);
    assert(s.subrange(b, b + n) =~= d);
    assert(is_delim_line_at(s, d, 0));
    lemma_first_delim_is(s, d, 0, 0);
    assert(s[b - 1] == '\n');
    assert(is_delim_line_at(s, d, b));
    assert forall|p: int| 1 <= p < b implies !is_delim_line_at(s, d, p) by {
        if p <= n {
            assert(s[p - 1] == d[p - 1]);
        } else if is_delim_line_at(s, d, p) {
            let q = p - n - 1;
            if p + n >= b {
                assert(s.subrange(p, p + n)[b - 1 - p] == d[b - 1 - p]);
            }
            assert(fm.subrange(q, q + n) =~= s.subrange(p, p + n));
            assert(fm[q + n] == s[p + n]);
            if q > 0 {
                assert(fm[q - 1] == s[p - 1]);
            }
            assert(is_delim_line_at(fm, d, q));
        }
    }
    lemma_first_delim_is(s, d, 1, b);
    assert(s.subrange(n + 1, b) =~= fm);
    assert(s.subrange(b + n + 1, s.len() as int) =~= body);
}

/// Whether a line equal to `d` starts at position `i` of `s`.
fn delim_line_at(s: &Vec<char>, d: &Vec<char>, i: usize) -> (r: bool)
    requires
        i <= s@.len(),
    ensures
        r == is_delim_line_at(s@, d@, i as int),
{
    if d.len() > s.len() - i {
        return false;
    }
    if i > 0 && s[i - 1] != '\n' {
        return false;
    }
    let mut k: usize = 0;
    while k < d.len()
        invariant
            i + d.len() <= s.len(),
            k <= d@.len(),
            forall|j: int| 0 <= j < k ==> s@[i + j] == d@[j],
        decreases d@.len() - k,
    {
        let pos: usize = i + k;
        if s[pos] != d[k] {
            assert(s@.subrange(i as int, i + d@.len())[k as int] != d@[k as int]);
            return false;
        }
        k = k + 1;
    }
    assert(s@.subrange(i as int, i + d@.len()) =~= d@);
    i + d.len() == s.len() || s[i + d.len()] == '\n'
}

/// The first position at or after `lo` where a delimiter line starts.
fn find_delim_from(s: &Vec<char>, d: &Vec<char>, lo: usize) -> (r: Option<usize>)
    requires
        lo <= s@.len(),
    ensures
        r matches Some(k) ==> first_delim_from(s@, d@, lo as int) == Some(k as int),
        r is None ==> first_delim_from(s@, d@, lo as int) is None,
{
    let mut i: usize = lo;
    while i < s.len()
        invariant
            lo <= i <= s@.len(),
            first_delim_from(s@, d@, lo as int) == first_delim_from(s@, d@, i as int),
        decreases s@.len() + 1 - i,
    {
        if delim_line_at(s, d, i) {
            return Some(i);
        }
        proof {
            lemma_first_delim_step(s@, d@, i as int);
        }
        i = i + 1;
    }
    if delim_line_at(s, d, i) {
        Some(i)
    } else {
        assert(first_delim_from(s@, d@, i + 1) is None);
        None
    }
}

/// Splits `text` at its first two lines equal to `delimiter`: the front matter is what
/// lies between them, the body what follows the second. `None` where fewer than two
/// such lines exist.
pub fn split_front_matter(text: &str, delimiter: &str) -> (r: Option<FrontMatterSplit>)
    requires
        is_line_text(delimiter@),
    ensures
        r is None <==> split_spec(text@, delimiter@) is None,
        r matches Some(p) ==> split_spec(text@, delimiter@) == Some(
            (p.front_matter@, p.contents@),
        ),
{
    let s = chars_of(text);
    let d = chars_of(delimiter);
    let a = match find_delim_from(&s, &d, 0) {
        Some(a) => a,
        None => return None,
    };
    proof {
        lemma_first_delim_bounds(s@, d@, 0);
    }
    if a >= s.len() {
        proof {
            assert(first_delim_from(s@, d@, a + 1) is None);
        }
        return None;
    }
    let b = match find_delim_from(&s, &d, a + 1) {
        Some(b) => b,
        None => return None,
    };
    proof {
        lemma_first_delim_bounds(s@, d@, a + 1);
        assert(s@[b - 1] == '\n');
        if b - 1 < a + d@.len() {
            assert(s@.subrange(a as int, a + d@.len())[b - 1 - a] == d@[b - 1 - a]);
        }
    }
    let mut fm: Vec<char> = Vec::new();
    let mut i: usize = a + d.len() + 1;
    while i < b
        invariant
            a + d@.len() + 1 <= b <= s@.len(),
            a + d@.len() + 1 <= i <= b,
            fm@ == s@.subrange(a + d@.len() + 1, i as int),
        decreases b - i,
    {
        fm.push(s[i]);
        i = i + 1;
        assert(fm@ =~= s@.subrange(a + d@.len() + 1, i as int));
    }
    let mut body: Vec<char> = Vec::new();
    let mut j: usize = if b + d.len() < s.len() {
        b + d.len() + 1
    } else {
        s.len()
    };
    let start: Ghost<int> = Ghost(j as int);
    while j < s.len()
        invariant
            start@ <= j <= s@.len(),
            start@ == min_int(b + d@.len() + 1, s@.len() as int),
            body@ == s@.subrange(start@, j as int),
        decreases s@.len() - j,
    {
        body.push(s[j]);
        j = j + 1;
        assert(body@ =~= s@.subrange(start@, j as int));
    }
    Some(FrontMatterSplit { front_matter: string_of(&fm), contents: string_of(&body) })
}

/// Lays out a file with front matter `front_matter` and body `contents`: a delimiter
/// line, the front matter, a delimiter line, then the body.
pub fn join_front_matter(front_matter: &str, contents: &str, delimiter: &str) -> (r: String)
    ensures
        r@ == join_spec(front_matter@, contents@, delimiter@),
{
    let d = chars_of(delimiter);
    let mut out: Vec<char> = Vec::new();
    extend_chars(&mut out, &d);
    out.push('\n');
    extend_chars(&mut out, &chars_of(front_matter));
    extend_chars(&mut out, &d);
    out.push('\n');
    extend_chars(&mut out, &chars_of(contents));
    string_of(&out)
}

} // verus!
