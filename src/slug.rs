use vstd::prelude::*;
use crate::text::{chars_of, is_white_space, string_of, white_space};

verus! {

/// The character that takes the place of each run of other characters in a slug.
pub const JOIN_CHAR: char = '_';

/// The lower-case form of `s`, as `str::to_lowercase` maps it.
pub uninterp spec fn lower_of(s: Seq<char>) -> Seq<char>;

/// Whether `char::is_alphanumeric` holds of `c` (Unicode alphabetic or numeric).
pub uninterp spec fn alphanumeric_of(c: char) -> bool;

/// Relies on `str::to_lowercase`: the result depends on the characters of `s` alone.
#[verifier::external_body]
fn lowercase(s: &str) -> (r: String)
    ensures
        r@ == lower_of(s@),
{
    s.to_lowercase()
}

/// Relies on `char::is_alphanumeric`: a property of the character alone.
#[verifier::external_body]
fn alphanumeric(c: char) -> (r: bool)
    ensures
        r == alphanumeric_of(c),
{
    c.is_alphanumeric()
}

/// A character that a slug keeps: a letter or digit that is not white space.
pub open spec fn is_slug_char(c: char) -> bool {
    alphanumeric_of(c) && !is_white_space(c)
}

/// `s` with each run of characters other than letters and digits (white space,
/// punctuation, symbols) replaced by one join character.
pub open spec fn join_runs(s: Seq<char>) -> Seq<char>
    decreases s.len(),
{
    if s.len() == 0 {
        Seq::empty()
    } else {
        let p = join_runs(s.drop_last());
        let c = s.last();
        if is_slug_char(c) {
            p.push(c)
        } else if p.len() > 0 && p.last() == JOIN_CHAR {
            p
        } else {
            p.push(JOIN_CHAR)
        }
    }
}

/// The slug of a title: lower-cased, then each run of white space or punctuation
/// replaced by one join character.
pub open spec fn slug_spec(title: Seq<char>) -> Seq<char> {
    join_runs(lower_of(title))
}

/// The slug of text that is already lower-cased: each run of characters other than
/// letters and digits becomes one join character.
pub fn slug_of_lowered(lowered: &str) -> (r: String)
    ensures
        r@ == join_runs(lowered@),
{
    let s = chars_of(lowered);
    let mut out: Vec<char> = Vec::new();
    let mut i: usize = 0;
    while i < s.len()
        invariant
            i <= s@.len(),
            s@ == lowered@,
            out@ == join_runs(s@.subrange(0, i as int)),
        decreases s@.len() - i,
    {
        let c = s[i];
        proof {
            assert(s@.subrange(0, i + 1).drop_last() =~= s@.subrange(0, i as int));
        }
        if alphanumeric(c) && !white_space(c) {
            out.push(c);
        } else if out.len() > 0 && out[out.len() - 1] == JOIN_CHAR {
        } else {
            out.push(JOIN_CHAR);
        }
        i = i + 1;
    }
    assert(s@.subrange(0, s@.len() as int) =~= s@);
    string_of(&out)
}

/// The file-name form of a title, as in `hello_world` for `Hello World`.
pub fn slugify(title: &str) -> (r: String)
    ensures
        r@ == slug_spec(title@),
{
    let lowered = lowercase(title);
    slug_of_lowered(lowered.as_str())
}

} // verus!
