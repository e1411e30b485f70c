use vstd::prelude::*;

verus! {

/// Relies on `str::chars` collected into a `Vec`: the characters of `s`, in order.
#[verifier::external_body]
pub(crate) fn chars_of(s: &str) -> (r: Vec<char>)
    ensures
        r@ == s@,
{
    s.chars().collect()
}

/// Relies on `String`'s `FromIterator<char>`: the string made of the characters of `v`.
#[verifier::external_body]
pub(crate) fn string_of(v: &Vec<char>) -> (r: String)
    ensures
        r@ == v@,
{
    v.iter().collect()
}

/// Appends the characters of `src` to `dst`.
pub(crate) fn extend_chars(dst: &mut Vec<char>, src: &Vec<char>)
    ensures
        final(dst)@ == old(dst)@ + src@,
{
    let mut i: usize = 0;
    while i < src.len()
        invariant
            i <= src@.len(),
            dst@ == old(dst)@ + src@.subrange(0, i as int),
        decreases src@.len() - i,
    {
        dst.push(src[i]);
        i = i + 1;
        assert(src@.subrange(0, i as int) == src@.subrange(0, i - 1).push(src@[i - 1]));
    }
    assert(src@.subrange(0, src@.len() as int) == src@);
}

/// A character of Unicode's `White_Space` property.
pub open spec fn is_white_space(c: char) -> bool {
    let u = c as u32;
    (0x09 <= u <= 0x0d) || u == 0x20 || u == 0x85 || u == 0xa0 || u == 0x1680 || (0x2000 <= u
        <= 0x200a) || u == 0x2028 || u == 0x2029 || u == 0x202f || u == 0x205f || u == 0x3000
}

pub fn white_space(c: char) -> (r: bool)
    ensures
        r == is_white_space(c),
{
    let u = c as u32;
    (0x09 <= u && u <= 0x0d) || u == 0x20 || u == 0x85 || u == 0xa0 || u == 0x1680 || (0x2000 <= u
        && u <= 0x200a) || u == 0x2028 || u == 0x2029 || u == 0x202f || u == 0x205f || u == 0x3000
}

/// The maximal runs of non-white-space characters of `s`, in order.
pub open spec fn words_spec(s: Seq<char>) -> Seq<Seq<char>>
    decreases s.len(),
{
    if s.len() == 0 {
        Seq::empty()
    } else {
        let p = s.drop_last();
        let w = words_spec(p);
        let c = s.last();
        if is_white_space(c) {
            w
        } else if p.len() > 0 && !is_white_space(p.last()) && w.len() > 0 {
            w.drop_last().push(w.last().push(c))
        } else {
            w.push(seq![c])
        }
    }
}

pub open spec fn strings_view(v: Seq<String>) -> Seq<Seq<char>> {
    v.map_values(|x: String| x@)
}

proof fn lemma_words_last_nonempty(s: Seq<char>)
    ensures
        s.len() > 0 && !is_white_space(s.last()) ==> words_spec(s).len() > 0,
    decreases s.len(),
{
    if s.len() > 0 {
        lemma_words_last_nonempty(s.drop_last());
    }
}

/// The words of `s`: its maximal runs of non-white-space characters, in order.
pub fn split_words(s: &str) -> (r: Vec<String>)
    ensures
        strings_view(r@) == words_spec(s@),
{
    let cs = chars_of(s);
    let mut done: Vec<String> = Vec::new();
    let mut cur: Vec<char> = Vec::new();
    let mut i: usize = 0;
    while i < cs.len()
        invariant
            i <= cs@.len(),
            cs@ == s@,
            ({
                let pre = cs@.subrange(0, i as int);
                if i > 0 && !is_white_space(cs@[i - 1]) {
                    words_spec(pre) == strings_view(done@).push(cur@)
                } else {
                    words_spec(pre) == strings_view(done@) && cur@.len() == 0
                }
            }),
        decreases cs@.len() - i,
    {
        let c = cs[i];
        let pre = Ghost(cs@.subrange(0, i as int));
        proof {
            assert(cs@.subrange(0, i + 1).drop_last() =~= pre@);
            lemma_words_last_nonempty(pre@);
        }
        if white_space(c) {
            if i > 0 && !white_space(cs[i - 1]) {
                let ghost d0 = done@;
                let w = string_of(&cur);
                done.push(w);
                cur = Vec::new();
                proof {
                    assert(strings_view(done@) =~= strings_view(d0).push(w@));
                }
            }
        } else {
            cur.push(c);
            proof {
                if !(i > 0 && !is_white_space(cs@[i - 1])) {
                    assert(cur@ =~= seq![c]);
                }
            }
        }
        i = i + 1;
    }
    if i > 0 && !white_space(cs[i - 1]) {
        let ghost d0 = done@;
        let w = string_of(&cur);
        done.push(w);
        proof {
            assert(strings_view(done@) =~= strings_view(d0).push(w@));
        }
    }
    assert(cs@.subrange(0, cs@.len() as int) =~= cs@);
    done
}

} // verus!
