use vstd::prelude::*;
use crate::date::{listing_text, Date};
use crate::site::{pages_view, Page, PageMetadata, PageType, PageView};
use crate::text::{chars_of, extend_chars, string_of};

verus! {

pub open spec fn escape_char(c: char) -> Seq<char> {
    if c == '&' {
        "&amp;"@
    } else if c == '<' {
        "&lt;"@
    } else if c == '>' {
        "&gt;"@
    } else if c == '"' {
        "&quot;"@
    } else {
        seq![c]
    }
}

/// `s` with the characters that HTML gives a meaning to written as entities.
pub open spec fn escape_spec(s: Seq<char>) -> Seq<char>
    decreases s.len(),
{
    if s.len() == 0 {
        Seq::empty()
    } else {
        escape_spec(s.drop_last()) + escape_char(s.last())
    }
}

/// Appends `s`, escaped for HTML text and attribute values, to `out`.
pub fn push_escaped(out: &mut Vec<char>, s: &str)
    ensures
        final(out)@ == old(out)@ + escape_spec(s@),
{
    let cs = chars_of(s);
    let mut i: usize = 0;
    while i < cs.len()
        invariant
            i <= cs@.len(),
            cs@ == s@,
            out@ == old(out)@ + escape_spec(cs@.subrange(0, i as int)),
        decreases cs@.len() - i,
    {
        let c = cs[i];
        proof {
            assert(cs@.subrange(0, i + 1).drop_last() =~= cs@.subrange(0, i as int));
        }
        let e: Vec<char> = if c == '&' {
            chars_of("&amp;")
        } else if c == '<' {
            chars_of("&lt;")
        } else if c == '>' {
            chars_of("&gt;")
        } else if c == '"' {
            chars_of("&quot;")
        } else {
            vec![c]
        };
        proof {
            if !(c == '&' || c == '<' || c == '>' || c == '"') {
                assert(e@ =~= seq![c]);
            }
        }
        extend_chars(out, &e);
        i = i + 1;
        proof {
            assert(out@ =~= old(out)@ + escape_spec(cs@.subrange(0, i as int)));
        }
    }
    assert(cs@.subrange(0, cs@.len() as int) =~= cs@);
}

/// `s` escaped for HTML text and attribute values.
pub fn escape_html(s: &str) -> (r: String)
    ensures
        r@ == escape_spec(s@),
{
    let mut out: Vec<char> = Vec::new();
    push_escaped(&mut out, s);
    string_of(&out)
}

/// The pages of `ps` of kind `kind`, in order.
pub open spec fn of_kind(ps: Seq<PageView>, kind: PageType) -> Seq<PageView>
    decreases ps.len(),
{
    if ps.len() == 0 {
        Seq::empty()
    } else if ps.last().page_type == kind {
        of_kind(ps.drop_last(), kind).push(ps.last())
    } else {
        of_kind(ps.drop_last(), kind)
    }
}

/// Every blog post of `ps` carries a date with a four-digit year.
pub open spec fn posts_dated(ps: Seq<PageView>) -> bool {
    forall|i: int| 0 <= i < ps.len() && ps[i].page_type == PageType::BlogPost ==> ps[i].date.wf()
}

/// The homepage entry of one post: its date, and a link to it under its title.
pub open spec fn post_item_spec(p: PageView) -> Seq<char> {
    "<li><span>"@ + listing_text(p.date) + "</span> » <a href=\""@ + escape_spec("/"@ + p.path)
        + "\">"@ + escape_spec(p.title) + "</a></li>"@
}

pub open spec fn items_spec(ps: Seq<PageView>) -> Seq<char>
    decreases ps.len(),
{
    if ps.len() == 0 {
        Seq::empty()
    } else {
        items_spec(ps.drop_last()) + post_item_spec(ps.last())
    }
}

/// The homepage built over the pages `ps`: a list of its blog posts, in their order.
pub open spec fn homepage_spec(ps: Seq<PageView>, today: Date) -> PageView {
    PageView {
        path: "index.html"@,
        contents: "<ul class=\"posts\">"@ + items_spec(of_kind(ps, PageType::BlogPost)) + "</ul>"@,
        title: "jonfk.ca"@,
        date: today,
        page_type: PageType::Homepage,
    }
}

/// Builds the homepage, once every other page exists.
pub struct HomepageGenerator {}

impl HomepageGenerator {
    /// The homepage over the pages generated so far, dated `today`: it links every blog
    /// post among `pages`, in their order.
    pub fn generate(&self, pages: &Vec<Page>, today: Date) -> (r: Vec<Page>)
        requires
            posts_dated(pages_view(pages@)),
        ensures
            pages_view(r@) == seq![homepage_spec(pages_view(pages@), today)],
    {
        let mut out: Vec<char> = chars_of("<ul class=\"posts\">");
        let ghost head = out@;
        let mut i: usize = 0;
        while i < pages.len()
            invariant
                i <= pages@.len(),
                posts_dated(pages_view(pages@)),
                out@ == head + items_spec(
                    of_kind(pages_view(pages@).subrange(0, i as int), PageType::BlogPost),
                ),
            decreases pages@.len() - i,
        {
            let ghost pre = pages_view(pages@).subrange(0, i as int);
            proof {
                assert(pages_view(pages@).subrange(0, i + 1).drop_last() =~= pre);
                assert(pages_view(pages@).subrange(0, i + 1).last() == pages@[i as int]@);
            }
            let page = &pages[i];
            if page.metadata.page_type == PageType::BlogPost {
                proof {
                    assert(pages_view(pages@)[i as int] == page@);
                }
                let ghost before = out@;
                extend_chars(&mut out, &chars_of("<li><span>"));
                page.metadata.date.push_listing(&mut out);
                extend_chars(&mut out, &chars_of("</span> » <a href=\""));
                let mut url: Vec<char> = vec!['/'];
                extend_chars(&mut url, &chars_of(page.path.as_str()));
                push_escaped(&mut out, string_of(&url).as_str());
                extend_chars(&mut out, &chars_of("\">"));
                push_escaped(&mut out, page.metadata.title.as_str());
                extend_chars(&mut out, &chars_of("</a></li>"));
                proof {
                    reveal_strlit("/");
                    assert(url@ =~= "/"@ + page.path@);
                    assert(out@ =~= before + post_item_spec(page@));
                    let k = of_kind(pre, PageType::BlogPost);
                    assert(k.push(page@).drop_last() =~= k);
                    assert(items_spec(k.push(page@)) == items_spec(k) + post_item_spec(page@));
                }
            }
            proof {
                let npre = pages_view(pages@).subrange(0, i + 1);
                assert(npre.drop_last() =~= pre);
                assert(npre.last() == page@);
            }
            i = i + 1;
        }
        extend_chars(&mut out, &chars_of("</ul>"));
        proof {
            assert(pages_view(pages@).subrange(0, pages@.len() as int) =~= pages_view(pages@));
        }
        let page = Page {
            path: "index.html".to_owned(),
            contents: string_of(&out),
            metadata: PageMetadata {
                title: "jonfk.ca".to_owned(),
                date: today,
                page_type: PageType::Homepage,
            },
        };
        let r = vec![page];
        assert(pages_view(r@) =~= seq![homepage_spec(pages_view(pages@), today)]);
        r
    }
}

} // verus!

verus! {

proof fn lemma_items_multiset(s1: Seq<PageView>, s2: Seq<PageView>)
    requires
        s1.to_multiset() == s2.to_multiset(),
    ensures
        s1.map_values(|p: PageView| post_item_spec(p)).to_multiset() == s2.map_values(
            |p: PageView| post_item_spec(p),
        ).to_multiset(),
    decreases s1.len(),
{
    broadcast use vstd::seq_lib::group_to_multiset_ensures, vstd::multiset::group_multiset_axioms;

    let f = |p: PageView| post_item_spec(p);
    if s1.len() == 0 {
        vstd::seq_lib::to_multiset_len(s1);
        vstd::seq_lib::to_multiset_len(s2);
        assert(s2.len() == 0);
        assert(s1.map_values(f) =~= s2.map_values(f));
    } else {
        let x = s1.last();
        let r1 = s1.drop_last();
        assert(s1 =~= r1.push(x));
        assert(s1.to_multiset().count(x) > 0);
        assert(s2.contains(x));
        let i = choose|i: int| 0 <= i < s2.len() && s2[i] == x;
        let r2 = s2.remove(i);
        vstd::seq_lib::to_multiset_remove(s2, i);
        assert(r2.to_multiset() =~= r1.to_multiset());
        lemma_items_multiset(r1, r2);
        assert(s1.map_values(f) =~= r1.map_values(f).push(f(x)));
        assert(s2.map_values(f).remove(i) =~= r2.map_values(f));
        vstd::seq_lib::to_multiset_remove(s2.map_values(f), i);
        assert(s2.map_values(f)[i] == f(x));
        assert(s2.map_values(f).to_multiset().count(f(x)) > 0) by {
            assert(s2.map_values(f).contains(f(x)));
        }
        assert(s2.map_values(f).to_multiset() =~= r2.map_values(f).to_multiset().insert(f(x)));
    }
}

/// Two page collections with the same blog posts, counted with repeats and in any order,
/// give homepages that list the same entries, counted with repeats.
pub proof fn lemma_homepage_entries_by_posts(ps1: Seq<PageView>, ps2: Seq<PageView>)
    requires
        of_kind(ps1, PageType::BlogPost).to_multiset() == of_kind(
            ps2,
            PageType::BlogPost,
        ).to_multiset(),
    ensures
        of_kind(ps1, PageType::BlogPost).map_values(|p: PageView| post_item_spec(p)).to_multiset()
            == of_kind(ps2, PageType::BlogPost).map_values(
            |p: PageView| post_item_spec(p),
        ).to_multiset(),
{
    lemma_items_multiset(of_kind(ps1, PageType::BlogPost), of_kind(ps2, PageType::BlogPost));
}

} // verus!
