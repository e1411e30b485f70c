use vstd::prelude::*;
use crate::date::{date_of_parsed, iso_date_parse_of, iso_text, parse_ymd, Date};
use crate::front_matter::{
    is_delim_line_at, join_spec, lemma_join_then_split, split_front_matter, split_spec,
    FrontMatterSplit,
};
use crate::markdown::{markdown_html_of, render_markdown};
use crate::site::{
    content_result_view, file_name, file_name_spec, is_under_dir, under_dir, ContentError,
    ContentView, Page, PageData, PageMetadata, PageType, PageView, SourceFile,
    SourceFileView,
};
use crate::slug::{slug_spec, slugify};
use crate::text::{chars_of, extend_chars, split_words, string_of, words_spec};
use crate::yaml::{entries_view, lookup, yaml_string_map_of, YamlFields};

pub use crate::site::PostData;

verus! {

/// The front matter of a blog post.
#[derive(Clone, Debug)]
pub struct PostFrontMatter {
    pub title: String,
    /// Tags separated by white space.
    pub tags: String,
}

/// The title and the tag text that the YAML entries `e` give a post: `title` must be a
/// string; `tags`, where present, too, and the tag text is empty where it is missing.
pub open spec fn post_front_matter_of(e: Seq<(Seq<char>, Option<Seq<char>>)>) -> Option<
    (Seq<char>, Seq<char>),
> {
    match (lookup(e, "title"@), lookup(e, "tags"@)) {
        (Some(Some(t)), None) => Some((t, Seq::empty())),
        (Some(Some(t)), Some(Some(g))) => Some((t, g)),
        _ => None,
    }
}

/// The title and the tag text that the YAML document `doc` gives a post.
pub open spec fn post_front_matter_spec(doc: Seq<char>) -> Option<(Seq<char>, Seq<char>)> {
    match yaml_string_map_of(doc) {
        Some(e) => post_front_matter_of(e),
        None => None,
    }
}

impl PostFrontMatter {
    /// The front matter that the YAML entries `fields` give a post; `None` where `title`
    /// is missing or no string, or `tags` is no string.
    pub fn from_fields(fields: &YamlFields) -> (r: Option<PostFrontMatter>)
        ensures
            r is None <==> post_front_matter_of(entries_view(fields.entries@)) is None,
            r matches Some(p) ==> post_front_matter_of(entries_view(fields.entries@)) == Some(
                (p.title@, p.tags@),
            ),
    {
        match (fields.get("title"), fields.get("tags")) {
            (Some(Some(t)), None) => Some(PostFrontMatter { title: t, tags: String::new() }),
            (Some(Some(t)), Some(Some(g))) => Some(PostFrontMatter { title: t, tags: g }),
            _ => None,
        }
    }

    /// Reads the front matter of a post; `None` where the YAML is malformed, `title` is
    /// missing or no string, or `tags` is no string. A post without `tags` has none.
    pub fn from_yaml(doc: &str) -> (r: Option<PostFrontMatter>)
        ensures
            r is None <==> post_front_matter_spec(doc@) is None,
            r matches Some(p) ==> post_front_matter_spec(doc@) == Some((p.title@, p.tags@)),
    {
        match YamlFields::read(doc) {
            Some(f) => PostFrontMatter::from_fields(&f),
            None => None,
        }
    }
}

/// The line that opens and closes a front-matter block.
pub open spec fn delimiter_spec() -> Seq<char> {
    "---"@
}

/// The characters of the file name of `path` that spell the publish date.
pub open spec fn date_prefix(path: Seq<char>) -> Seq<char> {
    let name = file_name_spec(path);
    if name.len() <= 10 {
        name
    } else {
        name.subrange(0, 10)
    }
}

pub open spec fn split_view(s: Option<FrontMatterSplit>) -> Option<(Seq<char>, Seq<char>)> {
    match s {
        Some(p) => Some((p.front_matter@, p.contents@)),
        None => None,
    }
}

pub open spec fn fields_view(f: Option<YamlFields>) -> Option<Seq<(Seq<char>, Option<Seq<char>>)>> {
    match f {
        Some(f) => Some(entries_view(f.entries@)),
        None => None,
    }
}

/// The blog post made of a parsed file-name date `ymd`, the file's split `split` and
/// the entries `fields` read from its front matter; each part is checked in that order.
pub open spec fn post_from_parts_spec(
    ymd: Option<(i32, u32, u32)>,
    split: Option<(Seq<char>, Seq<char>)>,
    fields: Option<Seq<(Seq<char>, Option<Seq<char>>)>>,
) -> Result<ContentView, ContentError> {
    match date_of_parsed(ymd) {
        None => Err(ContentError::DateParse),
        Some(date) => match split {
            None => Err(ContentError::MissingFrontMatter),
            Some((_, body)) => match fields {
                None => Err(ContentError::FrontMatter),
                Some(e) => match post_front_matter_of(e) {
                    None => Err(ContentError::FrontMatter),
                    Some((title, tags)) => Ok(
                        ContentView::Post { title, date, content: body, tags: words_spec(tags) },
                    ),
                },
            },
        },
    }
}

/// The entries read from the front matter of a split, where there is one.
pub open spec fn front_fields_of(split: Option<(Seq<char>, Seq<char>)>) -> Option<
    Seq<(Seq<char>, Option<Seq<char>>)>,
> {
    match split {
        Some((fm, _)) => yaml_string_map_of(fm),
        None => None,
    }
}

/// The blog post that the file `f` holds.
pub open spec fn post_parse_spec(f: SourceFileView) -> Result<ContentView, ContentError> {
    let split = split_spec(f.contents, delimiter_spec());
    post_from_parts_spec(iso_date_parse_of(date_prefix(f.path)), split, front_fields_of(split))
}

/// Parses the markdown blog posts kept under `posts/`.
pub struct BlogPostParser {}

impl BlogPostParser {
    /// Whether this parser reads `file`.
    pub fn supports(&self, file: &SourceFile) -> (r: bool)
        ensures
            r == is_under_dir(file.path@, "posts"@),
    {
        under_dir(file.path.as_str(), "posts")
    }

    /// The post made of a parsed file-name date, the file's front-matter split and the
    /// YAML entries of its front matter: its date, then its title and tags from the
    /// entries, then its markdown body from the split.
    pub fn post_from_parts(
        ymd: Option<(i32, u32, u32)>,
        split: Option<FrontMatterSplit>,
        fields: Option<YamlFields>,
    ) -> (r: Result<PageData, ContentError>)
        ensures
            content_result_view(r) == post_from_parts_spec(ymd, split_view(split), fields_view(fields)),
            r matches Ok(d) ==> d@.wf(),
    {
        let date = match Date::from_parsed(ymd) {
            Some(d) => d,
            None => return Err(ContentError::DateParse),
        };
        let split = match split {
            Some(s) => s,
            None => return Err(ContentError::MissingFrontMatter),
        };
        let fields = match fields {
            Some(f) => f,
            None => return Err(ContentError::FrontMatter),
        };
        let front = match PostFrontMatter::from_fields(&fields) {
            Some(f) => f,
            None => return Err(ContentError::FrontMatter),
        };
        let tags = split_words(front.tags.as_str());
        Ok(PageData::Post(PostData { title: front.title, date, content: split.contents, tags }))
    }

    /// The post held by `file`: its date from the file name's `YYYY-MM-DD` prefix, its
    /// title and tags from the front matter, its markdown body after it.
    pub fn parse(&self, file: &SourceFile) -> (r: Result<PageData, ContentError>)
        ensures
            content_result_view(r) == post_parse_spec(file@),
            r matches Ok(d) ==> d@.wf(),
    {
        let name = file_name(file.path.as_str());
        let mut prefix: Vec<char> = Vec::new();
        let mut i: usize = 0;
        while i < name.len() && i < 10
            invariant
                i <= name@.len(),
                i <= 10,
                prefix@ == name@.subrange(0, i as int),
            decreases name@.len() - i,
        {
            prefix.push(name[i]);
            i = i + 1;
            assert(prefix@ =~= name@.subrange(0, i as int));
        }
        assert(prefix@ =~= date_prefix(file.path@));
        let ymd = match parse_ymd(string_of(&prefix).as_str()) {
            Ok(t) => Some(t),
            Err(_) => None,
        };
        proof {
            reveal_strlit("---");
        }
        let split = split_front_matter(file.contents.as_str(), "---");
        let fields = match &split {
            Some(s) => YamlFields::read(s.front_matter.as_str()),
            None => None,
        };
        BlogPostParser::post_from_parts(ymd, split, fields)
    }
}

/// The output path of a post: `posts/{date}-{slug of title}.html`.
pub open spec fn post_path_spec(title: Seq<char>, date: Date) -> Seq<char> {
    "posts/"@ + iso_text(date) + "-"@ + slug_spec(title) + ".html"@
}

/// The pages generated for a blog post.
pub open spec fn post_pages_spec(c: ContentView) -> Seq<PageView> {
    match c {
        ContentView::Post { title, date, content, .. } => seq![
            PageView {
                path: post_path_spec(title, date),
                contents: markdown_html_of(content),
                title,
                date,
                page_type: PageType::BlogPost,
            },
        ],
        _ => Seq::empty(),
    }
}

/// Renders blog posts into pages.
pub struct BlogPostGenerator {}

impl BlogPostGenerator {
    /// Whether this generator renders `content`.
    pub fn supports(&self, content: &PageData) -> (r: bool)
        ensures
            r == (content@ is Post),
    {
        match content {
            PageData::Post(_) => true,
            _ => false,
        }
    }

    /// One page per post, at `posts/{date}-{slug}.html`, holding the post's markdown
    /// rendered to HTML.
    pub fn generate(&self, content: &PageData) -> (r: Vec<Page>)
        requires
            content@ is Post,
            content@.wf(),
        ensures
            crate::site::pages_view(r@) == post_pages_spec(content@),
    {
        match content {
            PageData::Post(post) => {
                let html = render_markdown(post.content.as_str());
                let mut path: Vec<char> = chars_of("posts/");
                post.date.push_iso(&mut path);
                path.push('-');
                extend_chars(&mut path, &chars_of(slugify(post.title.as_str()).as_str()));
                extend_chars(&mut path, &chars_of(".html"));
                proof {
                    reveal_strlit("-");
                    assert(path@ =~= post_path_spec(post.title@, post.date));
                }
                let page = Page {
                    path: string_of(&path),
                    contents: html,
                    metadata: PageMetadata {
                        title: post.title.clone(),
                        date: post.date,
                        page_type: PageType::BlogPost,
                    },
                };
                let r = vec![page];
                assert(crate::site::pages_view(r@) =~= post_pages_spec(content@));
                r
            },
            _ => Vec::new(),
        }
    }
}

} // verus!

verus! {

/// A file laid out as a delimiter line, a front matter without delimiter lines that ends
/// with a line break, a delimiter line, and a body: parsing it as a post never fails for
/// want of front matter, and a post read from it has exactly that body.
pub proof fn lemma_post_body_round_trip(f: SourceFileView, fm: Seq<char>, body: Seq<char>)
    requires
        fm.len() == 0 || fm.last() == '\n',
        forall|q: int| !is_delim_line_at(fm, delimiter_spec(), q),
        f.contents == join_spec(fm, body, delimiter_spec()),
    ensures
        split_spec(f.contents, delimiter_spec()) == Some((fm, body)),
        post_parse_spec(f) != Err::<ContentView, ContentError>(ContentError::MissingFrontMatter),
        post_parse_spec(f) matches Ok(ContentView::Post { content, .. }) ==> content == body,
{
    reveal_strlit("---");
    lemma_join_then_split(fm, body, delimiter_spec());
}

} // verus!
