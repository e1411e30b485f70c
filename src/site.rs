use vstd::prelude::*;
use crate::date::Date;
use crate::text::{chars_of, strings_view};

verus! {

/// What a source file failed on while it was turned into a content item.
#[derive(Clone, Copy, Debug, PartialEq, Eq, Structural)]
pub enum ContentError {
    /// Fewer than two front-matter delimiter lines.
    MissingFrontMatter,
    /// The front matter is malformed or lacks a required field.
    FrontMatter,
    /// The file name does not start with a valid `YYYY-MM-DD` date.
    DateParse,
}

/// A file read from under the input root.
#[derive(Clone, Debug)]
pub struct SourceFile {
    /// Path relative to the input root, components separated by `/`.
    pub path: String,
    pub contents: String,
    pub last_modified: Date,
}

pub struct SourceFileView {
    pub path: Seq<char>,
    pub contents: Seq<char>,
    pub last_modified: Date,
}

impl View for SourceFile {
    type V = SourceFileView;

    open spec fn view(&self) -> SourceFileView {
        SourceFileView {
            path: self.path@,
            contents: self.contents@,
            last_modified: self.last_modified,
        }
    }
}

/// A blog post read from a markdown file.
#[derive(Clone, Debug)]
pub struct PostData {
    pub title: String,
    pub date: Date,
    pub content: String,
    pub tags: Vec<String>,
}

/// A page read from an HTML fragment file.
#[derive(Clone, Debug)]
pub struct HtmlPageData {
    pub title: String,
    pub content: String,
    pub last_modified: Date,
}

/// A typed content item, made by a parser from one source file.
#[derive(Clone, Debug)]
pub enum PageData {
    Post(PostData),
    HtmlPage(HtmlPageData),
}

pub enum ContentView {
    Post { title: Seq<char>, date: Date, content: Seq<char>, tags: Seq<Seq<char>> },
    HtmlPage { title: Seq<char>, content: Seq<char>, last_modified: Date },
}

impl ContentView {
    /// Its dates are days of the calendar with four-digit years.
    pub open spec fn wf(&self) -> bool {
        match self {
            ContentView::Post { date, .. } => date.wf(),
            ContentView::HtmlPage { .. } => true,
        }
    }
}

impl View for PageData {
    type V = ContentView;

    open spec fn view(&self) -> ContentView {
        match self {
            PageData::Post(p) => ContentView::Post {
                title: p.title@,
                date: p.date,
                content: p.content@,
                tags: strings_view(p.tags@),
            },
            PageData::HtmlPage(h) => ContentView::HtmlPage {
                title: h.title@,
                content: h.content@,
                last_modified: h.last_modified,
            },
        }
    }
}

/// The kind of page that a generator built.
#[derive(Clone, Copy, Debug, PartialEq, Eq, Structural)]
pub enum PageType {
    BlogPost,
    HtmlPage,
    Homepage,
}

/// What a page records of its origin, for the pages that aggregate others.
#[derive(Clone, Debug)]
pub struct PageMetadata {
    pub title: String,
    pub date: Date,
    pub page_type: PageType,
}

/// An output page: its path relative to the output root, its rendered body, and its
/// metadata. The site template is laid around the body when the page is written.
#[derive(Clone, Debug)]
pub struct Page {
    pub path: String,
    pub contents: String,
    pub metadata: PageMetadata,
}

pub struct PageView {
    pub path: Seq<char>,
    pub contents: Seq<char>,
    pub title: Seq<char>,
    pub date: Date,
    pub page_type: PageType,
}

impl View for Page {
    type V = PageView;

    open spec fn view(&self) -> PageView {
        PageView {
            path: self.path@,
            contents: self.contents@,
            title: self.metadata.title@,
            date: self.metadata.date,
            page_type: self.metadata.page_type,
        }
    }
}

pub open spec fn pages_view(v: Seq<Page>) -> Seq<PageView> {
    v.map_values(|p: Page| p@)
}

/// `path` is `dir` or lies under it.
pub open spec fn is_under_dir(path: Seq<char>, dir: Seq<char>) -> bool {
    path == dir || (path.len() > dir.len() && path.subrange(0, dir.len() as int) == dir
        && path[dir.len() as int] == '/')
}

/// Whether the relative path `path` is the directory `dir` or lies under it, component
/// by component.
pub fn under_dir(path: &str, dir: &str) -> (r: bool)
    ensures
        r == is_under_dir(path@, dir@),
{
    let p = chars_of(path);
    let d = chars_of(dir);
    if p.len() < d.len() {
        return false;
    }
    let mut i: usize = 0;
    while i < d.len()
        invariant
            d@.len() <= p@.len(),
            i <= d@.len(),
            p@ == path@,
            d@ == dir@,
            forall|j: int| 0 <= j < i ==> p@[j] == d@[j],
        decreases d@.len() - i,
    {
        if p[i] != d[i] {
            assert(p@.subrange(0, d@.len() as int)[i as int] != d@[i as int]);
            return false;
        }
        i = i + 1;
    }
    assert(p@.subrange(0, d@.len() as int) =~= d@);
    if p.len() == d.len() {
        assert(p@ =~= d@);
        true
    } else {
        p[d.len()] == '/'
    }
}

/// The last position of `c` in `s` before `hi`, or -1.
pub open spec fn last_index_before(s: Seq<char>, c: char, hi: int) -> int
    decreases hi,
{
    if hi <= 0 {
        -1
    } else if s[hi - 1] == c {
        hi - 1
    } else {
        last_index_before(s, c, hi - 1)
    }
}

/// The last component of a `/`-separated path.
pub open spec fn file_name_spec(path: Seq<char>) -> Seq<char> {
    path.subrange(last_index_before(path, '/', path.len() as int) + 1, path.len() as int)
}

proof fn lemma_last_index_bounds(s: Seq<char>, c: char, hi: int)
    requires
        hi <= s.len(),
    ensures
        -1 <= last_index_before(s, c, hi) < hi || (hi <= 0 && last_index_before(s, c, hi) == -1),
    decreases hi,
{
    if hi > 0 && s[hi - 1] != c {
        lemma_last_index_bounds(s, c, hi - 1);
    }
}

/// The characters of the last component of `path`.
pub fn file_name(path: &str) -> (r: Vec<char>)
    ensures
        r@ == file_name_spec(path@),
{
    let p = chars_of(path);
    let mut i: usize = p.len();
    while i > 0 && p[i - 1] != '/'
        invariant
            i <= p@.len(),
            p@ == path@,
            last_index_before(p@, '/', p@.len() as int) == last_index_before(p@, '/', i as int),
        decreases i,
    {
        i = i - 1;
    }
    proof {
        lemma_last_index_bounds(p@, '/', p@.len() as int);
    }
    let mut out: Vec<char> = Vec::new();
    let mut j: usize = i;
    while j < p.len()
        invariant
            i <= j <= p@.len(),
            p@ == path@,
            i as int == last_index_before(p@, '/', p@.len() as int) + 1,
            out@ == p@.subrange(i as int, j as int),
        decreases p@.len() - j,
    {
        out.push(p[j]);
        j = j + 1;
        assert(out@ =~= p@.subrange(i as int, j as int));
    }
    out
}

} // verus!

verus! {

pub open spec fn content_result_view(r: Result<PageData, ContentError>) -> Result<ContentView, ContentError> {
    match r {
        Ok(d) => Ok(d@),
        Err(e) => Err(e),
    }
}

} // verus!
