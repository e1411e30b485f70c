use vstd::prelude::*;
use crate::date::Date;
use crate::front_matter::{split_front_matter, split_spec, FrontMatterSplit};
use crate::posts::{delimiter_spec, fields_view, front_fields_of, split_view};
use crate::site::{
    content_result_view, is_under_dir, under_dir, ContentError, ContentView, Page,
    PageData, PageMetadata, PageType, PageView, SourceFile, SourceFileView,
};
use crate::slug::{slug_spec, slugify};
use crate::text::{chars_of, extend_chars, string_of};
use crate::yaml::{entries_view, lookup, yaml_string_map_of, YamlFields};

pub use crate::site::HtmlPageData;

verus! {

/// The front matter of an HTML page.
#[derive(Clone, Debug)]
pub struct HtmlPageFrontMatter {
    pub title: String,
}

/// The title that the YAML entries `e` give a page, where it is a string.
pub open spec fn html_front_matter_of(e: Seq<(Seq<char>, Option<Seq<char>>)>) -> Option<Seq<char>> {
    match lookup(e, "title"@) {
        Some(Some(t)) => Some(t),
        _ => None,
    }
}

/// The title that the YAML document `doc` gives a page.
pub open spec fn html_front_matter_spec(doc: Seq<char>) -> Option<Seq<char>> {
    match yaml_string_map_of(doc) {
        Some(e) => html_front_matter_of(e),
        None => None,
    }
}

impl HtmlPageFrontMatter {
    /// The front matter that the YAML entries `fields` give a page; `None` where `title`
    /// is missing or no string.
    pub fn from_fields(fields: &YamlFields) -> (r: Option<HtmlPageFrontMatter>)
        ensures
            r is None <==> html_front_matter_of(entries_view(fields.entries@)) is None,
            r matches Some(p) ==> html_front_matter_of(entries_view(fields.entries@)) == Some(
                p.title@,
            ),
    {
        match fields.get("title") {
            Some(Some(t)) => Some(HtmlPageFrontMatter { title: t }),
            _ => None,
        }
    }

    /// Reads the front matter of a page; `None` where the YAML is malformed or `title`
    /// is missing or no string.
    pub fn from_yaml(doc: &str) -> (r: Option<HtmlPageFrontMatter>)
        ensures
            r is None <==> html_front_matter_spec(doc@) is None,
            r matches Some(p) ==> html_front_matter_spec(doc@) == Some(p.title@),
    {
        match YamlFields::read(doc) {
            Some(f) => HtmlPageFrontMatter::from_fields(&f),
            None => None,
        }
    }
}

/// The HTML page made of a file's split `split`, the entries `fields` read from its
/// front matter, and its modification date.
pub open spec fn html_from_parts_spec(
    split: Option<(Seq<char>, Seq<char>)>,
    fields: Option<Seq<(Seq<char>, Option<Seq<char>>)>>,
    last_modified: Date,
) -> Result<ContentView, ContentError> {
    match split {
        None => Err(ContentError::MissingFrontMatter),
        Some((_, body)) => match fields {
            None => Err(ContentError::FrontMatter),
            Some(e) => match html_front_matter_of(e) {
                None => Err(ContentError::FrontMatter),
                Some(title) => Ok(ContentView::HtmlPage { title, content: body, last_modified }),
            },
        },
    }
}

/// The HTML page that the file `f` holds.
pub open spec fn html_parse_spec(f: SourceFileView) -> Result<ContentView, ContentError> {
    let split = split_spec(f.contents, delimiter_spec());
    html_from_parts_spec(split, front_fields_of(split), f.last_modified)
}

/// Parses the HTML fragment pages kept under `pages/`.
pub struct HtmlPageParser {}

impl HtmlPageParser {
    /// Whether this parser reads `file`.
    pub fn supports(&self, file: &SourceFile) -> (r: bool)
        ensures
            r == is_under_dir(file.path@, "pages"@),
    {
        under_dir(file.path.as_str(), "pages")
    }

    /// The page made of a file's front-matter split, the YAML entries of its front
    /// matter, and its modification date.
    pub fn page_from_parts(
        split: Option<FrontMatterSplit>,
        fields: Option<YamlFields>,
        last_modified: Date,
    ) -> (r: Result<PageData, ContentError>)
        ensures
            content_result_view(r) == html_from_parts_spec(
                split_view(split),
                fields_view(fields),
                last_modified,
            ),
    {
        let split = match split {
            Some(s) => s,
            None => return Err(ContentError::MissingFrontMatter),
        };
        let fields = match fields {
            Some(f) => f,
            None => return Err(ContentError::FrontMatter),
        };
        let front = match HtmlPageFrontMatter::from_fields(&fields) {
            Some(f) => f,
            None => return Err(ContentError::FrontMatter),
        };
        Ok(
            PageData::HtmlPage(
                HtmlPageData { title: front.title, content: split.contents, last_modified },
            ),
        )
    }

    /// The page held by `file`: its title from the front matter, its HTML body after it,
    /// and the file's modification date.
    pub fn parse(&self, file: &SourceFile) -> (r: Result<PageData, ContentError>)
        ensures
            content_result_view(r) == html_parse_spec(file@),
    {
        proof {
            reveal_strlit("---");
        }
        let split = split_front_matter(file.contents.as_str(), "---");
        let fields = match &split {
            Some(s) => YamlFields::read(s.front_matter.as_str()),
            None => None,
        };
        HtmlPageParser::page_from_parts(split, fields, file.last_modified)
    }
}

/// The pages generated for an HTML page: one, at `{slug of title}.html`.
pub open spec fn html_pages_spec(c: ContentView) -> Seq<PageView> {
    match c {
        ContentView::HtmlPage { title, content, last_modified } => seq![
            PageView {
                path: slug_spec(title) + ".html"@,
                contents: content,
                title,
                date: last_modified,
                page_type: PageType::HtmlPage,
            },
        ],
        _ => Seq::empty(),
    }
}

/// Renders HTML pages into output pages.
pub struct HtmlPageGenerator {}

impl HtmlPageGenerator {
    /// Whether this generator renders `content`.
    pub fn supports(&self, content: &PageData) -> (r: bool)
        ensures
            r == (content@ is HtmlPage),
    {
        match content {
            PageData::HtmlPage(_) => true,
            _ => false,
        }
    }

    /// One page, at `{slug of title}.html`, holding the page's HTML as it stands.
    pub fn generate(&self, content: &PageData) -> (r: Vec<Page>)
        requires
            content@ is HtmlPage,
        ensures
            crate::site::pages_view(r@) == html_pages_spec(content@),
    {
        match content {
            PageData::HtmlPage(data) => {
                let mut path: Vec<char> = chars_of(slugify(data.title.as_str()).as_str());
                extend_chars(&mut path, &chars_of(".html"));
                let page = Page {
                    path: string_of(&path),
                    contents: data.content.clone(),
                    metadata: PageMetadata {
                        title: data.title.clone(),
                        date: data.last_modified,
                        page_type: PageType::HtmlPage,
                    },
                };
                let r = vec![page];
                assert(crate::site::pages_view(r@) =~= html_pages_spec(content@));
                r
            },
            _ => Vec::new(),
        }
    }
}

} // verus!

verus! {

/// A file laid out as a delimiter line, a front matter without delimiter lines that ends
/// with a line break, a delimiter line, and a body: parsing it as a page never fails for
/// want of front matter, and a page read from it has exactly that body.
pub proof fn lemma_page_body_round_trip(f: SourceFileView, fm: Seq<char>, body: Seq<char>)
    requires
        fm.len() == 0 || fm.last() == '\n',
        forall|q: int| !crate::front_matter::is_delim_line_at(fm, delimiter_spec(), q),
        f.contents == crate::front_matter::join_spec(fm, body, delimiter_spec()),
    ensures
        html_parse_spec(f) != Err::<ContentView, ContentError>(ContentError::MissingFrontMatter),
        html_parse_spec(f) matches Ok(ContentView::HtmlPage { content, .. }) ==> content == body,
{
    reveal_strlit("---");
    crate::front_matter::lemma_join_then_split(fm, body, delimiter_spec());
}

} // verus!
