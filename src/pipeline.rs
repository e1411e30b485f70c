use vstd::prelude::*;
use crate::date::Date;
use crate::homepage::{homepage_spec, posts_dated, HomepageGenerator};
use crate::html_pages::{html_pages_spec, html_parse_spec, HtmlPageGenerator, HtmlPageParser};
use crate::posts::{post_pages_spec, post_parse_spec, BlogPostGenerator, BlogPostParser};
use crate::site::{
    is_under_dir, pages_view, ContentError, ContentView, Page, PageData, PageType, PageView,
    SourceFile, SourceFileView,
};

verus! {

/// A content parser that a site can register.
#[derive(Clone, Copy, Debug, PartialEq, Eq, Structural)]
pub enum ContentParser {
    BlogPost,
    HtmlPage,
}

/// A content generator that a site can register.
#[derive(Clone, Copy, Debug, PartialEq, Eq, Structural)]
pub enum ContentGenerator {
    BlogPost,
    HtmlPage,
}

/// A generator that runs once, over every page that the content generators made.
#[derive(Clone, Copy, Debug, PartialEq, Eq, Structural)]
pub enum OneTimeGenerator {
    Homepage,
}

impl ContentParser {
    pub open spec fn spec_supports(&self, f: SourceFileView) -> bool {
        match self {
            ContentParser::BlogPost => is_under_dir(f.path, "posts"@),
            ContentParser::HtmlPage => is_under_dir(f.path, "pages"@),
        }
    }

    pub open spec fn spec_parse(&self, f: SourceFileView) -> Result<ContentView, ContentError> {
        match self {
            ContentParser::BlogPost => post_parse_spec(f),
            ContentParser::HtmlPage => html_parse_spec(f),
        }
    }

    /// Whether this parser reads `file`.
    pub fn supports(&self, file: &SourceFile) -> (r: bool)
        ensures
            r == self.spec_supports(file@),
    {
        match self {
            ContentParser::BlogPost => BlogPostParser {}.supports(file),
            ContentParser::HtmlPage => HtmlPageParser {}.supports(file),
        }
    }

    pub fn parse(&self, file: &SourceFile) -> (r: Result<PageData, ContentError>)
        ensures
            crate::site::content_result_view(r) == self.spec_parse(file@),
    {
        match self {
            ContentParser::BlogPost => BlogPostParser {}.parse(file),
            ContentParser::HtmlPage => HtmlPageParser {}.parse(file),
        }
    }
}

impl ContentGenerator {
    pub open spec fn spec_supports(&self, c: ContentView) -> bool {
        match self {
            ContentGenerator::BlogPost => c is Post,
            ContentGenerator::HtmlPage => c is HtmlPage,
        }
    }

    pub open spec fn spec_generate(&self, c: ContentView) -> Seq<PageView> {
        match self {
            ContentGenerator::BlogPost => post_pages_spec(c),
            ContentGenerator::HtmlPage => html_pages_spec(c),
        }
    }

    /// Whether this generator renders `content`.
    pub fn supports(&self, content: &PageData) -> (r: bool)
        ensures
            r == self.spec_supports(content@),
    {
        match self {
            ContentGenerator::BlogPost => BlogPostGenerator {}.supports(content),
            ContentGenerator::HtmlPage => HtmlPageGenerator {}.supports(content),
        }
    }

    pub fn generate(&self, content: &PageData) -> (r: Vec<Page>)
        requires
            self.spec_supports(content@),
            content@.wf(),
        ensures
            pages_view(r@) == self.spec_generate(content@),
    {
        match self {
            ContentGenerator::BlogPost => BlogPostGenerator {}.generate(content),
            ContentGenerator::HtmlPage => HtmlPageGenerator {}.generate(content),
        }
    }
}

impl OneTimeGenerator {
    pub open spec fn spec_generate(&self, ps: Seq<PageView>, today: Date) -> Seq<PageView> {
        match self {
            OneTimeGenerator::Homepage => seq![homepage_spec(ps, today)],
        }
    }

    pub fn generate(&self, pages: &Vec<Page>, today: Date) -> (r: Vec<Page>)
        requires
            posts_dated(pages_view(pages@)),
        ensures
            pages_view(r@) == self.spec_generate(pages_view(pages@), today),
    {
        match self {
            OneTimeGenerator::Homepage => HomepageGenerator {}.generate(pages, today),
        }
    }
}

/// Why a build stopped.
#[derive(Clone, Debug)]
pub enum BuildError {
    /// The file at `path` could not be turned into a content item.
    Content { path: String, error: ContentError },
    /// No generator takes the content item read from the file at `path`.
    UnmatchedContent { path: String },
    /// Two pages would be written to `path`.
    PageCollision { path: String },
}

pub enum BuildErrorView {
    Content { path: Seq<char>, error: ContentError },
    UnmatchedContent { path: Seq<char> },
    PageCollision { path: Seq<char> },
}

impl View for BuildError {
    type V = BuildErrorView;

    open spec fn view(&self) -> BuildErrorView {
        match self {
            BuildError::Content { path, error } => BuildErrorView::Content {
                path: path@,
                error: *error,
            },
            BuildError::UnmatchedContent { path } => BuildErrorView::UnmatchedContent {
                path: path@,
            },
            BuildError::PageCollision { path } => BuildErrorView::PageCollision { path: path@ },
        }
    }
}

/// The parsers, content generators and one-time generators of a site, each in the order
/// of registration.
#[derive(Clone, Debug)]
pub struct Site {
    pub parsers: Vec<ContentParser>,
    pub generators: Vec<ContentGenerator>,
    pub one_time: Vec<OneTimeGenerator>,
}

/// The first parser at or after `lo` that supports `f`.
pub open spec fn first_parser_from(ps: Seq<ContentParser>, f: SourceFileView, lo: int) -> Option<int>
    decreases ps.len() - lo,
{
    if lo < 0 || lo >= ps.len() {
        None
    } else if ps[lo].spec_supports(f) {
        Some(lo)
    } else {
        first_parser_from(ps, f, lo + 1)
    }
}

/// The first generator at or after `lo` that supports `c`.
pub open spec fn first_generator_from(gs: Seq<ContentGenerator>, c: ContentView, lo: int) -> Option<int>
    decreases gs.len() - lo,
{
    if lo < 0 || lo >= gs.len() {
        None
    } else if gs[lo].spec_supports(c) {
        Some(lo)
    } else {
        first_generator_from(gs, c, lo + 1)
    }
}

/// The pages made from the one file `f`: none where no parser supports it.
pub open spec fn file_pages_spec(
    ps: Seq<ContentParser>,
    gs: Seq<ContentGenerator>,
    f: SourceFileView,
) -> Result<Seq<PageView>, BuildErrorView> {
    match first_parser_from(ps, f, 0) {
        None => Ok(Seq::empty()),
        Some(i) => match ps[i].spec_parse(f) {
            Err(e) => Err(BuildErrorView::Content { path: f.path, error: e }),
            Ok(c) => match first_generator_from(gs, c, 0) {
                None => Err(BuildErrorView::UnmatchedContent { path: f.path }),
                Some(g) => Ok(gs[g].spec_generate(c)),
            },
        },
    }
}

/// The pages made from the files `fs` in order, or the first error.
pub open spec fn first_phase_spec(
    ps: Seq<ContentParser>,
    gs: Seq<ContentGenerator>,
    fs: Seq<SourceFileView>,
) -> Result<Seq<PageView>, BuildErrorView>
    decreases fs.len(),
{
    if fs.len() == 0 {
        Ok(Seq::empty())
    } else {
        match first_phase_spec(ps, gs, fs.drop_last()) {
            Err(e) => Err(e),
            Ok(pages) => match file_pages_spec(ps, gs, fs.last()) {
                Err(e) => Err(e),
                Ok(more) => Ok(pages + more),
            },
        }
    }
}

/// The pages that the one-time generators `os` make, each over the first-phase pages `ps`.
pub open spec fn one_time_spec(os: Seq<OneTimeGenerator>, ps: Seq<PageView>, today: Date) -> Seq<
    PageView,
>
    decreases os.len(),
{
    if os.len() == 0 {
        Seq::empty()
    } else {
        one_time_spec(os.drop_last(), ps, today) + os.last().spec_generate(ps, today)
    }
}

/// Some page before position `j` has the path of page `j`.
pub open spec fn collides_at(ps: Seq<PageView>, j: int) -> bool {
    exists|i: int| 0 <= i < j && ps[i].path == ps[j].path
}

/// The first position at or after `lo` whose page repeats an earlier page's path.
pub open spec fn first_collision_from(ps: Seq<PageView>, lo: int) -> Option<int>
    decreases ps.len() - lo,
{
    if lo < 0 || lo >= ps.len() {
        None
    } else if collides_at(ps, lo) {
        Some(lo)
    } else {
        first_collision_from(ps, lo + 1)
    }
}

/// No two pages share an output path.
pub open spec fn paths_distinct(ps: Seq<PageView>) -> bool {
    forall|i: int, j: int| 0 <= i < j < ps.len() ==> ps[i].path != ps[j].path
}

pub open spec fn files_view(fs: Seq<SourceFile>) -> Seq<SourceFileView> {
    fs.map_values(|f: SourceFile| f@)
}

/// The whole build: the first-phase pages, then what each one-time generator makes of
/// them, checked for colliding paths.
pub open spec fn build_spec(
    ps: Seq<ContentParser>,
    gs: Seq<ContentGenerator>,
    os: Seq<OneTimeGenerator>,
    fs: Seq<SourceFileView>,
    today: Date,
) -> Result<Seq<PageView>, BuildErrorView> {
    match first_phase_spec(ps, gs, fs) {
        Err(e) => Err(e),
        Ok(first) => {
            let all = first + one_time_spec(os, first, today);
            match first_collision_from(all, 0) {
                Some(j) => Err(BuildErrorView::PageCollision { path: all[j].path }),
                None => Ok(all),
            }
        },
    }
}

pub open spec fn build_result_view(r: Result<Vec<Page>, BuildError>) -> Result<Seq<PageView>, BuildErrorView> {
    match r {
        Ok(v) => Ok(pages_view(v@)),
        Err(e) => Err(e@),
    }
}

proof fn lemma_first_parser_bounds(ps: Seq<ContentParser>, f: SourceFileView, lo: int)
    requires
        0 <= lo,
    ensures
        first_parser_from(ps, f, lo) matches Some(i) ==> lo <= i < ps.len() && ps[i].spec_supports(f)
            && forall|j: int| lo <= j < i ==> !ps[j].spec_supports(f),
        first_parser_from(ps, f, lo) is None ==> forall|j: int|
            lo <= j < ps.len() ==> !ps[j].spec_supports(f),
    decreases ps.len() - lo,
{
    if lo < ps.len() && !ps[lo].spec_supports(f) {
        lemma_first_parser_bounds(ps, f, lo + 1);
    }
}

proof fn lemma_first_generator_bounds(gs: Seq<ContentGenerator>, c: ContentView, lo: int)
    requires
        0 <= lo,
    ensures
        first_generator_from(gs, c, lo) matches Some(i) ==> lo <= i < gs.len() && gs[i].spec_supports(c),
    decreases gs.len() - lo,
{
    if lo < gs.len() && !gs[lo].spec_supports(c) {
        lemma_first_generator_bounds(gs, c, lo + 1);
    }
}

proof fn lemma_posts_dated_concat(a: Seq<PageView>, b: Seq<PageView>)
    requires
        posts_dated(a),
        posts_dated(b),
    ensures
        posts_dated(a + b),
{
    assert forall|i: int|
        0 <= i < (a + b).len() && (a + b)[i].page_type == PageType::BlogPost implies (a
        + b)[i].date.wf() by {
        if i < a.len() {
            assert((a + b)[i] == a[i]);
        } else {
            assert((a + b)[i] == b[i - a.len()]);
        }
    }
}

proof fn lemma_file_pages_dated(ps: Seq<ContentParser>, gs: Seq<ContentGenerator>, f: SourceFileView)
    ensures
        file_pages_spec(ps, gs, f) matches Ok(n) ==> posts_dated(n),
{
}

proof fn lemma_first_phase_dated(ps: Seq<ContentParser>, gs: Seq<ContentGenerator>, fs: Seq<SourceFileView>)
    ensures
        first_phase_spec(ps, gs, fs) matches Ok(n) ==> posts_dated(n),
    decreases fs.len(),
{
    if fs.len() > 0 {
        lemma_first_phase_dated(ps, gs, fs.drop_last());
        lemma_file_pages_dated(ps, gs, fs.last());
        if let Ok(pages) = first_phase_spec(ps, gs, fs.drop_last()) {
            if let Ok(more) = file_pages_spec(ps, gs, fs.last()) {
                lemma_posts_dated_concat(pages, more);
            }
        }
    }
}

proof fn lemma_first_collision_bounds(ps: Seq<PageView>, lo: int)
    requires
        0 <= lo,
    ensures
        first_collision_from(ps, lo) matches Some(j) ==> lo <= j < ps.len() && collides_at(ps, j),
        first_collision_from(ps, lo) is None ==> forall|j: int|
            lo <= j < ps.len() ==> !collides_at(ps, j),
    decreases ps.len() - lo,
{
    if lo < ps.len() && !collides_at(ps, lo) {
        lemma_first_collision_bounds(ps, lo + 1);
    }
}

/// A build whose collision check found nothing has pairwise distinct paths.
proof fn lemma_no_collision_distinct(ps: Seq<PageView>)
    requires
        first_collision_from(ps, 0) is None,
    ensures
        paths_distinct(ps),
{
    lemma_first_collision_bounds(ps, 0);
    assert forall|i: int, j: int| 0 <= i < j < ps.len() implies ps[i].path != ps[j].path by {
        if ps[i].path == ps[j].path {
            assert(collides_at(ps, j));
        }
    }
}

proof fn lemma_pages_view_concat(a: Seq<Page>, b: Seq<Page>)
    ensures
        pages_view(a + b) == pages_view(a) + pages_view(b),
{
    assert(pages_view(a + b) =~= pages_view(a) + pages_view(b));
}

/// Appends the pages of `src` to `dst`.
fn append_pages(dst: &mut Vec<Page>, src: Vec<Page>)
    ensures
        final(dst)@ == old(dst)@ + src@,
{
    let mut src = src;
    dst.append(&mut src);
}

/// The first position of `pages` whose path repeats an earlier page's path.
pub fn find_collision(pages: &Vec<Page>) -> (r: Option<usize>)
    ensures
        r matches Some(j) ==> first_collision_from(pages_view(pages@), 0) == Some(j as int),
        r is None ==> first_collision_from(pages_view(pages@), 0) is None,
{
    let ghost ps = pages_view(pages@);
    let mut j: usize = 0;
    while j < pages.len()
        invariant
            j <= pages@.len(),
            ps == pages_view(pages@),
            first_collision_from(ps, 0) == first_collision_from(ps, j as int),
        decreases pages@.len() - j,
    {
        let mut i: usize = 0;
        while i < j
            invariant
                i <= j < pages@.len(),
                ps == pages_view(pages@),
                first_collision_from(ps, 0) == first_collision_from(ps, j as int),
                forall|k: int| 0 <= k < i ==> ps[k].path != ps[j as int].path,
            decreases j - i,
        {
            if pages[i].path == pages[j].path {
                proof {
                    assert(ps[i as int].path == ps[j as int].path);
                    assert(collides_at(ps, j as int));
                    assert(first_collision_from(ps, j as int) == Some(j as int));
                }
                return Some(j);
            }
            i = i + 1;
        }
        proof {
            assert(!collides_at(ps, j as int));
        }
        j = j + 1;
    }
    None
}

impl Site {
    /// A site with nothing registered.
    pub fn new() -> (r: Site)
        ensures
            r.parsers@ == Seq::<ContentParser>::empty(),
            r.generators@ == Seq::<ContentGenerator>::empty(),
            r.one_time@ == Seq::<OneTimeGenerator>::empty(),
    {
        Site { parsers: Vec::new(), generators: Vec::new(), one_time: Vec::new() }
    }

    /// The site with `p` registered after its parsers.
    pub fn register_parser(self, p: ContentParser) -> (r: Site)
        ensures
            r.parsers@ == self.parsers@.push(p),
            r.generators@ == self.generators@,
            r.one_time@ == self.one_time@,
    {
        let mut s = self;
        s.parsers.push(p);
        s
    }

    /// The site with `g` registered after its content generators.
    pub fn register_content_generator(self, g: ContentGenerator) -> (r: Site)
        ensures
            r.parsers@ == self.parsers@,
            r.generators@ == self.generators@.push(g),
            r.one_time@ == self.one_time@,
    {
        let mut s = self;
        s.generators.push(g);
        s
    }

    /// The site with `o` registered after its one-time generators.
    pub fn register_onetime_generator(self, o: OneTimeGenerator) -> (r: Site)
        ensures
            r.parsers@ == self.parsers@,
            r.generators@ == self.generators@,
            r.one_time@ == self.one_time@.push(o),
    {
        let mut s = self;
        s.one_time.push(o);
        s
    }

    /// The blog's site: blog posts under `posts/`, HTML pages under `pages/`, each with
    /// its generator, and the homepage over them.
    pub fn standard() -> (r: Site)
        ensures
            r.parsers@ == seq![ContentParser::BlogPost, ContentParser::HtmlPage],
            r.generators@ == seq![ContentGenerator::BlogPost, ContentGenerator::HtmlPage],
            r.one_time@ == seq![OneTimeGenerator::Homepage],
    {
        let r = Site::new().register_parser(ContentParser::BlogPost).register_content_generator(
            ContentGenerator::BlogPost,
        ).register_parser(ContentParser::HtmlPage).register_content_generator(
            ContentGenerator::HtmlPage,
        ).register_onetime_generator(OneTimeGenerator::Homepage);
        assert(r.parsers@ =~= seq![ContentParser::BlogPost, ContentParser::HtmlPage]);
        assert(r.generators@ =~= seq![ContentGenerator::BlogPost, ContentGenerator::HtmlPage]);
        assert(r.one_time@ =~= seq![OneTimeGenerator::Homepage]);
        r
    }

    /// The first registered parser that supports `file`.
    pub fn parser_for(&self, file: &SourceFile) -> (r: Option<usize>)
        ensures
            r matches Some(i) ==> first_parser_from(self.parsers@, file@, 0) == Some(i as int),
            r is None ==> first_parser_from(self.parsers@, file@, 0) is None,
    {
        let mut i: usize = 0;
        while i < self.parsers.len()
            invariant
                i <= self.parsers@.len(),
                first_parser_from(self.parsers@, file@, 0) == first_parser_from(
                    self.parsers@,
                    file@,
                    i as int,
                ),
            decreases self.parsers@.len() - i,
        {
            if self.parsers[i].supports(file) {
                return Some(i);
            }
            i = i + 1;
        }
        None
    }

    /// The first registered content generator that supports `content`.
    pub fn generator_for(&self, content: &PageData) -> (r: Option<usize>)
        ensures
            r matches Some(i) ==> first_generator_from(self.generators@, content@, 0) == Some(
                i as int,
            ),
            r is None ==> first_generator_from(self.generators@, content@, 0) is None,
    {
        let mut i: usize = 0;
        while i < self.generators.len()
            invariant
                i <= self.generators@.len(),
                first_generator_from(self.generators@, content@, 0) == first_generator_from(
                    self.generators@,
                    content@,
                    i as int,
                ),
            decreases self.generators@.len() - i,
        {
            if self.generators[i].supports(content) {
                return Some(i);
            }
            i = i + 1;
        }
        None
    }

    /// The pages made from `file`: the first parser that supports it reads it, and the
    /// first generator that supports the result renders it. None where no parser
    /// supports the file.
    pub fn pages_for_file(&self, file: &SourceFile) -> (r: Result<Vec<Page>, BuildError>)
        ensures
            build_result_view(r) == file_pages_spec(self.parsers@, self.generators@, file@),
    {
        let i = match self.parser_for(file) {
            Some(i) => i,
            None => {
                let r: Vec<Page> = Vec::new();
                assert(pages_view(r@) =~= Seq::<PageView>::empty());
                return Ok(r);
            },
        };
        proof {
            lemma_first_parser_bounds(self.parsers@, file@, 0);
        }
        let content = match self.parsers[i].parse(file) {
            Ok(c) => c,
            Err(e) => return Err(BuildError::Content { path: file.path.clone(), error: e }),
        };
        let g = match self.generator_for(&content) {
            Some(g) => g,
            None => return Err(BuildError::UnmatchedContent { path: file.path.clone() }),
        };
        proof {
            lemma_first_generator_bounds(self.generators@, content@, 0);
        }
        Ok(self.generators[g].generate(&content))
    }

    /// Builds every page of the site from `files`: each file's pages in the order of the
    /// files, then the pages of each one-time generator, which sees exactly the pages of
    /// the first phase. Stops at the first error; fails where two pages share a path.
    pub fn build(&self, files: &Vec<SourceFile>, today: Date) -> (r: Result<Vec<Page>, BuildError>)
        ensures
            build_result_view(r) == build_spec(
                self.parsers@,
                self.generators@,
                self.one_time@,
                files_view(files@),
                today,
            ),
            r matches Ok(v) ==> paths_distinct(pages_view(v@)),
    {
        let ghost ps = self.parsers@;
        let ghost gs = self.generators@;
        let ghost fs = files_view(files@);
        let mut first: Vec<Page> = Vec::new();
        let mut k: usize = 0;
        proof {
            assert(fs.subrange(0, 0) =~= Seq::<SourceFileView>::empty());
            assert(pages_view(first@) =~= Seq::<PageView>::empty());
        }
        while k < files.len()
            invariant
                k <= files@.len(),
                fs == files_view(files@),
                ps == self.parsers@,
                gs == self.generators@,
                first_phase_spec(ps, gs, fs.subrange(0, k as int)) == Ok::<
                    Seq<PageView>,
                    BuildErrorView,
                >(pages_view(first@)),
            decreases files@.len() - k,
        {
            let ghost pre = fs.subrange(0, k as int);
            proof {
                assert(fs.subrange(0, k + 1).drop_last() =~= pre);
                assert(fs.subrange(0, k + 1).last() == files@[k as int]@);
            }
            let more = match self.pages_for_file(&files[k]) {
                Ok(m) => m,
                Err(e) => {
                    proof {
                        lemma_first_phase_prefix_err(ps, gs, fs, k as int + 1);
                    }
                    return Err(e);
                },
            };
            let ghost before = first@;
            append_pages(&mut first, more);
            proof {
                lemma_pages_view_concat(before, more@);
            }
            k = k + 1;
        }
        proof {
            assert(fs.subrange(0, fs.len() as int) =~= fs);
            lemma_first_phase_dated(ps, gs, fs);
        }
        let mut extra: Vec<Page> = Vec::new();
        let mut m: usize = 0;
        while m < self.one_time.len()
            invariant
                m <= self.one_time@.len(),
                posts_dated(pages_view(first@)),
                pages_view(extra@) == one_time_spec(
                    self.one_time@.subrange(0, m as int),
                    pages_view(first@),
                    today,
                ),
            decreases self.one_time@.len() - m,
        {
            proof {
                assert(self.one_time@.subrange(0, m + 1).drop_last() =~= self.one_time@.subrange(
                    0,
                    m as int,
                ));
            }
            let made = self.one_time[m].generate(&first, today);
            let ghost before = extra@;
            append_pages(&mut extra, made);
            proof {
                lemma_pages_view_concat(before, made@);
            }
            m = m + 1;
        }
        proof {
            assert(self.one_time@.subrange(0, self.one_time@.len() as int) =~= self.one_time@);
        }
        let ghost before = first@;
        append_pages(&mut first, extra);
        proof {
            lemma_pages_view_concat(before, extra@);
        }
        match find_collision(&first) {
            Some(j) => {
                proof {
                    lemma_first_collision_bounds(pages_view(first@), 0);
                }
                Err(BuildError::PageCollision { path: first[j].path.clone() })
            },
            None => {
                proof {
                    lemma_no_collision_distinct(pages_view(first@));
                }
                Ok(first)
            },
        }
    }
}

/// Once the first `k` files fail, the whole first phase fails with the same error.
proof fn lemma_first_phase_prefix_err(
    ps: Seq<ContentParser>,
    gs: Seq<ContentGenerator>,
    fs: Seq<SourceFileView>,
    k: int,
)
    requires
        0 <= k <= fs.len(),
        first_phase_spec(ps, gs, fs.subrange(0, k)) is Err,
    ensures
        first_phase_spec(ps, gs, fs) == first_phase_spec(ps, gs, fs.subrange(0, k)),
    decreases fs.len() - k,
{
    if k == fs.len() {
        assert(fs.subrange(0, k) =~= fs);
    } else {
        assert(fs.subrange(0, k + 1).drop_last() =~= fs.subrange(0, k));
        lemma_first_phase_prefix_err(ps, gs, fs, k + 1);
    }
}

/// Dispatch of a source file is decided by registration order: the parser chosen for a
/// file supports it and no parser registered before it does; where none is chosen, no
/// registered parser supports the file.
pub proof fn lemma_parser_dispatch(ps: Seq<ContentParser>, f: SourceFileView)
    ensures
        first_parser_from(ps, f, 0) matches Some(i) ==> 0 <= i < ps.len() && ps[i].spec_supports(f)
            && forall|j: int| 0 <= j < i ==> !ps[j].spec_supports(f),
        first_parser_from(ps, f, 0) is None ==> forall|j: int|
            0 <= j < ps.len() ==> !ps[j].spec_supports(f),
{
    lemma_first_parser_bounds(ps, f, 0);
}

/// A build in which two pages would share a path fails with a page collision.
pub proof fn lemma_colliding_paths_rejected(
    ps: Seq<ContentParser>,
    gs: Seq<ContentGenerator>,
    os: Seq<OneTimeGenerator>,
    fs: Seq<SourceFileView>,
    today: Date,
    i: int,
    j: int,
)
    requires
        first_phase_spec(ps, gs, fs) is Ok,
        ({
            let first = first_phase_spec(ps, gs, fs)->Ok_0;
            let all = first + one_time_spec(os, first, today);
            0 <= i < j < all.len() && all[i].path == all[j].path
        }),
    ensures
        build_spec(ps, gs, os, fs, today) is Err,
        build_spec(ps, gs, os, fs, today)->Err_0 is PageCollision,
{
    let first = first_phase_spec(ps, gs, fs)->Ok_0;
    let all = first + one_time_spec(os, first, today);
    lemma_first_collision_bounds(all, 0);
    assert(collides_at(all, j));
}

/// A successful build never holds two pages at one path.
pub proof fn lemma_built_paths_distinct(
    ps: Seq<ContentParser>,
    gs: Seq<ContentGenerator>,
    os: Seq<OneTimeGenerator>,
    fs: Seq<SourceFileView>,
    today: Date,
)
    ensures
        build_spec(ps, gs, os, fs, today) matches Ok(all) ==> paths_distinct(all),
{
    if let Ok(first) = first_phase_spec(ps, gs, fs) {
        let all = first + one_time_spec(os, first, today);
        if first_collision_from(all, 0) is None {
            lemma_no_collision_distinct(all);
        }
    }
}

proof fn lemma_contains_push(s: Seq<PageView>, x: PageView, p: PageView)
    ensures
        s.push(x).contains(p) <==> (s.contains(p) || p == x),
{
    if s.contains(p) {
        let i = choose|i: int| 0 <= i < s.len() && s[i] == p;
        assert(s.push(x)[i] == p);
    }
    if p == x {
        assert(s.push(x)[s.len() as int] == p);
    }
    if s.push(x).contains(p) {
        let i = choose|i: int| 0 <= i < s.push(x).len() && s.push(x)[i] == p;
        if i < s.len() {
            assert(s[i] == p);
        }
    }
}

/// A page is listed among the pages of a kind exactly when it is one of the pages and
/// has that kind.
pub proof fn lemma_of_kind_exact(pages: Seq<PageView>, kind: PageType)
    ensures
        forall|p: PageView|
            #[trigger] crate::homepage::of_kind(pages, kind).contains(p) <==> (pages.contains(p)
                && p.page_type == kind),
    decreases pages.len(),
{
    if pages.len() > 0 {
        let rest = pages.drop_last();
        let last = pages.last();
        let k = crate::homepage::of_kind(rest, kind);
        lemma_of_kind_exact(rest, kind);
        assert(pages =~= rest.push(last));
        assert forall|p: PageView| #[trigger]
            crate::homepage::of_kind(pages, kind).contains(p) <==> (pages.contains(p)
                && p.page_type == kind) by {
            lemma_contains_push(rest, last, p);
            lemma_contains_push(k, last, p);
            assert(k.contains(p) <==> (rest.contains(p) && p.page_type == kind));
        }
    } else {
        assert forall|p: PageView| #[trigger]
            crate::homepage::of_kind(pages, kind).contains(p) <==> (pages.contains(p)
                && p.page_type == kind) by {
            if pages.contains(p) {
                let i = choose|i: int| 0 <= i < pages.len() && pages[i] == p;
            }
        }
    }
}

/// Every one-time generator is handed the complete first phase: on a successful build,
/// the homepage that the pipeline makes lists exactly the blog-post pages among all pages
/// made from the files.
pub proof fn lemma_homepage_sees_every_post(
    ps: Seq<ContentParser>,
    gs: Seq<ContentGenerator>,
    fs: Seq<SourceFileView>,
    today: Date,
)
    requires
        first_phase_spec(ps, gs, fs) is Ok,
    ensures
        ({
            let first = first_phase_spec(ps, gs, fs)->Ok_0;
            &&& one_time_spec(seq![OneTimeGenerator::Homepage], first, today) == seq![
                homepage_spec(first, today),
            ]
            &&& forall|p: PageView|
                #[trigger] crate::homepage::of_kind(first, PageType::BlogPost).contains(p) <==> (
                first.contains(p) && p.page_type == PageType::BlogPost)
        }),
{
    let first = first_phase_spec(ps, gs, fs)->Ok_0;
    let os = seq![OneTimeGenerator::Homepage];
    assert(os.drop_last() =~= Seq::<OneTimeGenerator>::empty());
    assert(os.last() == OneTimeGenerator::Homepage);
    assert(one_time_spec(os.drop_last(), first, today) == Seq::<PageView>::empty());
    assert(one_time_spec(os, first, today) =~= seq![homepage_spec(first, today)]);
    lemma_of_kind_exact(first, PageType::BlogPost);
}

proof fn lemma_file_pages_generator_order(ps: Seq<ContentParser>, f: SourceFileView)
    ensures
        file_pages_spec(ps, seq![ContentGenerator::BlogPost, ContentGenerator::HtmlPage], f)
            == file_pages_spec(ps, seq![ContentGenerator::HtmlPage, ContentGenerator::BlogPost], f),
{
    let g1 = seq![ContentGenerator::BlogPost, ContentGenerator::HtmlPage];
    let g2 = seq![ContentGenerator::HtmlPage, ContentGenerator::BlogPost];
    if let Some(i) = first_parser_from(ps, f, 0) {
        if let Ok(c) = ps[i].spec_parse(f) {
            assert(first_generator_from(g1, c, 2) is None);
            assert(first_generator_from(g2, c, 2) is None);
            match c {
                ContentView::Post { .. } => {
                    assert(first_generator_from(g1, c, 0) == Some(0int));
                    assert(first_generator_from(g2, c, 1) == Some(1int));
                    assert(first_generator_from(g2, c, 0) == Some(1int));
                },
                ContentView::HtmlPage { .. } => {
                    assert(first_generator_from(g1, c, 1) == Some(1int));
                    assert(first_generator_from(g1, c, 0) == Some(1int));
                    assert(first_generator_from(g2, c, 0) == Some(0int));
                },
            }
        }
    }
}

/// The order in which the blog-post and HTML-page generators are registered changes
/// nothing in the first phase, so one-time generators see the same pages either way.
pub proof fn lemma_generator_order_irrelevant(ps: Seq<ContentParser>, fs: Seq<SourceFileView>)
    ensures
        first_phase_spec(ps, seq![ContentGenerator::BlogPost, ContentGenerator::HtmlPage], fs)
            == first_phase_spec(
            ps,
            seq![ContentGenerator::HtmlPage, ContentGenerator::BlogPost],
            fs,
        ),
    decreases fs.len(),
{
    if fs.len() > 0 {
        lemma_generator_order_irrelevant(ps, fs.drop_last());
        lemma_file_pages_generator_order(ps, fs.last());
    }
}

} // verus!
