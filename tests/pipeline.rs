use jonfk_ca::cli::{output_path, Opt};
use jonfk_ca::date::Date;
use jonfk_ca::front_matter::{join_front_matter, split_front_matter, FrontMatterSplit};
use jonfk_ca::homepage::{escape_html, HomepageGenerator};
use jonfk_ca::html_pages::{HtmlPageFrontMatter, HtmlPageGenerator, HtmlPageParser};
use jonfk_ca::pipeline::{
    find_collision, BuildError, ContentGenerator, ContentParser, OneTimeGenerator, Site,
};
use jonfk_ca::posts::{BlogPostGenerator, BlogPostParser, PostFrontMatter};
use jonfk_ca::site::{
    file_name, under_dir, ContentError, Page, PageData, PageMetadata, PageType, SourceFile,
};
use jonfk_ca::slug::{slug_of_lowered, slugify};
use jonfk_ca::yaml::YamlFields;
use jonfk_ca::text::split_words;

fn day(year: i32, month: u32, day: u32) -> Date {
    Date { year, month, day }
}

fn file(path: &str, contents: &str) -> SourceFile {
    SourceFile {
        path: path.to_string(),
        contents: contents.to_string(),
        last_modified: day(2024, 1, 2),
    }
}

fn page(path: &str, title: &str, date: Date, page_type: PageType) -> Page {
    Page {
        path: path.to_string(),
        contents: String::new(),
        metadata: PageMetadata { title: title.to_string(), date, page_type },
    }
}

#[test]
fn split_then_join_gives_back_the_file() {
    let text = "---\ntitle: Hello World\ntags: a b\n---\n# Hi\n\nsome text\n";
    let split = split_front_matter(text, "---").unwrap();
    assert_eq!(split.front_matter, "title: Hello World\ntags: a b\n");
    assert_eq!(split.contents, "# Hi\n\nsome text\n");
    assert_eq!(join_front_matter(&split.front_matter, &split.contents, "---"), text);
}

#[test]
fn split_ignores_text_before_first_delimiter_and_later_delimiters() {
    let split = split_front_matter("intro\n---\na: b\n---\nbody\n---\nmore", "---").unwrap();
    assert_eq!(split.front_matter, "a: b\n");
    assert_eq!(split.contents, "body\n---\nmore");
}

#[test]
fn split_needs_whole_delimiter_lines() {
    assert!(split_front_matter("----\na: b\n---x\nbody", "---").is_none());
    assert!(split_front_matter("---\na: b\n", "---").is_none());
    assert!(split_front_matter("no front matter at all", "---").is_none());
    assert!(split_front_matter("", "---").is_none());
}

#[test]
fn split_with_delimiter_at_end_of_file() {
    let split = split_front_matter("---\na: b\n---", "---").unwrap();
    assert_eq!(split.front_matter, "a: b\n");
    assert_eq!(split.contents, "");
}

#[test]
fn slugs_lower_case_and_join_runs() {
    assert_eq!(slugify("Hello World"), "hello_world");
    assert_eq!(slugify("Hello,  World!"), "hello_world_");
    assert_eq!(slugify("Rust 2018 - Ed."), "rust_2018_ed_");
    assert_eq!(slugify(""), "");
    assert_eq!(slugify("Café au lait"), "café_au_lait");
}

#[test]
fn slugs_of_non_ascii_titles() {
    assert_eq!(slugify("\u{a0}"), "_");
    assert_eq!(slugify("Été\u{a0}Déjà"), "été_déjà");
    assert_eq!(slugify("Hello — «World»"), "hello_world_");
    assert_eq!(slugify("ÀB\u{3000}C"), "àb_c");
}

#[test]
fn slug_of_lowered_text() {
    assert_eq!(slug_of_lowered("hello world"), "hello_world");
    assert_eq!(slug_of_lowered("a--b"), "a_b");
    assert_eq!(slug_of_lowered("\u{a0}x\u{2003}"), "_x_");
    assert_eq!(slug_of_lowered(""), "");
}

#[test]
fn hello_world_from_parts() {
    let split = FrontMatterSplit {
        front_matter: "title: Hello World\n".to_string(),
        contents: "# Hi".to_string(),
    };
    let fields = YamlFields {
        entries: vec![("title".to_string(), Some("Hello World".to_string()))],
    };
    let item = BlogPostParser::post_from_parts(Some((2023, 4, 1)), Some(split.clone()), Some(fields))
        .unwrap();
    match &item {
        PageData::Post(p) => {
            assert_eq!(p.title, "Hello World");
            assert_eq!(p.date, day(2023, 4, 1));
            assert_eq!(p.content, "# Hi");
            assert!(p.tags.is_empty());
        }
        _ => panic!("expected a post"),
    }
    assert!(matches!(
        BlogPostParser::post_from_parts(Some((2023, 2, 30)), Some(split.clone()), None),
        Err(ContentError::DateParse)
    ));
    assert!(matches!(
        BlogPostParser::post_from_parts(Some((2023, 4, 1)), None, None),
        Err(ContentError::MissingFrontMatter)
    ));
    let untitled = YamlFields { entries: vec![("title".to_string(), None)] };
    assert!(matches!(
        BlogPostParser::post_from_parts(Some((2023, 4, 1)), Some(split), Some(untitled)),
        Err(ContentError::FrontMatter)
    ));
}

#[test]
fn html_page_from_parts() {
    let split = FrontMatterSplit {
        front_matter: "title: About\n".to_string(),
        contents: "<p>x</p>".to_string(),
    };
    let fields = YamlFields { entries: vec![("title".to_string(), Some("About".to_string()))] };
    match HtmlPageParser::page_from_parts(Some(split), Some(fields), day(2020, 1, 1)).unwrap() {
        PageData::HtmlPage(h) => {
            assert_eq!(h.title, "About");
            assert_eq!(h.content, "<p>x</p>");
            assert_eq!(h.last_modified, day(2020, 1, 1));
        }
        _ => panic!("expected a page"),
    }
    assert!(matches!(
        HtmlPageParser::page_from_parts(None, None, day(2020, 1, 1)),
        Err(ContentError::MissingFrontMatter)
    ));
}

#[test]
fn dates_from_parsed_triples() {
    assert_eq!(Date::from_parsed(Some((2023, 4, 1))), Some(day(2023, 4, 1)));
    assert_eq!(Date::from_parsed(Some((2023, 2, 29))), None);
    assert_eq!(Date::from_parsed(Some((12345, 1, 1))), None);
    assert_eq!(Date::from_parsed(None), None);
}

#[test]
fn front_matter_with_list_and_map_values() {
    let doc = "title: Hello\ncategories: [a, b]\nextra:\n  k: v\n";
    let fm = PostFrontMatter::from_yaml(doc).unwrap();
    assert_eq!(fm.title, "Hello");
    assert_eq!(fm.tags, "");
    let fields = YamlFields::read(doc).unwrap();
    assert_eq!(fields.get("categories"), Some(None));
    assert_eq!(fields.get("title"), Some(Some("Hello".to_string())));
    assert_eq!(fields.get("missing"), None);
    assert!(PostFrontMatter::from_yaml("title: [a]\n").is_none());
    assert!(PostFrontMatter::from_yaml("title: A\ntags: [a]\n").is_none());
}

#[test]
fn dates_parse_and_print() {
    let d = Date::parse_iso("2023-04-01").unwrap();
    assert_eq!(d, day(2023, 4, 1));
    assert_eq!(d.to_iso_string(), "2023-04-01");
    assert_eq!(day(7, 12, 9).to_iso_string(), "0007-12-09");
    assert!(Date::parse_iso("2023-02-30").is_none());
    assert!(Date::parse_iso("2023-13-01").is_none());
    assert!(Date::parse_iso("hello-worl").is_none());
    assert_eq!(Date::parse_iso("2024-02-29"), Some(day(2024, 2, 29)));
}

#[test]
fn date_validity() {
    assert!(day(2024, 2, 29).is_valid());
    assert!(!day(2023, 2, 29).is_valid());
    assert!(day(2000, 2, 29).is_valid());
    assert!(!day(1900, 2, 29).is_valid());
    assert!(!day(2023, 4, 31).is_valid());
    assert!(!day(10000, 1, 1).is_valid());
    assert!(!day(-1, 1, 1).is_valid());
    assert!(!day(2023, 0, 1).is_valid());
}

#[test]
fn date_listing_form() {
    let mut out: Vec<char> = Vec::new();
    day(2023, 4, 1).push_listing(&mut out);
    assert_eq!(out.iter().collect::<String>(), "01 Apr 2023");
}

#[test]
fn words_split_on_white_space() {
    assert_eq!(split_words("  rust  web\tblog\n"), vec!["rust", "web", "blog"]);
    assert!(split_words("").is_empty());
    assert!(split_words(" \u{3000} ").is_empty());
    assert_eq!(split_words("one"), vec!["one"]);
}

#[test]
fn paths_and_directories() {
    assert!(under_dir("posts/2023-04-01-a.md", "posts"));
    assert!(under_dir("posts", "posts"));
    assert!(!under_dir("postscript/a.md", "posts"));
    assert!(!under_dir("pages/posts/a.md", "posts"));
    assert_eq!(file_name("posts/2023/a.md").iter().collect::<String>(), "a.md");
    assert_eq!(file_name("a.md").iter().collect::<String>(), "a.md");
}

#[test]
fn post_front_matter_fields() {
    let fm = PostFrontMatter::from_yaml("title: Hello\ntags: a b\n").unwrap();
    assert_eq!(fm.title, "Hello");
    assert_eq!(fm.tags, "a b");
    let no_tags = PostFrontMatter::from_yaml("title: Hello\n").unwrap();
    assert_eq!(no_tags.tags, "");
    assert!(PostFrontMatter::from_yaml("tags: a b\n").is_none());
    assert!(PostFrontMatter::from_yaml("title: [unclosed\n").is_none());
    assert_eq!(HtmlPageFrontMatter::from_yaml("title: About\n").unwrap().title, "About");
}

#[test]
fn hello_world_post_is_parsed_and_rendered() {
    let f = file("posts/2023-04-01-hello-world.md", "---\ntitle: Hello World\n---\n# Hi");
    let parser = BlogPostParser {};
    assert!(parser.supports(&f));
    let item = parser.parse(&f).unwrap();
    match &item {
        PageData::Post(p) => {
            assert_eq!(p.title, "Hello World");
            assert_eq!(p.date, day(2023, 4, 1));
            assert_eq!(p.content, "# Hi");
            assert!(p.tags.is_empty());
        }
        _ => panic!("expected a post"),
    }
    let generator = BlogPostGenerator {};
    assert!(generator.supports(&item));
    let pages = generator.generate(&item);
    assert_eq!(pages.len(), 1);
    assert_eq!(pages[0].path, "posts/2023-04-01-hello_world.html");
    assert!(pages[0].contents.contains("<h1>Hi</h1>"));
    assert_eq!(pages[0].metadata.page_type, PageType::BlogPost);
    assert_eq!(pages[0].metadata.title, "Hello World");
}

#[test]
fn post_tags_are_split() {
    let f = file("posts/2020-01-05-x.md", "---\ntitle: X\ntags: rust  web\n---\nbody");
    let parsed = (BlogPostParser {}).parse(&f).unwrap();
    match parsed {
        PageData::Post(p) => assert_eq!(p.tags, vec!["rust", "web"]),
        _ => panic!("expected a post"),
    }
}

#[test]
fn missing_delimiters_fail_to_parse() {
    let f = file("posts/2023-04-01-hello-world.md", "title: Hello World\n# Hi");
    assert!(matches!(
        BlogPostParser {}.parse(&f),
        Err(ContentError::MissingFrontMatter)
    ));
    let site = Site::standard();
    match site.build(&vec![f], day(2024, 1, 1)) {
        Err(BuildError::Content { path, error }) => {
            assert_eq!(path, "posts/2023-04-01-hello-world.md");
            assert_eq!(error, ContentError::MissingFrontMatter);
        }
        _ => panic!("expected a parse error"),
    }
}

#[test]
fn bad_date_prefix_fails() {
    let f = file("posts/hello-world.md", "---\ntitle: Hello\n---\nbody");
    assert!(matches!(BlogPostParser {}.parse(&f), Err(ContentError::DateParse)));
    let f = file("posts/2023-02-30-x.md", "---\ntitle: Hello\n---\nbody");
    assert!(matches!(BlogPostParser {}.parse(&f), Err(ContentError::DateParse)));
}

#[test]
fn bad_front_matter_fails() {
    let f = file("posts/2023-04-01-x.md", "---\nname: Hello\n---\nbody");
    assert!(matches!(BlogPostParser {}.parse(&f), Err(ContentError::FrontMatter)));
    let f = file("pages/about.html", "---\ntitle: [oops\n---\nbody");
    assert!(matches!(HtmlPageParser {}.parse(&f), Err(ContentError::FrontMatter)));
}

#[test]
fn html_page_is_parsed_and_rendered() {
    let f = file("pages/about.html", "---\ntitle: About Me\n---\n<p>hi</p>\n");
    let parser = HtmlPageParser {};
    assert!(parser.supports(&f));
    assert!(!BlogPostParser {}.supports(&f));
    let item = parser.parse(&f).unwrap();
    let generator = HtmlPageGenerator {};
    assert!(generator.supports(&item));
    assert!(!BlogPostGenerator {}.supports(&item));
    let pages = generator.generate(&item);
    assert_eq!(pages.len(), 1);
    assert_eq!(pages[0].path, "about_me.html");
    assert_eq!(pages[0].contents, "<p>hi</p>\n");
    assert_eq!(pages[0].metadata.date, day(2024, 1, 2));
    assert_eq!(pages[0].metadata.page_type, PageType::HtmlPage);
}

#[test]
fn same_slug_posts_collide() {
    let a = file("posts/2023-04-01-a.md", "---\ntitle: Hello World\n---\none");
    let b = file("posts/2023-04-01-b.md", "---\ntitle: hello world\n---\ntwo");
    match Site::standard().build(&vec![a, b], day(2024, 1, 1)) {
        Err(BuildError::PageCollision { path }) => {
            assert_eq!(path, "posts/2023-04-01-hello_world.html")
        }
        _ => panic!("expected a page collision"),
    }
}

#[test]
fn collision_found_at_first_repeat() {
    let d = day(2020, 1, 1);
    let pages = vec![
        page("a.html", "a", d, PageType::HtmlPage),
        page("b.html", "b", d, PageType::HtmlPage),
        page("c.html", "c", d, PageType::HtmlPage),
        page("b.html", "b", d, PageType::HtmlPage),
        page("a.html", "a", d, PageType::HtmlPage),
    ];
    assert_eq!(find_collision(&pages), Some(3));
    assert_eq!(find_collision(&pages[..3].to_vec()), None);
}

#[test]
fn full_build_lists_posts_on_homepage() {
    let files = vec![
        file("posts/2023-04-01-hello.md", "---\ntitle: Hello World\n---\n# Hi"),
        file("pages/about.html", "---\ntitle: About\n---\n<p>me</p>"),
        file("static/css/screen.css", "body {}"),
        file("posts/2022-01-09-second.md", "---\ntitle: A <b> & c\ntags: x\n---\ntext"),
    ];
    let pages = Site::standard().build(&files, day(2024, 5, 6)).unwrap();
    let paths: Vec<&str> = pages.iter().map(|p| p.path.as_str()).collect();
    assert_eq!(
        paths,
        vec![
            "posts/2023-04-01-hello_world.html",
            "about.html",
            "posts/2022-01-09-a_b_c.html",
            "index.html"
        ]
    );
    let home = &pages[3];
    assert_eq!(home.metadata.page_type, PageType::Homepage);
    assert_eq!(home.metadata.title, "jonfk.ca");
    assert_eq!(home.metadata.date, day(2024, 5, 6));
    assert_eq!(
        home.contents,
        "<ul class=\"posts\"><li><span>01 Apr 2023</span> » <a href=\"/posts/2023-04-01-hello_world.html\">Hello World</a></li><li><span>09 Jan 2022</span> » <a href=\"/posts/2022-01-09-a_b_c.html\">A &lt;b&gt; &amp; c</a></li></ul>"
    );
}

#[test]
fn homepage_sees_same_posts_whatever_generator_order() {
    let files = vec![
        file("pages/about.html", "---\ntitle: About\n---\n<p>me</p>"),
        file("posts/2023-04-01-hello.md", "---\ntitle: Hello World\n---\n# Hi"),
    ];
    let one = Site::standard();
    let two = Site::new()
        .register_parser(ContentParser::HtmlPage)
        .register_parser(ContentParser::BlogPost)
        .register_content_generator(ContentGenerator::HtmlPage)
        .register_content_generator(ContentGenerator::BlogPost)
        .register_onetime_generator(OneTimeGenerator::Homepage);
    let a = one.build(&files, day(2024, 1, 1)).unwrap();
    let b = two.build(&files, day(2024, 1, 1)).unwrap();
    assert_eq!(a.len(), 3);
    assert_eq!(a[2].contents, b[2].contents);
    assert!(a[2].contents.contains("Hello World"));
    assert!(!a[2].contents.contains("About"));
}

#[test]
fn homepage_over_no_posts() {
    let d = day(2020, 1, 1);
    let pages = vec![page("about.html", "About", d, PageType::HtmlPage)];
    let home = HomepageGenerator {}.generate(&pages, day(2021, 3, 4));
    assert_eq!(home.len(), 1);
    assert_eq!(home[0].path, "index.html");
    assert_eq!(home[0].contents, "<ul class=\"posts\"></ul>");
}

#[test]
fn unmatched_content_is_an_error() {
    let site = Site::new().register_parser(ContentParser::BlogPost);
    let f = file("posts/2023-04-01-a.md", "---\ntitle: A\n---\nx");
    match site.build(&vec![f], day(2024, 1, 1)) {
        Err(BuildError::UnmatchedContent { path }) => assert_eq!(path, "posts/2023-04-01-a.md"),
        _ => panic!("expected unmatched content"),
    }
}

#[test]
fn files_without_parser_are_skipped() {
    let site = Site::new()
        .register_parser(ContentParser::BlogPost)
        .register_content_generator(ContentGenerator::BlogPost);
    let f = file("static/logo.svg", "<svg/>");
    assert!(site.build(&vec![f], day(2024, 1, 1)).unwrap().is_empty());
    assert_eq!(site.parser_for(&file("x/y", "")), None);
    assert_eq!(Site::standard().parser_for(&file("pages/a", "")), Some(1));
}

#[test]
fn escaping_html() {
    assert_eq!(escape_html("a<b>&\"c\""), "a&lt;b&gt;&amp;&quot;c&quot;");
    assert_eq!(escape_html("plain"), "plain");
}

#[test]
fn configuration_and_output_paths() {
    let opt = Opt {
        disable_rm_target: false,
        verbose: 0,
        input: "content".to_string(),
        output: "public".to_string(),
    };
    let config = opt.configuration();
    assert!(config.remove_output);
    assert_eq!(config.static_dirs, vec!["static"]);
    assert_eq!(config.input, "content");
    assert_eq!(output_path("public", "posts/a.html"), "public/posts/a.html");
}
