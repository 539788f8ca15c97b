use timug::config::{ConfigSection, Template, TemplateConfig, TimugConfig};
use timug::context::{build_context, BuildPhase, TimugContext};
use timug::date::DateTime;
use timug::document::MarkdownDocument;
use timug::error::Error;
use timug::output::{get_slug, join_path, page_output_path, page_url, post_output_path, post_url, tag_output_path, OutputKind};
use timug::page::{Page, PageMeta};
use timug::post::{Post, PostMeta};
use timug::tools::parse_yaml_front_matter;

fn config(deploy: &str) -> TimugConfig {
    TimugConfig {
        title: "Blog".to_string(),
        description: String::new(),
        blog_path: "/site".to_string(),
        lang: "en".to_string(),
        theme: "default".to_string(),
        deployment_folder: deploy.to_string(),
        site_url: String::new(),
        author: String::new(),
        email: String::new(),
        contacts: vec![],
        navs: vec![],
        sections: vec![],
    }
}

fn context(draft: bool) -> TimugContext {
    let template = Template::new(
        TemplateConfig {
            name: "default".to_string(),
            pre_process: vec![],
            process: vec!["tailwind -o {publish-folder}/site.css".to_string()],
            post_process: vec![],
            git_repo: None,
            version: "1".to_string(),
        },
        "/site/templates/default".to_string(),
    );
    build_context(config("deployment"), template, None, draft)
}

fn post_meta(title: &str, date: &str, tags: &[&str], draft: bool) -> PostMeta {
    PostMeta {
        title: title.to_string(),
        date: Some(date.to_string()),
        slug: String::new(),
        tags: tags.iter().map(|t| t.to_string()).collect(),
        draft,
    }
}

fn posts_page() -> Page {
    let meta = PageMeta { title: String::new(), slug: String::new(), draft: false, render: false, order: 0, extra: vec![] };
    Page::load_from_parts(Ok(meta), "{{ posts }}", "/site/templates/default/posts.html").unwrap()
}

#[test]
fn single_post_is_written_by_date() {
    let content = "---\ntitle: Hello\ndate: 2024-01-02 10:00:00\n---\n# Hi";
    let front = parse_yaml_front_matter(content);
    assert_eq!(front.metadata, Some("title: Hello\ndate: 2024-01-02 10:00:00"));
    let post = Post::load_from_parts(Ok(post_meta("Hello", "2024-01-02 10:00:00", &[], false)), front.content, "posts/hello.md").unwrap();
    assert_eq!(post_output_path("deployment", &post), "deployment/2024/1/2/hello.html");
    assert!(!MarkdownDocument::needs_expansion(post.content()));
    let html = MarkdownDocument::to_html(post.content());
    assert!(html.contains("<h1>Hi</h1>"));
}

#[test]
fn tag_listing_puts_newer_post_first() {
    let mut ctx = context(false);
    let jan = Post::load_from_parts(Ok(post_meta("Jan", "2024-01-01 00:00:00", &["rust"], false)), "", "posts/jan.md").unwrap();
    let feb = Post::load_from_parts(Ok(post_meta("Feb", "2024-02-01 00:00:00", &["rust"], false)), "", "posts/feb.md").unwrap();
    ctx.load_content(vec![jan, feb], vec![posts_page()], vec![]);
    let outputs = ctx.outputs();
    let tag_out = outputs.iter().find(|o| o.path == "deployment/tags/rust.html").unwrap();
    let OutputKind::Tag(t) = tag_out.kind else { panic!("not a tag listing") };
    let listed: Vec<&str> = ctx.tags.tags[t].posts.iter().map(|&i| ctx.posts.posts[i].slug.as_str()).collect();
    assert_eq!(listed, vec!["feb", "jan"]);
}

#[test]
fn draft_post_is_not_written() {
    let mut ctx = context(false);
    let draft = Post::load_from_parts(Ok(post_meta("Wip", "2024-05-01 00:00:00", &["wip"], true)), "", "posts/wip.md").unwrap();
    let done = Post::load_from_parts(Ok(post_meta("Done", "2024-04-01 00:00:00", &["done"], false)), "", "posts/done.md").unwrap();
    ctx.load_content(vec![draft, done], vec![], vec![]);
    assert_eq!(ctx.posts.posts.len(), 1);
    assert!(ctx.tags.tags.iter().all(|t| t.name != "wip"));
    let paths: Vec<String> = ctx.outputs().into_iter().map(|o| o.path).collect();
    assert_eq!(paths, vec!["deployment/2024/4/1/done.html".to_string(), "deployment/tags/done.html".to_string()]);
}

#[test]
fn unparsable_front_matter_aborts_the_build() {
    let content = "---\ntitle: [oops\n---\nbody";
    let front = parse_yaml_front_matter(content);
    let decoded: Result<PostMeta, String> = match serde_yaml::from_str::<serde_yaml::Value>(front.metadata.unwrap()) {
        Ok(_) => panic!("front matter should not decode"),
        Err(e) => Err(e.to_string()),
    };
    match Post::load_from_parts(decoded, front.content, "/site/posts/bad.md") {
        Err(Error::FrontMatterInvalid { path, .. }) => assert_eq!(path, "/site/posts/bad.md"),
        other => panic!("unexpected: {:?}", other),
    }
}

#[test]
fn building_twice_plans_the_same_files() {
    let make = || {
        let mut ctx = context(true);
        let a = Post::load_from_parts(Ok(post_meta("A", "2024-01-01 00:00:00", &["x"], true)), "", "posts/a.md").unwrap();
        ctx.load_content(vec![a], vec![posts_page()], vec![]);
        ctx
    };
    let first: Vec<(String, OutputKind)> = make().outputs().into_iter().map(|o| (o.path, o.kind)).collect();
    let second: Vec<(String, OutputKind)> = make().outputs().into_iter().map(|o| (o.path, o.kind)).collect();
    assert_eq!(first, second);
    assert_eq!(first.len(), 2);
}

#[test]
fn colliding_posts_share_one_file_and_the_last_wins() {
    let mut ctx = context(false);
    let one = Post::load_from_parts(Ok(post_meta("One", "2024-06-01 08:00:00", &[], false)), "first", "a/same.md").unwrap();
    let two = Post::load_from_parts(Ok(post_meta("Two", "2024-06-01 08:00:00", &[], false)), "second", "b/same.md").unwrap();
    ctx.load_content(vec![one, two], vec![], vec![]);
    let outputs = ctx.outputs();
    assert_eq!(outputs.len(), 2);
    assert_eq!(outputs[0].path, outputs[1].path);
    assert_eq!(outputs[1].kind, OutputKind::Post(1));
    assert_eq!(ctx.posts.posts[1].content, "second");
}

#[test]
fn output_paths() {
    assert_eq!(join_path("out/", "x"), "out/x");
    assert_eq!(join_path("", "x"), "x");
    assert_eq!(page_output_path("out", "about.md"), "out/about.html");
    assert_eq!(tag_output_path("out", "Rust Lang"), "out/tags/rust-lang.html");
    assert_eq!(tag_output_path("out", "Çay\tTime"), "out/tags/cay-time.html");
    assert_eq!(get_slug("My First Post"), "my-first-post");
    let bc = Post {
        title: String::new(),
        content: String::new(),
        date: DateTime { year: -44, month: 3, day: 15, hour: 0, minute: 0, second: 0 },
        slug: "ides".to_string(),
        tags: vec![],
        draft: false,
    };
    assert_eq!(post_output_path("out", &bc), "out/-44/3/15/ides.html");
}

#[test]
fn pages_marked_for_rendering_are_planned() {
    let mut ctx = context(false);
    let meta = PageMeta { title: "About".to_string(), slug: String::new(), draft: false, render: false, order: 0, extra: vec![] };
    let about = Page::load_from_parts(Ok(meta), "about me", "/site/pages/about.md").unwrap();
    ctx.load_content(vec![], vec![posts_page()], vec![about]);
    let paths: Vec<String> = ctx.outputs().into_iter().map(|o| o.path).collect();
    assert_eq!(paths, vec!["deployment/about.html".to_string()]);
    assert_eq!(ctx.get_template_page("posts.html").unwrap().content, "{{ posts }}");
}

#[test]
fn markdown_directives_are_detected() {
    assert!(MarkdownDocument::needs_expansion("a {% quote %}b{% endquote %}"));
    assert!(!MarkdownDocument::needs_expansion("{ % not one"));
    assert_eq!(MarkdownDocument::to_html(""), "");
}

#[test]
fn build_phases_run_in_order() {
    let mut phase = BuildPhase::Idle;
    let mut seen = vec![];
    for _ in 0..7 {
        phase = phase.next(true);
        seen.push(phase);
    }
    assert_eq!(
        seen,
        vec![
            BuildPhase::Loading,
            BuildPhase::RenderingPages,
            BuildPhase::RenderingPosts,
            BuildPhase::RenderingTags,
            BuildPhase::CopyingAssets,
            BuildPhase::RunningHooks,
            BuildPhase::Idle,
        ]
    );
    assert_eq!(BuildPhase::RenderingPosts.next(false), BuildPhase::Failed);
    assert_eq!(BuildPhase::Failed.next(false), BuildPhase::Loading);
}

#[test]
fn hooks_get_the_publish_folder() {
    let ctx = context(false);
    assert_eq!(ctx.template.process_commands("/site/public"), vec!["tailwind -o /site/public/site.css".to_string()]);
    assert_eq!(ctx.posts_path, "/site/posts");
    assert_eq!(ctx.statics_path, "/site/assets");
}

#[test]
fn extensions_contribute_fragments_once() {
    let mut ctx = context(false);
    ctx.config.sections.push(ConfigSection {
        name: "analytics".to_string(),
        records: vec![vec![("google-analytics".to_string(), "G-1".to_string())]],
    });
    ctx.register_extensions();
    assert_eq!(ctx.headers.len(), 1);
    assert!(ctx.headers[0].contains("highlight.js"));
    assert_eq!(ctx.after_bodies.len(), 2);
    assert!(ctx.after_bodies[1].contains("gtag/js?id=G-1"));
}

#[test]
fn public_urls_of_posts_and_pages() {
    let mut ctx = context(false);
    let hello = Post::load_from_parts(Ok(post_meta("Hello", "2024-01-02 10:00:00", &[], false)), "", "posts/hello.md").unwrap();
    let meta = PageMeta { title: "About".to_string(), slug: String::new(), draft: false, render: false, order: 0, extra: vec![] };
    let about = Page::load_from_parts(Ok(meta), "", "/site/pages/about.md").unwrap();
    ctx.load_content(vec![hello], vec![], vec![about]);
    assert_eq!(post_url("https://x.org", &ctx.posts, "hello"), Some("https://x.org/2024/1/2/hello.html".to_string()));
    assert_eq!(post_url("https://x.org", &ctx.posts, "missing"), None);
    assert_eq!(page_url("https://x.org", &ctx.pages, "about"), Some("https://x.org/about.html".to_string()));
    assert_eq!(page_url("https://x.org", &ctx.pages, "hello"), None);
}

#[test]
fn test_parse_yaml() {
    let content = "---\nkey: value\n---\n# Heading\n";
    let html = MarkdownDocument::to_html(content);
    assert!(html.len() > 0);
    assert!(html.contains("<h1>Heading</h1>"));
    assert!(!html.contains("key: value"));
}

#[test]
fn new_documents_start_with_front_matter() {
    let (path, text) = timug::authoring::create_post("/site", "Hello World", "2024-01-02 10:00:00", true);
    assert_eq!(path, "/site/posts/hello-world.md");
    assert_eq!(text, "---\ntitle: Hello World\ndate: 2024-01-02 10:00:00\ndraft: true\ntags: \n---");
    let (path, text) = timug::authoring::create_page("/site", "About", "2024-01-02 10:00:00", false);
    assert_eq!(path, "/site/pages/about.md");
    assert_eq!(text, "---\ntitle: About\ndate: 2024-01-02 10:00:00\ntags: \n---");
}
