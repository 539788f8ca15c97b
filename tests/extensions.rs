use timug::config::{ConfigSection, TimugConfig};
use timug::extensions::{
    registry, template_source, Analytics, Codeblock, ExtensionKind, FontAwesome, Gist, Projects, Quote, Reading, Stats,
    QUOTE_HTML,
};
use timug::page::{Page, PageMeta, Pages};

fn config(sections: Vec<ConfigSection>) -> TimugConfig {
    TimugConfig {
        title: String::new(),
        description: String::new(),
        blog_path: String::new(),
        lang: String::new(),
        theme: String::new(),
        deployment_folder: String::new(),
        site_url: String::new(),
        author: String::new(),
        email: String::new(),
        contacts: vec![],
        navs: vec![],
        sections,
    }
}

#[test]
fn registry_order_and_names() {
    let names: Vec<&str> = registry().into_iter().map(|k| k.name()).collect();
    assert_eq!(
        names,
        vec!["codeblock", "quote", "gist", "alertbox", "info", "social_media_share", "reading", "projects", "contacts", "stats", "analytics"]
    );
    assert_eq!(Codeblock::new().kind(), ExtensionKind::Codeblock);
    assert_eq!(ExtensionKind::Quote.header(), "");
    assert!(ExtensionKind::FontAwesome.header().contains("fontawesome"));
}

#[test]
fn theme_pages_override_builtin_markup() {
    let meta = PageMeta { title: String::new(), slug: String::new(), draft: false, render: false, order: 0, extra: vec![] };
    let custom = Page::load_from_parts(Ok(meta), "<q>{{ content }}</q>", "/t/quote.html").unwrap();
    let with = Pages::load(vec![custom], vec![], false);
    assert_eq!(template_source(&with, ExtensionKind::Quote, QUOTE_HTML), "<q>{{ content }}</q>");
    let without = Pages::new();
    assert_eq!(template_source(&without, ExtensionKind::Quote, QUOTE_HTML), QUOTE_HTML);
}

#[test]
fn quote_position_defaults_to_center() {
    assert_eq!(Quote::position(Some("left")), "left");
    assert_eq!(Quote::position(Some("right")), "right");
    assert_eq!(Quote::position(Some("middle")), "center");
    assert_eq!(Quote::position(None), "center");
}

#[test]
fn fixed_markup() {
    assert_eq!(Gist::markup("user/abc", "x.rs"), "<script src=\"https://gist.github.com/user/abc.js?file=x.rs\"></script>");
    assert_eq!(FontAwesome::markup("fab", "github"), "<i class=\"ml-1 mr-0.5 fab fa-github\"></i>");
}

#[test]
fn stats_url_and_scripts() {
    assert_eq!(Stats::url("https://likes.example/api", "my post"), "https://likes.example/api/my%20post.html");
    assert_eq!(Stats::url("https://likes.example/api/", "a"), "https://likes.example/api/a.html");
    let scripts = Stats::scripts("U", "S");
    assert!(scripts.contains("fetch('U')"));
    assert!(scripts.contains("element == \"S\""));
    assert!(!scripts.contains("[url]"));
}

#[test]
fn config_sections_enable_blocks() {
    let none = config(vec![]);
    assert!(Reading::section(&none).is_none());
    assert!(Analytics::after_bodies(&none).is_empty());
    let some = config(vec![
        ConfigSection { name: "projects".to_string(), records: vec![] },
        ConfigSection {
            name: "analytics".to_string(),
            records: vec![vec![("microsoft-clarity".to_string(), "C9".to_string())]],
        },
    ]);
    assert!(Projects::section(&some).is_some());
    let snippets = Analytics::after_bodies(&some);
    assert_eq!(snippets.len(), 1);
    assert!(snippets[0].contains("\"script\", \"C9\")"));
}
