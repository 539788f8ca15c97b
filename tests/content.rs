use timug::date::DateTime;
use timug::page::{DocumentType, Page, PageMeta, Pages};
use timug::post::Post;
use timug::posts::Posts;
use timug::tags::{text_lt, Tags};

fn date(year: i32, month: u32, day: u32) -> DateTime {
    DateTime { year, month, day, hour: 10, minute: 0, second: 0 }
}

fn post(slug: &str, d: DateTime, tags: &[&str], draft: bool) -> Post {
    Post {
        title: slug.to_string(),
        content: String::new(),
        date: d,
        slug: slug.to_string(),
        tags: tags.iter().map(|t| t.to_string()).collect(),
        draft,
    }
}

fn page(file: &str, title: &str, order: i64, draft: bool) -> Page {
    let meta = PageMeta { title: title.to_string(), slug: String::new(), draft, render: false, order, extra: vec![] };
    Page::load_from_parts(Ok(meta), "body", &format!("pages/{}", file)).unwrap()
}

#[test]
fn posts_are_sorted_newest_first_with_stable_ties() {
    let items = vec![
        post("a", date(2024, 1, 1), &[], false),
        post("b", date(2024, 3, 1), &[], false),
        post("c", date(2024, 1, 1), &[], false),
        post("d", date(2023, 12, 31), &[], false),
    ];
    let (posts, _) = Posts::load(items, false);
    let slugs: Vec<&str> = posts.posts.iter().map(|p| p.slug.as_str()).collect();
    assert_eq!(slugs, vec!["b", "a", "c", "d"]);
}

#[test]
fn drafts_are_dropped_unless_shown() {
    let items = || vec![post("a", date(2024, 1, 1), &["x"], true), post("b", date(2024, 2, 1), &["y"], false)];
    let (hidden, tags) = Posts::load(items(), false);
    assert_eq!(hidden.posts.len(), 1);
    assert_eq!(hidden.posts[0].slug, "b");
    assert_eq!(tags.tags.len(), 1);
    assert_eq!(tags.tags[0].name, "y");
    let (shown, tags) = Posts::load(items(), true);
    assert_eq!(shown.posts.len(), 2);
    assert_eq!(tags.tags.len(), 2);
}

#[test]
fn tag_index_lists_exactly_the_carriers_sorted_by_name() {
    let items = vec![
        post("p0", date(2024, 3, 1), &["rust", "web"], false),
        post("p1", date(2024, 2, 1), &["Rust", "rust", "rust"], false),
        post("p2", date(2024, 1, 1), &["web"], false),
    ];
    let (_, tags) = Posts::load(items, false);
    let names: Vec<&str> = tags.tags.iter().map(|t| t.name.as_str()).collect();
    assert_eq!(names, vec!["Rust", "rust", "web"]);
    assert_eq!(tags.tags[0].posts, vec![1]);
    assert_eq!(tags.tags[1].posts, vec![0, 1]);
    assert_eq!(tags.tags[2].posts, vec![0, 2]);
    assert_eq!(tags.get("web").unwrap().posts, vec![0, 2]);
    assert!(tags.get("RUST").is_none());
}

#[test]
fn tag_bucket_lists_newest_first() {
    let items = vec![post("jan", date(2024, 1, 1), &["rust"], false), post("feb", date(2024, 2, 1), &["rust"], false)];
    let (posts, tags) = Posts::load(items, false);
    let bucket = &tags.tags[0];
    assert_eq!(bucket.name, "rust");
    let listed: Vec<&str> = bucket.posts.iter().map(|&i| posts.posts[i].slug.as_str()).collect();
    assert_eq!(listed, vec!["feb", "jan"]);
}

#[test]
fn tag_add_is_idempotent_per_pair() {
    let mut tags = Tags::new();
    tags.add("b".to_string(), 3);
    tags.add("a".to_string(), 1);
    tags.add("b".to_string(), 3);
    tags.add("b".to_string(), 4);
    assert_eq!(tags.tags.len(), 2);
    assert_eq!(tags.tags[0].name, "a");
    assert_eq!(tags.tags[1].posts, vec![3, 4]);
}

#[test]
fn text_order_is_by_code_point() {
    assert!(text_lt("Rust", "rust"));
    assert!(text_lt("ab", "abc"));
    assert!(!text_lt("abc", "abc"));
    assert!(text_lt("z", "é"));
}

#[test]
fn pages_sort_by_order_then_title() {
    let base = vec![page("b.html", "Beta", 2, false), page("a.html", "Alpha", 2, false), page("z.html", "Zed", 1, false)];
    let custom = vec![page("about.md", "", 0, false), page("secret.md", "Secret", 0, true)];
    let pages = Pages::load(base, custom, false);
    let titles: Vec<&str> = pages.items.iter().map(|p| p.title.as_str()).collect();
    assert_eq!(titles, vec!["about.md", "Zed", "Alpha", "Beta"]);
    assert!(pages.items[0].render);
    assert!(!pages.items[1].render);
    assert_eq!(pages.get("a.html").unwrap().title, "Alpha");
    assert!(pages.get("secret.md").is_none());
}

#[test]
fn page_defaults_follow_the_file_name() {
    let p = page("Index.HTML", "", 0, false);
    assert_eq!(p.file_name, "index.html");
    assert_eq!(p.title, "Index.HTML");
    assert_eq!(p.slug, "index");
    assert_eq!(p.page_type, DocumentType::Html);
    assert_eq!(p.path, "pages/Index.HTML");
    let m = page("notes.md", "Notes", 0, false);
    assert_eq!(m.page_type, DocumentType::Markdown);
    assert_eq!(DocumentType::of_file_name("old.htm"), DocumentType::Html);
}
