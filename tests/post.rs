use timug::date::{format_date, DateTime};
use timug::error::Error;
use timug::post::{file_stem, Post, PostMeta};
use timug::tools::parse_yaml_front_matter;

fn text_field(map: &serde_yaml::Mapping, key: &str) -> Option<String> {
    map.get(&serde_yaml::Value::String(key.to_string()))
        .and_then(|v| v.as_str())
        .map(|s| s.to_string())
}

fn decode(metadata: &str) -> Result<PostMeta, String> {
    let value: serde_yaml::Value = serde_yaml::from_str(metadata).map_err(|e| e.to_string())?;
    let empty = serde_yaml::Mapping::new();
    let map = value.as_mapping().unwrap_or(&empty);
    let tags = map
        .get(&serde_yaml::Value::String("tags".to_string()))
        .and_then(|v| v.as_sequence())
        .map(|s| s.iter().filter_map(|t| t.as_str().map(|x| x.to_string())).collect())
        .unwrap_or_default();
    Ok(PostMeta {
        title: text_field(map, "title").unwrap_or_default(),
        date: text_field(map, "date"),
        slug: text_field(map, "slug").unwrap_or_default(),
        tags,
        draft: map
            .get(&serde_yaml::Value::String("draft".to_string()))
            .and_then(|v| v.as_bool())
            .unwrap_or(false),
    })
}

fn load_from_str(content: &str, path: &str) -> Result<Post, Error> {
    let front = parse_yaml_front_matter(content);
    Post::load_from_parts(decode(front.metadata.unwrap_or_default()), front.content, path)
}

#[test]
fn test_load_from_str() {
    let content = "---\ntitle: Test Post\ndate: 2023-10-01 12:00:00\nslug: test-post\ntags: [\"rust\", \"test\"]\ndraft: false\n---\nThis is a test post.";
    let path = "test_post.md";
    let post = load_from_str(content, path).unwrap();
    assert_eq!(post.title().as_str(), "Test Post");
    assert_eq!(post.date().to_text(), "2023-10-01 12:00:00");
    assert_eq!(post.slug().as_str(), "test-post");
    assert_eq!(post.tags(), &vec!["rust".to_string(), "test".to_string()]);
    assert_eq!(post.draft(), false);
    assert_eq!(post.content().as_str(), "This is a test post.");
}

#[test]
fn test_set_content() {
    let content = "---\ntitle: Test Post\ndate: 2023-10-01 12:00:00\nslug: test-post\ntags: [\"rust\", \"test\"]\ndraft: false\n---\nThis is a test post.";
    let path = "test_post.md";
    let mut post = load_from_str(content, path).unwrap();
    post.set_content("Updated content.".to_string());
    assert_eq!(post.content().as_str(), "Updated content.");
}

#[test]
fn missing_fields_take_defaults() {
    let post = load_from_str("Just a body\n", "posts/My-Note.md").unwrap();
    assert_eq!(post.title(), "My-Note.md");
    assert_eq!(post.slug(), "my-note");
    assert_eq!(post.date(), DateTime::epoch());
    assert_eq!(post.date().to_text(), "1970-01-01 00:00:00");
    assert!(post.tags().is_empty());
    assert!(!post.draft());
    assert_eq!(post.content(), "Just a body\n");
}

#[test]
fn unparsable_front_matter_names_the_file() {
    let content = "---\ntitle: [unclosed\n---\nbody\n";
    match load_from_str(content, "posts/broken.md") {
        Err(Error::FrontMatterInvalid { path, .. }) => assert_eq!(path, "posts/broken.md"),
        other => panic!("unexpected: {:?}", other),
    }
}

#[test]
fn malformed_date_is_rejected() {
    let content = "---\ndate: 2024-13-45 99:00:00\n---\nbody\n";
    match load_from_str(content, "posts/late.md") {
        Err(Error::DateInvalid { path, value }) => {
            assert_eq!(path, "posts/late.md");
            assert_eq!(value, "2024-13-45 99:00:00");
        }
        other => panic!("unexpected: {:?}", other),
    }
}

#[test]
fn path_without_file_name_is_rejected() {
    let result = Post::load_from_parts(Ok(PostMeta { title: String::new(), date: None, slug: String::new(), tags: vec![], draft: false }), "", "posts/..");
    assert!(matches!(result, Err(Error::FileNameMissing { .. })));
}

#[test]
fn stem_strips_the_last_extension_only() {
    assert_eq!(file_stem("archive.tar.gz"), "archive.tar");
    assert_eq!(file_stem(".hidden"), ".hidden");
    assert_eq!(file_stem("plain"), "plain");
}

#[test]
fn dates_format_with_padding() {
    let d = DateTime { year: 987, month: 3, day: 4, hour: 5, minute: 6, second: 7 };
    assert_eq!(d.to_text(), "0987-03-04 05:06:07");
    let later = DateTime { year: 987, month: 3, day: 4, hour: 5, minute: 6, second: 8 };
    assert!(d.is_before(&later));
    assert!(!later.is_before(&d));
    assert!(!d.is_before(&d));
    let far = DateTime { year: 10000, month: 1, day: 2, hour: 3, minute: 4, second: 5 };
    assert_eq!(far.to_text(), "+10000-01-02 03:04:05");
    let first = DateTime { year: -262143, month: 1, day: 1, hour: 0, minute: 0, second: 0 };
    assert_eq!(first.to_text(), "-262143-01-01 00:00:00");
}

#[test]
fn earliest_parsable_year_round_trips() {
    let post = load_from_str("---\ndate: -262143-01-01 00:00:00\n---\n", "posts/old.md").unwrap();
    assert_eq!(post.date().year, -262143);
    assert_eq!(post.date().to_text(), "-262143-01-01 00:00:00");
}

#[test]
fn dates_format_for_display() {
    assert_eq!(format_date(Some("2015-09-05 23:56:04"), Some("%Y/%m/%d")), Some("2015/09/05".to_string()));
    assert_eq!(format_date(Some("2015-09-05 23:56:04"), None), Some("September 05, 2015".to_string()));
    assert_eq!(format_date(None, None), Some("N/A".to_string()));
    assert_eq!(format_date(Some("yesterday"), None), None);
}
