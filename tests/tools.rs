use timug::tools::{get_file_name, get_path, parse_yaml_front_matter, url_encode};

#[test]
fn test_get_file_name() {
    let path = "/some/path/filename.txt";
    let file_name = get_file_name(path).unwrap();
    assert_eq!(file_name, "filename.txt");
}

#[test]
fn test_get_path() {
    let path = "/some/path/filename.txt";
    let path_str = get_path(path).unwrap();
    assert_eq!(path_str, "/some/path/filename.txt");
}

#[test]
fn test_yaml_front_matter() {
    let content = "---\nkey: value\n---\n# Heading\n";
    let front_matter_info = parse_yaml_front_matter(content);
    assert_eq!(front_matter_info.metadata, Some("key: value"));
    assert_eq!(front_matter_info.content, "# Heading\n");
}

#[test]
fn test_yaml_front_matter_no_metadata() {
    let content = "# Heading\n";
    let front_matter_info = parse_yaml_front_matter(content);
    assert_eq!(front_matter_info.metadata, None);
    assert_eq!(front_matter_info.content, "# Heading\n");
}

#[test]
fn front_matter_delimiters_may_carry_whitespace() {
    let content = "  ---  \ntitle: x\nslug: y\n---\t\nbody";
    let info = parse_yaml_front_matter(content);
    assert_eq!(info.metadata, Some("title: x\nslug: y"));
    assert_eq!(info.content, "body");
}

#[test]
fn front_matter_must_open_the_file() {
    let content = "a\n---\nb\n---\n";
    let info = parse_yaml_front_matter(content);
    assert_eq!(info.metadata, None);
    assert_eq!(info.content, content);
}

#[test]
fn front_matter_needs_two_terminated_delimiters() {
    let content = "---\ntitle: x\n---";
    let info = parse_yaml_front_matter(content);
    assert_eq!(info.metadata, None);
    assert_eq!(info.content, content);
}

#[test]
fn empty_front_matter_block() {
    let info = parse_yaml_front_matter("---\n---\nbody\n");
    assert_eq!(info.metadata, Some(""));
    assert_eq!(info.content, "body\n");
}

#[test]
fn front_matter_keeps_non_ascii_text() {
    let info = parse_yaml_front_matter("---\ntitle: Çağrı\n---\nGüzel\n");
    assert_eq!(info.metadata, Some("title: Çağrı"));
    assert_eq!(info.content, "Güzel\n");
}

#[test]
fn file_name_is_lower_cased() {
    assert_eq!(get_file_name("/A/Dir/README.MD").unwrap(), "readme.md");
}

#[test]
fn file_name_skips_trailing_separators_and_dots() {
    assert_eq!(get_file_name("a/b/").unwrap(), "b");
    assert_eq!(get_file_name("a/b/.").unwrap(), "b");
    assert!(get_file_name("a/..").is_err());
    assert!(get_file_name("/").is_err());
    assert!(get_file_name("").is_err());
}

#[test]
fn url_encode_normalizes_and_escapes() {
    assert_eq!(url_encode("Hello World".to_string()), "hello-world");
    assert_eq!(url_encode("Café a/b".to_string()), "cafe-a%2Fb");
}
