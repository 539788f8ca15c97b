//! New posts and pages: where they go and what they start with.
use vstd::prelude::*;

use crate::output::{get_slug, join_path, joined, slug_of};
use crate::text::concat;

verus! {

broadcast use vstd::string::group_string_axioms;

/// The first text of a new document: front matter with its title and date, a
/// draft flag when asked for, and an empty tag list.
pub open spec fn new_document_spec(title: Seq<char>, date: Seq<char>, draft: bool) -> Seq<char> {
    "---\ntitle: "@ + title + "\ndate: "@ + date + (if draft { "\ndraft: true"@ } else { ""@ }) + "\ntags: \n---"@
}

/// The text of a new post or page.
pub fn new_document_text(title: &str, date: &str, draft: bool) -> (r: String)
    ensures
        r@ == new_document_spec(title@, date@, draft),
{
    let a = concat("---\ntitle: ", title);
    let b = concat(a.as_str(), "\ndate: ");
    let c = concat(b.as_str(), date);
    let d = concat(c.as_str(), if draft { "\ndraft: true" } else { "" });
    concat(d.as_str(), "\ntags: \n---")
}

/// Where a new document goes: `<folder>/<slug of the title>.md` in the project.
pub fn new_document_path(blog_path: &str, folder: &str, title: &str) -> (r: String)
    ensures
        r@ == joined(joined(blog_path@, folder@), slug_of(title@) + ".md"@),
{
    let dir = join_path(blog_path, folder);
    let slug = get_slug(title);
    let file = concat(slug.as_str(), ".md");
    join_path(dir.as_str(), file.as_str())
}

/// The path and first text of a new post titled `title`, dated `date`.
pub fn create_post(blog_path: &str, title: &str, date: &str, draft: bool) -> (r: (String, String))
    ensures
        r.0@ == joined(joined(blog_path@, "posts"@), slug_of(title@) + ".md"@),
        r.1@ == new_document_spec(title@, date@, draft),
{
    (new_document_path(blog_path, "posts", title), new_document_text(title, date, draft))
}

/// The path and first text of a new page titled `title`, dated `date`.
pub fn create_page(blog_path: &str, title: &str, date: &str, draft: bool) -> (r: (String, String))
    ensures
        r.0@ == joined(joined(blog_path@, "pages"@), slug_of(title@) + ".md"@),
        r.1@ == new_document_spec(title@, date@, draft),
{
    (new_document_path(blog_path, "pages", title), new_document_text(title, date, draft))
}

} // verus!
