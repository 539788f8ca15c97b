//! Pages: templates and custom documents, and the page collection.
use vstd::multiset::Multiset;
use vstd::prelude::*;

use crate::error::Error;
use crate::post::{file_stem, lowered_name, stem};
use crate::tags::{chars_lt, lemma_chars_lt_irreflexive, lemma_chars_lt_transitive, text_lt};
use crate::text::chars_of;
use crate::text::lowercase;
use crate::tools::{file_name, file_name_span};

verus! {

broadcast use {vstd::string::group_string_axioms, vstd::seq_lib::group_to_multiset_ensures};

/// How a document's body is turned into HTML.
#[derive(Debug, Clone, Copy, PartialEq, Eq, Structural)]
pub enum DocumentType {
    /// The body is a template that renders to HTML directly.
    Html,
    /// The body is markdown, with embedded template directives.
    Markdown,
}

/// `s` ends with `suffix`.
pub open spec fn ends_with(s: Seq<char>, suffix: Seq<char>) -> bool {
    suffix.len() <= s.len() && s.skip(s.len() - suffix.len()) == suffix
}

/// Whether `s` ends with `suffix`.
pub fn text_ends_with(s: &str, suffix: &str) -> (r: bool)
    ensures
        r == ends_with(s@, suffix@),
{
    let v = chars_of(s);
    let w = chars_of(suffix);
    if w.len() > v.len() {
        return false;
    }
    let vl: usize = v.len();
    let off = vl - w.len();
    let mut i: usize = 0;
    while i < w.len()
        invariant
            v@ == s@,
            w@ == suffix@,
            off == v@.len() - w@.len(),
            off + w@.len() == v@.len(),
            vl == v@.len(),
            i <= w@.len(),
            forall|k: int| 0 <= k < i ==> v@[off + k] == w@[k],
        decreases w.len() - i,
    {
        if v[off + i] != w[i] {
            assert(s@.skip(off as int)[i as int] != suffix@[i as int]);
            return false;
        }
        i = i + 1;
    }
    assert(s@.skip(off as int) =~= suffix@);
    true
}

impl DocumentType {
    /// HTML for file names ending in `.html` or `.htm`, markdown otherwise.
    pub open spec fn spec_of_file_name(name: Seq<char>) -> DocumentType {
        if ends_with(name, seq!['.', 'h', 't', 'm', 'l']) || ends_with(name, seq!['.', 'h', 't', 'm']) {
            DocumentType::Html
        } else {
            DocumentType::Markdown
        }
    }

    /// The document type of a (lower-cased) file name.
    pub fn of_file_name(name: &str) -> (r: DocumentType)
        ensures
            r == DocumentType::spec_of_file_name(name@),
    {
        proof {
            reveal_strlit(".html");
            reveal_strlit(".htm");
            assert(".html"@ =~= seq!['.', 'h', 't', 'm', 'l']);
            assert(".htm"@ =~= seq!['.', 'h', 't', 'm']);
        }
        if text_ends_with(name, ".html") || text_ends_with(name, ".htm") {
            DocumentType::Html
        } else {
            DocumentType::Markdown
        }
    }
}

/// The front-matter fields of a page, as decoded; absent fields are empty,
/// `false` or zero. `extra` keeps the other scalar fields, for templates.
#[derive(Debug)]
pub struct PageMeta {
    pub title: String,
    pub slug: String,
    pub draft: bool,
    pub render: bool,
    pub order: i64,
    pub extra: Vec<(String, String)>,
}

/// A loaded page.
#[derive(Debug)]
pub struct Page {
    pub title: String,
    pub file_name: String,
    pub path: String,
    pub slug: String,
    pub content: String,
    pub draft: bool,
    pub page_type: DocumentType,
    pub render: bool,
    pub order: i64,
    pub extra: Vec<(String, String)>,
}

impl Page {
    /// Builds a page from its decoded front matter (or the decoder's complaint),
    /// its body and its path. An empty title becomes the file name, an empty
    /// slug the lower-cased file name without extension.
    pub fn load_from_parts(meta: Result<PageMeta, String>, body: &str, path: &str) -> (r: Result<Page, Error>)
        ensures
            match meta {
                Err(reason) => r matches Err(Error::FrontMatterInvalid { path: p, reason: q }) && p@ == path@ && q@ == reason@,
                Ok(m) => match file_name_span(path@) {
                    None => r matches Err(Error::FileNameMissing { path: p }) && p@ == path@,
                    Some(span) => r matches Ok(page) && {
                        let name = lowered_name(path@, span);
                        &&& page.file_name@ == name
                        &&& page.path@ == path@
                        &&& page.title@ == if m.title@.len() == 0 { path@.subrange(span.0, span.1) } else { m.title@ }
                        &&& page.slug@ == if m.slug@.len() == 0 { stem(name) } else { m.slug@ }
                        &&& page.content@ == body@
                        &&& page.page_type == DocumentType::spec_of_file_name(name)
                        &&& page.draft == m.draft
                        &&& page.render == m.render
                        &&& page.order == m.order
                        &&& page.extra == m.extra
                    },
                },
            },
    {
        let m = match meta {
            Err(reason) => {
                return Err(Error::FrontMatterInvalid { path: path.to_string(), reason });
            },
            Ok(m) => m,
        };
        let written_name = match file_name(path) {
            Ok(f) => f,
            Err(e) => {
                return Err(e);
            },
        };
        let file_name = lowercase(written_name.as_str());
        let page_type = DocumentType::of_file_name(file_name.as_str());
        let title = if m.title.as_str().unicode_len() == 0 { written_name } else { m.title };
        let slug = if m.slug.as_str().unicode_len() == 0 { file_stem(file_name.as_str()) } else { m.slug };
        Ok(Page {
            title,
            file_name,
            path: path.to_string(),
            slug,
            content: body.to_string(),
            draft: m.draft,
            page_type,
            render: m.render,
            order: m.order,
            extra: m.extra,
        })
    }
}

/// Listing order of pages: by `order`, then by title.
pub open spec fn page_before(a: Page, b: Page) -> bool {
    a.order < b.order || (a.order == b.order && chars_lt(a.title@, b.title@))
}

proof fn lemma_page_before_order(a: Page, b: Page, c: Page)
    ensures
        !(page_before(a, b) && page_before(b, a)),
        page_before(a, b) && page_before(b, c) ==> page_before(a, c),
{
    if page_before(a, b) && page_before(b, a) {
        lemma_chars_lt_transitive(a.title@, b.title@, a.title@);
        lemma_chars_lt_irreflexive(a.title@);
    }
    if page_before(a, b) && page_before(b, c) && a.order == b.order && b.order == c.order {
        lemma_chars_lt_transitive(a.title@, b.title@, c.title@);
    }
}

/// Ascending listing order.
pub open spec fn sorted_pages(s: Seq<Page>) -> bool {
    forall|i: int, j: int| 0 <= i < j < s.len() ==> !page_before(#[trigger] s[j], #[trigger] s[i])
}

/// Whether a page enters the collection: drafts only when they are shown.
pub open spec fn admitted(p: Page, show_drafts: bool) -> bool {
    show_drafts || !p.draft
}

/// The pages of `s` that enter the collection, in order.
pub open spec fn admitted_pages(s: Seq<Page>, show_drafts: bool) -> Seq<Page>
    decreases s.len(),
{
    if s.len() == 0 {
        Seq::empty()
    } else if admitted(s.last(), show_drafts) {
        admitted_pages(s.drop_last(), show_drafts).push(s.last())
    } else {
        admitted_pages(s.drop_last(), show_drafts)
    }
}

/// The page as it stands once marked for rendering.
pub open spec fn rendered(p: Page) -> Page {
    Page { render: true, ..p }
}

/// The pages, each marked for rendering when `force`.
pub open spec fn marked(s: Seq<Page>, force: bool) -> Seq<Page> {
    if force {
        s.map_values(|p: Page| rendered(p))
    } else {
        s
    }
}

/// The loaded pages.
#[derive(Debug)]
pub struct Pages {
    pub items: Vec<Page>,
}

impl Pages {
    /// An empty collection.
    pub fn new() -> (r: Pages)
        ensures
            r.items@.len() == 0,
    {
        Pages { items: Vec::new() }
    }

    /// Adds a page at its place in listing order, after the pages that do not
    /// come after it. Drafts are left out unless `show_drafts`.
    pub fn add(&mut self, page: Page, show_drafts: bool)
        requires
            sorted_pages(old(self).items@),
        ensures
            sorted_pages(final(self).items@),
            final(self).items@.to_multiset() == if admitted(page, show_drafts) {
                old(self).items@.to_multiset().insert(page)
            } else {
                old(self).items@.to_multiset()
            },
    {
        if !show_drafts && page.draft {
            return;
        }
        let mut k: usize = 0;
        while k < self.items.len() && !Self::listed_before(&page, &self.items[k])
            invariant
                k <= self.items@.len(),
                forall|i: int| 0 <= i < k ==> !page_before(page, #[trigger] self.items@[i]),
            decreases self.items.len() - k,
        {
            k = k + 1;
        }
        let ghost old_items = self.items@;
        let ghost p = page;
        self.items.insert(k, page);
        proof {
            assert forall|i: int, j: int| 0 <= i < j < self.items@.len() implies !page_before(#[trigger] self.items@[j], #[trigger] self.items@[i]) by {
                if i < k && j == k {
                } else if j < k {
                    assert(self.items@[i] == old_items[i] && self.items@[j] == old_items[j]);
                } else if i < k {
                    assert(self.items@[i] == old_items[i] && self.items@[j] == old_items[j - 1]);
                    lemma_page_before_order(old_items[j - 1], old_items[i], p);
                } else if i == k {
                    assert(self.items@[j] == old_items[j - 1]);
                    assert(page_before(p, old_items[k as int]));
                    lemma_page_before_order(old_items[j - 1], p, old_items[k as int]);
                    lemma_page_before_order(p, old_items[k as int], old_items[j - 1]);
                } else {
                    assert(self.items@[i] == old_items[i - 1] && self.items@[j] == old_items[j - 1]);
                }
            }
        }
    }

    fn listed_before(a: &Page, b: &Page) -> (r: bool)
        ensures
            r == page_before(*a, *b),
    {
        a.order < b.order || (a.order == b.order && text_lt(a.title.as_str(), b.title.as_str()))
    }

    /// Adds each page of `items` in turn, marked for rendering when `force_render`.
    pub fn add_all(&mut self, items: Vec<Page>, force_render: bool, show_drafts: bool)
        requires
            sorted_pages(old(self).items@),
        ensures
            sorted_pages(final(self).items@),
            final(self).items@.to_multiset() == old(self).items@.to_multiset().add(
                admitted_pages(marked(items@, force_render), show_drafts).to_multiset(),
            ),
    {
        let ghost all = marked(items@, force_render);
        let ghost start = self.items@.to_multiset();
        let total: usize = items.len();
        let mut rest = items;
        let mut taken: usize = 0;
        assert(all.take(0) =~= Seq::<Page>::empty());
        while rest.len() > 0
            invariant
                rest@.len() + taken == total,
                total == all.len(),
                marked(rest@, force_render) == all.skip(taken as int),
                sorted_pages(self.items@),
                self.items@.to_multiset() == start.add(admitted_pages(all.take(taken as int), show_drafts).to_multiset()),
            decreases rest.len(),
        {
            let ghost before = rest@;
            let mut p = rest.remove(0);
            if force_render {
                p.render = true;
            }
            proof {
                assert(marked(before, force_render)[0] == p);
                assert(p == all[taken as int]);
                assert(rest@ =~= before.skip(1));
                assert(marked(rest@, force_render) =~= marked(before, force_render).skip(1));
                assert(marked(rest@, force_render) =~= all.skip(taken + 1));
                assert(all.take(taken + 1).drop_last() =~= all.take(taken as int));
                let prev = admitted_pages(all.take(taken as int), show_drafts);
                if admitted(p, show_drafts) {
                    assert(admitted_pages(all.take(taken + 1), show_drafts) == prev.push(p));
                }
            }
            self.add(p, show_drafts);
            taken = taken + 1;
        }
        assert(all.take(taken as int) =~= all);
    }

    /// Builds the collection from the base pages of the theme and the user's
    /// custom pages; custom pages are always rendered.
    pub fn load(base: Vec<Page>, custom: Vec<Page>, show_drafts: bool) -> (r: Pages)
        ensures
            sorted_pages(r.items@),
            r.items@.to_multiset() == admitted_pages(base@, show_drafts).to_multiset().add(
                admitted_pages(marked(custom@, true), show_drafts).to_multiset(),
            ),
    {
        let mut pages = Pages::new();
        assert(pages.items@.to_multiset() =~= Multiset::empty());
        pages.add_all(base, false, show_drafts);
        pages.add_all(custom, true, show_drafts);
        pages
    }

    /// The position of the first page with the given file name.
    pub open spec fn spec_get(&self, name: Seq<char>) -> Option<int> {
        first_named(self.items@, name, 0)
    }

    /// The first page with the given file name.
    pub fn get(&self, name: &str) -> (r: Option<&Page>)
        ensures
            match self.spec_get(name@) {
                Some(i) => r == Some(&self.items@[i]),
                None => r is None,
            },
    {
        let wanted = name.to_string();
        let mut i: usize = 0;
        while i < self.items.len()
            invariant
                wanted@ == name@,
                i <= self.items@.len(),
                first_named(self.items@, name@, i as int) == first_named(self.items@, name@, 0),
            decreases self.items.len() - i,
        {
            if self.items[i].file_name == wanted {
                return Some(&self.items[i]);
            }
            i = i + 1;
        }
        None
    }
}

/// The position of the first page at or after `i` with the given file name.
pub open spec fn first_named(s: Seq<Page>, name: Seq<char>, i: int) -> Option<int>
    decreases s.len() - i,
{
    if i < 0 || i >= s.len() {
        None
    } else if s[i].file_name@ == name {
        Some(i)
    } else {
        first_named(s, name, i + 1)
    }
}

} // verus!
