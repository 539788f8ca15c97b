//! Where a build writes each document, and what the files hold afterwards.
use vstd::prelude::*;

use crate::date::{decimal, int_text, push_decimal, push_int, DateTime};
use crate::page::Pages;
use crate::post::{file_stem, stem, Post};
use crate::posts::Posts;
use crate::tags::Tags;
use crate::text::{ascii_of, concat, dash_separators, dashed, lower_of, lowercase, string_of, transliterate};

verus! {

broadcast use vstd::string::group_string_axioms;

/// `part` appended to `base` after one `/`.
pub open spec fn joined(base: Seq<char>, part: Seq<char>) -> Seq<char> {
    if base.len() == 0 {
        part
    } else if base.last() == '/' {
        base + part
    } else {
        base + seq!['/'] + part
    }
}

/// Appends a path component.
pub fn join_path(base: &str, part: &str) -> (r: String)
    ensures
        r@ == joined(base@, part@),
{
    let n = base.unicode_len();
    if n == 0 {
        part.to_string()
    } else if base.get_char(n - 1) == '/' {
        concat(base, part)
    } else {
        proof {
            reveal_strlit("/");
        }
        let with_slash = concat(base, "/");
        concat(with_slash.as_str(), part)
    }
}

/// `.html`.
pub open spec fn html_ext() -> Seq<char> {
    seq!['.', 'h', 't', 'm', 'l']
}

/// A name made safe for URLs and file names: transliterated to ASCII,
/// separators turned into `-`, lower-cased.
pub open spec fn slug_of(s: Seq<char>) -> Seq<char> {
    lower_of(dashed(ascii_of(s)))
}

/// The URL- and file-name-safe form of a title or tag name.
pub fn get_slug(title: &str) -> (r: String)
    ensures
        r@ == slug_of(title@),
{
    let ascii = transliterate(title);
    let dashed = dash_separators(ascii.as_str());
    lowercase(dashed.as_str())
}

/// `deployment/<year>/<month>/<day>/<slug>.html`.
pub open spec fn post_path(deploy: Seq<char>, d: DateTime, slug: Seq<char>) -> Seq<char> {
    joined(
        joined(joined(joined(deploy, int_text(d.year as int)), decimal(d.month as nat)), decimal(d.day as nat)),
        slug + html_ext(),
    )
}

/// `deployment/tags/<normalized name>.html`.
pub open spec fn tag_path(deploy: Seq<char>, name: Seq<char>) -> Seq<char> {
    joined(joined(deploy, seq!['t', 'a', 'g', 's']), slug_of(name) + html_ext())
}

/// `deployment/<file name with its extension made .html>`.
pub open spec fn page_path(deploy: Seq<char>, file_name: Seq<char>) -> Seq<char> {
    joined(deploy, stem(file_name) + html_ext())
}

fn text_of_int(i: i64) -> (r: String)
    requires
        i > i64::MIN,
    ensures
        r@ == int_text(i as int),
{
    let mut v: Vec<char> = Vec::new();
    push_int(&mut v, i);
    assert(v@ =~= int_text(i as int));
    string_of(&v)
}

fn text_of_nat(n: u64) -> (r: String)
    ensures
        r@ == decimal(n as nat),
{
    let mut v: Vec<char> = Vec::new();
    push_decimal(&mut v, n);
    assert(v@ =~= decimal(n as nat));
    string_of(&v)
}

fn with_html_ext(s: &str) -> (r: String)
    ensures
        r@ == s@ + html_ext(),
{
    proof {
        reveal_strlit(".html");
        assert(".html"@ =~= html_ext());
    }
    concat(s, ".html")
}

/// Where a post is written: its date's year, month and day, then its slug.
pub fn post_output_path(deploy: &str, post: &Post) -> (r: String)
    ensures
        r@ == post_path(deploy@, post.date, post.slug@),
{
    let y = text_of_int(post.date.year as i64);
    let m = text_of_nat(post.date.month as u64);
    let d = text_of_nat(post.date.day as u64);
    let p1 = join_path(deploy, y.as_str());
    let p2 = join_path(p1.as_str(), m.as_str());
    let p3 = join_path(p2.as_str(), d.as_str());
    let f = with_html_ext(post.slug.as_str());
    join_path(p3.as_str(), f.as_str())
}

/// Where a tag's listing is written.
pub fn tag_output_path(deploy: &str, name: &str) -> (r: String)
    ensures
        r@ == tag_path(deploy@, name@),
{
    proof {
        reveal_strlit("tags");
        assert("tags"@ =~= seq!['t', 'a', 'g', 's']);
    }
    let dir = join_path(deploy, "tags");
    let slug = get_slug(name);
    let f = with_html_ext(slug.as_str());
    join_path(dir.as_str(), f.as_str())
}

/// Where a page is written.
pub fn page_output_path(deploy: &str, file_name: &str) -> (r: String)
    ensures
        r@ == page_path(deploy@, file_name@),
{
    let s = file_stem(file_name);
    let f = with_html_ext(s.as_str());
    join_path(deploy, f.as_str())
}

/// The position of the first post at or after `i` with the given slug.
pub open spec fn first_with_slug(s: Seq<Post>, slug: Seq<char>, i: int) -> Option<int>
    decreases s.len() - i,
{
    if i < 0 || i >= s.len() {
        None
    } else if s[i].slug@ == slug {
        Some(i)
    } else {
        first_with_slug(s, slug, i + 1)
    }
}

/// `<site>/<year>/<month>/<day>/<slug>.html`.
pub open spec fn post_url_text(site: Seq<char>, d: DateTime, slug: Seq<char>) -> Seq<char> {
    site + "/"@ + int_text(d.year as int) + "/"@ + decimal(d.month as nat) + "/"@ + decimal(d.day as nat) + "/"@ + slug + html_ext()
}

/// The public URL of the post with the given slug; `None` when no post has it.
pub fn post_url(site_url: &str, posts: &Posts, slug: &str) -> (r: Option<String>)
    ensures
        match first_with_slug(posts.posts@, slug@, 0) {
            Some(i) => r is Some && r->Some_0@ == post_url_text(site_url@, posts.posts@[i].date, slug@),
            None => r is None,
        },
{
    let wanted = slug.to_string();
    let mut i: usize = 0;
    while i < posts.posts.len()
        invariant
            wanted@ == slug@,
            i <= posts.posts@.len(),
            first_with_slug(posts.posts@, slug@, i as int) == first_with_slug(posts.posts@, slug@, 0),
        decreases posts.posts.len() - i,
    {
        if posts.posts[i].slug == wanted {
            let d = posts.posts[i].date;
            let y = text_of_int(d.year as i64);
            let m = text_of_nat(d.month as u64);
            let day = text_of_nat(d.day as u64);
            let a = concat(site_url, "/");
            let b = concat(a.as_str(), y.as_str());
            let c = concat(b.as_str(), "/");
            let e = concat(c.as_str(), m.as_str());
            let f = concat(e.as_str(), "/");
            let g = concat(f.as_str(), day.as_str());
            let h = concat(g.as_str(), "/");
            let k = concat(h.as_str(), slug);
            return Some(with_html_ext(k.as_str()));
        }
        i = i + 1;
    }
    None
}

/// The position of the first page at or after `i` with the given slug.
pub open spec fn first_page_with_slug(s: Seq<crate::page::Page>, slug: Seq<char>, i: int) -> Option<int>
    decreases s.len() - i,
{
    if i < 0 || i >= s.len() {
        None
    } else if s[i].slug@ == slug {
        Some(i)
    } else {
        first_page_with_slug(s, slug, i + 1)
    }
}

/// The public URL of the page with the given slug, `<site>/<slug>.html`;
/// `None` when no page has it.
pub fn page_url(site_url: &str, pages: &Pages, slug: &str) -> (r: Option<String>)
    ensures
        match first_page_with_slug(pages.items@, slug@, 0) {
            Some(i) => r is Some && r->Some_0@ == site_url@ + "/"@ + slug@ + html_ext(),
            None => r is None,
        },
{
    let wanted = slug.to_string();
    let mut i: usize = 0;
    while i < pages.items.len()
        invariant
            wanted@ == slug@,
            i <= pages.items@.len(),
            first_page_with_slug(pages.items@, slug@, i as int) == first_page_with_slug(pages.items@, slug@, 0),
        decreases pages.items.len() - i,
    {
        if pages.items[i].slug == wanted {
            let a = concat(site_url, "/");
            let b = concat(a.as_str(), slug);
            return Some(with_html_ext(b.as_str()));
        }
        i = i + 1;
    }
    None
}

/// What an output file renders: a page, a post or a tag listing, by position
/// in its collection.
#[derive(Debug, Clone, Copy, PartialEq, Eq, Structural)]
pub enum OutputKind {
    Page(usize),
    Post(usize),
    Tag(usize),
}

/// One file that a build writes.
#[derive(Debug)]
pub struct Output {
    pub path: String,
    pub kind: OutputKind,
}

/// A build's writes as (path, what is rendered there), in order.
pub open spec fn writes_of(s: Seq<Output>) -> Seq<(Seq<char>, OutputKind)> {
    s.map_values(|o: Output| (o.path@, o.kind))
}

/// The page writes: the pages marked for rendering, in collection order.
pub open spec fn page_writes(deploy: Seq<char>, pages: Seq<crate::page::Page>, n: int) -> Seq<(Seq<char>, OutputKind)>
    decreases n,
{
    if n <= 0 {
        Seq::empty()
    } else if pages[n - 1].render {
        page_writes(deploy, pages, n - 1).push((page_path(deploy, pages[n - 1].file_name@), OutputKind::Page((n - 1) as usize)))
    } else {
        page_writes(deploy, pages, n - 1)
    }
}

/// The post writes, in collection order.
pub open spec fn post_writes(deploy: Seq<char>, posts: Seq<Post>) -> Seq<(Seq<char>, OutputKind)> {
    Seq::new(posts.len(), |i: int| (post_path(deploy, posts[i].date, posts[i].slug@), OutputKind::Post(i as usize)))
}

/// The tag-listing writes, in name order.
pub open spec fn tag_writes(deploy: Seq<char>, tags: Seq<crate::tags::Tag>) -> Seq<(Seq<char>, OutputKind)> {
    Seq::new(tags.len(), |i: int| (tag_path(deploy, tags[i].name@), OutputKind::Tag(i as usize)))
}

/// All writes of a build: pages, then posts, then tag listings.
pub open spec fn build_writes(deploy: Seq<char>, pages: Seq<crate::page::Page>, posts: Seq<Post>, tags: Seq<crate::tags::Tag>) -> Seq<(Seq<char>, OutputKind)> {
    page_writes(deploy, pages, pages.len() as int) + post_writes(deploy, posts) + tag_writes(deploy, tags)
}

/// The files that a sequence of writes leaves: each path holds what the last
/// write to it rendered.
pub open spec fn written(w: Seq<(Seq<char>, OutputKind)>) -> Map<Seq<char>, OutputKind>
    decreases w.len(),
{
    if w.len() == 0 {
        Map::empty()
    } else {
        written(w.drop_last()).insert(w.last().0, w.last().1)
    }
}

/// Lists the files of a build, in the order they are written.
pub fn plan_outputs(deploy: &str, pages: &Pages, posts: &Posts, tags: &Tags) -> (r: Vec<Output>)
    ensures
        writes_of(r@) == build_writes(deploy@, pages.items@, posts.posts@, tags.tags@),
{
    let mut out: Vec<Output> = Vec::new();
    let mut i: usize = 0;
    while i < pages.items.len()
        invariant
            i <= pages.items@.len(),
            writes_of(out@) == page_writes(deploy@, pages.items@, i as int),
        decreases pages.items.len() - i,
    {
        if pages.items[i].render {
            let path = page_output_path(deploy, pages.items[i].file_name.as_str());
            out.push(Output { path, kind: OutputKind::Page(i) });
        }
        i = i + 1;
        assert(writes_of(out@) =~= page_writes(deploy@, pages.items@, i as int));
    }
    let ghost pw = writes_of(out@);
    let mut j: usize = 0;
    while j < posts.posts.len()
        invariant
            j <= posts.posts@.len(),
            writes_of(out@) == pw + post_writes(deploy@, posts.posts@).take(j as int),
        decreases posts.posts.len() - j,
    {
        let path = post_output_path(deploy, &posts.posts[j]);
        let ghost pv = path@;
        let ghost before = out@;
        out.push(Output { path, kind: OutputKind::Post(j) });
        proof {
            let all = post_writes(deploy@, posts.posts@);
            assert(writes_of(out@) =~= writes_of(before).push((pv, OutputKind::Post(j))));
            assert(all[j as int] == (pv, OutputKind::Post(j)));
            assert(all.take(j + 1) =~= all.take(j as int).push((pv, OutputKind::Post(j))));
        }
        j = j + 1;
        assert(writes_of(out@) =~= pw + post_writes(deploy@, posts.posts@).take(j as int));
    }
    assert(post_writes(deploy@, posts.posts@).take(j as int) =~= post_writes(deploy@, posts.posts@));
    let ghost qw = writes_of(out@);
    let mut k: usize = 0;
    while k < tags.tags.len()
        invariant
            k <= tags.tags@.len(),
            writes_of(out@) == qw + tag_writes(deploy@, tags.tags@).take(k as int),
        decreases tags.tags.len() - k,
    {
        let path = tag_output_path(deploy, tags.tags[k].name.as_str());
        let ghost pv = path@;
        let ghost before = out@;
        out.push(Output { path, kind: OutputKind::Tag(k) });
        proof {
            let all = tag_writes(deploy@, tags.tags@);
            assert(writes_of(out@) =~= writes_of(before).push((pv, OutputKind::Tag(k))));
            assert(all[k as int] == (pv, OutputKind::Tag(k)));
            assert(all.take(k + 1) =~= all.take(k as int).push((pv, OutputKind::Tag(k))));
        }
        k = k + 1;
        assert(writes_of(out@) =~= qw + tag_writes(deploy@, tags.tags@).take(k as int));
    }
    assert(tag_writes(deploy@, tags.tags@).take(k as int) =~= tag_writes(deploy@, tags.tags@));
    assert(writes_of(out@) =~= build_writes(deploy@, pages.items@, posts.posts@, tags.tags@));
    out
}

/// The file at a path holds what the last write to that path rendered, and a
/// path that nothing writes holds nothing.
pub proof fn lemma_last_write_wins(w: Seq<(Seq<char>, OutputKind)>, k: int)
    requires
        0 <= k < w.len(),
        forall|m: int| k < m < w.len() ==> (#[trigger] w[m]).0 != w[k].0,
    ensures
        written(w).contains_key(w[k].0),
        written(w)[w[k].0] == w[k].1,
    decreases w.len(),
{
    if k < w.len() - 1 {
        lemma_last_write_wins(w.drop_last(), k);
    }
}

proof fn lemma_written_concat(a: Seq<(Seq<char>, OutputKind)>, b: Seq<(Seq<char>, OutputKind)>)
    ensures
        written(a + b) == written(a).union_prefer_right(written(b)),
    decreases b.len(),
{
    if b.len() == 0 {
        assert(a + b =~= a);
        assert(written(a).union_prefer_right(written(b)) =~= written(a));
    } else {
        lemma_written_concat(a, b.drop_last());
        assert((a + b).drop_last() =~= a + b.drop_last());
        assert(written(a + b) =~= written(a).union_prefer_right(written(b)));
    }
}

/// Building twice on unchanged input leaves exactly the files that building once
/// leaves: the second build writes the same paths with the same documents.
pub proof fn lemma_build_idempotent(
    deploy: Seq<char>,
    pages: Seq<crate::page::Page>,
    posts: Seq<Post>,
    tags: Seq<crate::tags::Tag>,
)
    ensures
        written(build_writes(deploy, pages, posts, tags) + build_writes(deploy, pages, posts, tags))
            == written(build_writes(deploy, pages, posts, tags)),
{
    let w = build_writes(deploy, pages, posts, tags);
    lemma_written_concat(w, w);
    assert(written(w).union_prefer_right(written(w)) =~= written(w));
}

/// `joined(a, b)` begins with `a`.
proof fn lemma_joined_prefix(a: Seq<char>, b: Seq<char>)
    ensures
        joined(a, b).len() >= a.len(),
        forall|i: int| 0 <= i < a.len() ==> #[trigger] joined(a, b)[i] == a[i],
{
}

/// No digit of a decimal number is a letter `t`.
proof fn lemma_decimal_no_t(n: nat)
    ensures
        decimal(n).len() >= 1,
        forall|i: int| 0 <= i < decimal(n).len() ==> #[trigger] decimal(n)[i] != 't',
    decreases n,
{
    if n >= 10 {
        lemma_decimal_no_t(n / 10);
        assert forall|i: int| 0 <= i < decimal(n).len() implies #[trigger] decimal(n)[i] != 't' by {
            if i < decimal(n / 10).len() {
                assert(decimal(n)[i] == decimal(n / 10)[i]);
            }
        }
    }
}

/// A post's file never takes the place of a tag listing: after the deployment
/// path, one begins with the year and the other with `tags`.
pub proof fn lemma_post_and_tag_paths_differ(deploy: Seq<char>, d: DateTime, slug: Seq<char>, name: Seq<char>)
    ensures
        post_path(deploy, d, slug) != tag_path(deploy, name),
{
    let y = int_text(d.year as int);
    lemma_decimal_no_t(if d.year < 0 { (-d.year) as nat } else { d.year as nat });
    let a1 = joined(deploy, y);
    let a2 = joined(a1, decimal(d.month as nat));
    let a3 = joined(a2, decimal(d.day as nat));
    let pp = joined(a3, slug + html_ext());
    let t1 = joined(deploy, seq!['t', 'a', 'g', 's']);
    let tp = joined(t1, slug_of(name) + html_ext());
    let k: int = if deploy.len() == 0 { 0 } else if deploy.last() == '/' { deploy.len() as int } else { deploy.len() + 1int };
    assert(y.len() >= 1);
    assert(a1[k] == y[0]);
    assert(y[0] != 't') by {
        if d.year < 0 {
            assert(y[0] == '-');
        } else {
            assert(y[0] == decimal(d.year as nat)[0]);
        }
    }
    lemma_joined_prefix(a1, decimal(d.month as nat));
    lemma_joined_prefix(a2, decimal(d.day as nat));
    lemma_joined_prefix(a3, slug + html_ext());
    assert(pp[k] == y[0]);
    assert(t1[k] == 't');
    lemma_joined_prefix(t1, slug_of(name) + html_ext());
    assert(tp[k] == 't');
}

/// Two posts of the same calendar day with the same slug are written to one
/// file, and that file finally holds the last post written to it: one of the
/// two, or a post after them, never one before.
pub proof fn lemma_slug_collision(
    deploy: Seq<char>,
    pages: Seq<crate::page::Page>,
    posts: Seq<Post>,
    tags: Seq<crate::tags::Tag>,
    i: int,
    j: int,
)
    requires
        0 <= i < j < posts.len(),
        posts.len() <= usize::MAX,
        posts[i].date.year == posts[j].date.year,
        posts[i].date.month == posts[j].date.month,
        posts[i].date.day == posts[j].date.day,
        posts[i].slug@ == posts[j].slug@,
    ensures
        post_path(deploy, posts[i].date, posts[i].slug@) == post_path(deploy, posts[j].date, posts[j].slug@),
        ({
            let w = build_writes(deploy, pages, posts, tags);
            let path = post_path(deploy, posts[j].date, posts[j].slug@);
            &&& written(w).contains_key(path)
            &&& exists|m: int| #![trigger posts[m]]
                j <= m < posts.len() && post_path(deploy, posts[m].date, posts[m].slug@) == path
                && written(w)[path] == OutputKind::Post(m as usize)
                && (forall|n: int| m < n < posts.len() ==> post_path(deploy, (#[trigger] posts[n]).date, posts[n].slug@) != path)
        }),
{
    let w = build_writes(deploy, pages, posts, tags);
    let pw = page_writes(deploy, pages, pages.len() as int);
    let qw = post_writes(deploy, posts);
    let tw = tag_writes(deploy, tags);
    let path = post_path(deploy, posts[j].date, posts[j].slug@);
    let kj = pw.len() + j;
    assert(w[kj] == qw[j]);
    let k = last_index_from(w, path, kj);
    lemma_last_write_wins(w, k);
    if k >= pw.len() + posts.len() {
        let t = k - pw.len() - posts.len();
        assert(w[k] == tw[t]);
        lemma_post_and_tag_paths_differ(deploy, posts[j].date, posts[j].slug@, tags[t].name@);
    }
    let m = k - pw.len();
    assert(w[k] == qw[m]);
    assert forall|n: int| m < n < posts.len() implies post_path(deploy, (#[trigger] posts[n]).date, posts[n].slug@) != path by {
        assert(w[pw.len() + n] == qw[n]);
    }
}

/// The last position at or after `k` that writes `path`, given that `k` does.
proof fn last_index_from(w: Seq<(Seq<char>, OutputKind)>, path: Seq<char>, k: int) -> (r: int)
    requires
        0 <= k < w.len(),
        w[k].0 == path,
    ensures
        k <= r < w.len(),
        w[r].0 == path,
        forall|m: int| r < m < w.len() ==> (#[trigger] w[m]).0 != path,
    decreases w.len() - k,
{
    if exists|m: int| k < m < w.len() && (#[trigger] w[m]).0 == path {
        let m = choose|m: int| k < m < w.len() && (#[trigger] w[m]).0 == path;
        last_index_from(w, path, m)
    } else {
        k
    }
}

} // verus!
