//! The build context: configuration, loaded content and contributed fragments,
//! owned by the orchestrator and replaced wholesale on every rebuild.
use vstd::prelude::*;

use crate::config::{Template, TimugConfig};
use crate::error::Error;
use crate::extensions::{analytics_snippets, ext_after_body, ext_header, registration_order, registry, Analytics};
use crate::output::{build_writes, join_path, joined, plan_outputs, writes_of, Output};
use crate::page::{admitted_pages, marked, sorted_pages, Page, Pages};
use crate::post::Post;
use crate::posts::{sorted_by_date_desc, tag_index, visible, Posts};
use crate::tags::Tags;

verus! {

broadcast use vstd::string::group_string_axioms;

/// The stages of one build, in order; any failing stage ends in `Failed`.
#[derive(Debug, Clone, Copy, PartialEq, Eq, Structural)]
pub enum BuildPhase {
    Idle,
    Loading,
    RenderingPages,
    RenderingPosts,
    RenderingTags,
    CopyingAssets,
    RunningHooks,
    Failed,
}

impl BuildPhase {
    /// The stage after this one: a build starts from `Idle` or `Failed`, each
    /// stage that succeeds hands over to the next, the hooks return to `Idle`,
    /// and a stage that fails ends the build in `Failed`.
    pub open spec fn spec_next(self, succeeded: bool) -> BuildPhase {
        match self {
            BuildPhase::Idle | BuildPhase::Failed => BuildPhase::Loading,
            _ if !succeeded => BuildPhase::Failed,
            BuildPhase::Loading => BuildPhase::RenderingPages,
            BuildPhase::RenderingPages => BuildPhase::RenderingPosts,
            BuildPhase::RenderingPosts => BuildPhase::RenderingTags,
            BuildPhase::RenderingTags => BuildPhase::CopyingAssets,
            BuildPhase::CopyingAssets => BuildPhase::RunningHooks,
            BuildPhase::RunningHooks => BuildPhase::Idle,
        }
    }

    pub fn next(self, succeeded: bool) -> (r: BuildPhase)
        ensures
            r == self.spec_next(succeeded),
    {
        match self {
            BuildPhase::Idle | BuildPhase::Failed => BuildPhase::Loading,
            _ if !succeeded => BuildPhase::Failed,
            BuildPhase::Loading => BuildPhase::RenderingPages,
            BuildPhase::RenderingPages => BuildPhase::RenderingPosts,
            BuildPhase::RenderingPosts => BuildPhase::RenderingTags,
            BuildPhase::RenderingTags => BuildPhase::CopyingAssets,
            BuildPhase::CopyingAssets => BuildPhase::RunningHooks,
            BuildPhase::RunningHooks => BuildPhase::Idle,
        }
    }
}

/// The fragments that the registered extensions contribute, in registration
/// order, leaving out the empty ones.
pub open spec fn contributed(kinds: Seq<crate::extensions::ExtensionKind>, header: bool) -> Seq<Seq<char>>
    decreases kinds.len(),
{
    if kinds.len() == 0 {
        Seq::empty()
    } else {
        let k = kinds.last();
        let f = if header { ext_header(k) } else { ext_after_body(k) };
        if f.len() == 0 {
            contributed(kinds.drop_last(), header)
        } else {
            contributed(kinds.drop_last(), header).push(f)
        }
    }
}

/// Configuration, content and fragments shared by every render step of a build.
#[derive(Debug)]
pub struct TimugContext {
    pub config: TimugConfig,
    pub posts_path: String,
    pub pages_path: String,
    pub statics_path: String,
    pub headers: Vec<String>,
    pub after_bodies: Vec<String>,
    pub pages: Pages,
    pub posts: Posts,
    pub tags: Tags,
    pub template: Template,
    pub git_folder: Option<String>,
    pub draft: bool,
}

/// The texts of a list of strings.
pub open spec fn texts(s: Seq<String>) -> Seq<Seq<char>> {
    s.map_values(|x: String| x@)
}

/// Creates the context of a project: its source directories lie in the project
/// directory, and nothing is loaded or contributed yet.
pub fn build_context(config: TimugConfig, template: Template, git_folder: Option<String>, draft: bool) -> (r: TimugContext)
    ensures
        r.posts_path@ == joined(config.blog_path@, "posts"@),
        r.pages_path@ == joined(config.blog_path@, "pages"@),
        r.statics_path@ == joined(config.blog_path@, "assets"@),
        r.config == config,
        r.template == template,
        r.git_folder == git_folder,
        r.draft == draft,
        r.headers@.len() == 0,
        r.after_bodies@.len() == 0,
        r.pages.items@.len() == 0,
        r.posts.posts@.len() == 0,
        r.tags.wf(),
        r.tags@ == Map::<Seq<char>, Seq<usize>>::empty(),
{
    let posts_path = join_path(config.blog_path.as_str(), "posts");
    let pages_path = join_path(config.blog_path.as_str(), "pages");
    let statics_path = join_path(config.blog_path.as_str(), "assets");
    TimugContext {
        config,
        posts_path,
        pages_path,
        statics_path,
        headers: Vec::new(),
        after_bodies: Vec::new(),
        pages: Pages::new(),
        posts: Posts { posts: Vec::new() },
        tags: Tags::new(),
        template,
        git_folder,
        draft,
    }
}

impl TimugContext {
    /// Registers the extensions: each contributes its header and footer
    /// fragments once, and the analytics snippets follow the fixed footers.
    pub fn register_extensions(&mut self)
        ensures
            texts(final(self).headers@) == texts(old(self).headers@) + contributed(registration_order(), true),
            texts(final(self).after_bodies@) == texts(old(self).after_bodies@) + contributed(registration_order(), false)
                + analytics_snippets(&old(self).config),
            final(self).config == old(self).config,
            final(self).posts == old(self).posts,
            final(self).pages == old(self).pages,
            final(self).tags == old(self).tags,
    {
        let kinds = registry();
        let ghost h0 = texts(self.headers@);
        let ghost a0 = texts(self.after_bodies@);
        let mut i: usize = 0;
        while i < kinds.len()
            invariant
                kinds@ == registration_order(),
                i <= kinds@.len(),
                texts(self.headers@) == h0 + contributed(kinds@.take(i as int), true),
                texts(self.after_bodies@) == a0 + contributed(kinds@.take(i as int), false),
                self.config == old(self).config,
                self.posts == old(self).posts,
                self.pages == old(self).pages,
                self.tags == old(self).tags,
            decreases kinds.len() - i,
        {
            let k = kinds[i];
            let ghost hb = texts(self.headers@);
            let ghost ab = texts(self.after_bodies@);
            proof {
                assert(kinds@.take(i + 1).drop_last() =~= kinds@.take(i as int));
                assert(kinds@.take(i + 1).last() == k);
            }
            let h = k.header();
            if h.unicode_len() > 0 {
                self.headers.push(h.to_string());
                assert(texts(self.headers@) =~= hb.push(h@));
            }
            let a = k.after_body();
            if a.unicode_len() > 0 {
                self.after_bodies.push(a.to_string());
                assert(texts(self.after_bodies@) =~= ab.push(a@));
            }
            i = i + 1;
            assert(texts(self.headers@) =~= h0 + contributed(kinds@.take(i as int), true));
            assert(texts(self.after_bodies@) =~= a0 + contributed(kinds@.take(i as int), false));
        }
        assert(kinds@.take(i as int) =~= kinds@);
        let ghost a1 = texts(self.after_bodies@);
        let snippets = Analytics::after_bodies(&self.config);
        let mut j: usize = 0;
        while j < snippets.len()
            invariant
                j <= snippets@.len(),
                snippets@.map_values(|s: String| s@) == analytics_snippets(&old(self).config),
                texts(self.after_bodies@) == a1 + texts(snippets@.take(j as int)),
                self.config == old(self).config,
                self.posts == old(self).posts,
                self.pages == old(self).pages,
                self.tags == old(self).tags,
                texts(self.headers@) == h0 + contributed(registration_order(), true),
            decreases snippets.len() - j,
        {
            let ghost before = texts(self.after_bodies@);
            self.after_bodies.push(snippets[j].clone());
            assert(texts(self.after_bodies@) =~= before.push(snippets@[j as int]@));
            assert(texts(snippets@.take(j + 1)) =~= texts(snippets@.take(j as int)).push(snippets@[j as int]@));
            j = j + 1;
        }
        assert(snippets@.take(j as int) =~= snippets@);
        assert(texts(snippets@) =~= snippets@.map_values(|s: String| s@));
    }

    /// Replaces the loaded content: the posts of the posts directory and the
    /// base and custom pages, filtered for drafts by the context's flag; the tag
    /// index is rebuilt from the posts.
    pub fn load_content(&mut self, posts: Vec<Post>, base: Vec<Page>, custom: Vec<Page>)
        ensures
            final(self).posts.posts@.to_multiset() == visible(posts@, old(self).draft).to_multiset(),
            !old(self).draft ==> forall|i: int| 0 <= i < final(self).posts.posts@.len() ==> !(#[trigger] final(self).posts.posts@[i]).draft,
            sorted_by_date_desc(final(self).posts.posts@),
            final(self).tags.wf(),
            final(self).tags@ == tag_index(final(self).posts.posts@),
            sorted_pages(final(self).pages.items@),
            final(self).pages.items@.to_multiset() == admitted_pages(base@, old(self).draft).to_multiset().add(
                admitted_pages(marked(custom@, true), old(self).draft).to_multiset(),
            ),
            final(self).config == old(self).config,
            final(self).draft == old(self).draft,
            final(self).headers == old(self).headers,
            final(self).after_bodies == old(self).after_bodies,
    {
        let (loaded, tags) = Posts::load(posts, self.draft);
        self.posts = loaded;
        self.tags = tags;
        self.pages = Pages::load(base, custom, self.draft);
    }

    /// The loaded page with the given file name, for templates that look one up.
    pub fn get_template_page(&self, name: &str) -> (r: Option<&Page>)
        ensures
            match self.pages.spec_get(name@) {
                Some(i) => r == Some(&self.pages.items@[i]),
                None => r is None,
            },
    {
        self.pages.get(name)
    }

    /// The template that tag listings render with: the loaded page `posts.html`.
    pub fn listing_template(&self) -> (r: Result<&Page, Error>)
        ensures
            match self.pages.spec_get("posts.html"@) {
                Some(i) => r == Ok::<&Page, Error>(&self.pages.items@[i]),
                None => r matches Err(Error::TemplateReferenceNotFound { name: n }) && n@ == "posts.html"@,
            },
    {
        match self.pages.get("posts.html") {
            Some(p) => Ok(p),
            None => Err(Error::TemplateReferenceNotFound { name: "posts.html".to_string() }),
        }
    }

    /// The files that a build of the loaded content writes, in order.
    pub fn outputs(&self) -> (r: Vec<Output>)
        ensures
            writes_of(r@) == build_writes(self.config.deployment_folder@, self.pages.items@, self.posts.posts@, self.tags.tags@),
    {
        plan_outputs(self.config.deployment_folder.as_str(), &self.pages, &self.posts, &self.tags)
    }
}

} // verus!
