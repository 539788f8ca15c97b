//! Shortcodes that templates call, and what each contributes to every page.
use vstd::prelude::*;

use crate::config::{ConfigSection, TimugConfig};
use crate::page::Pages;
use crate::text::{concat, percent_encode, replace_all, replaced, url_encoded};

verus! {

broadcast use vstd::string::group_string_axioms;

/// The registered extensions.
#[derive(Debug, Clone, Copy, PartialEq, Eq, Structural)]
pub enum ExtensionKind {
    Codeblock,
    Quote,
    Gist,
    AlertBox,
    Info,
    SocialMediaShare,
    Reading,
    Projects,
    Contacts,
    Stats,
    Analytics,
    FontAwesome,
}

pub const CODEBLOCK_HEADER: &'static str = "<link rel=\"stylesheet\" href=\"https://cdnjs.cloudflare.com/ajax/libs/highlight.js/11.9.0/styles/default.min.css\">
<script src=\"https://cdnjs.cloudflare.com/ajax/libs/highlight.js/11.9.0/highlight.min.js\"></script>
<link rel=\"stylesheet\" href=\"https://unpkg.com/@highlightjs/cdn-assets@11.9.0/styles/atom-one-dark.min.css\" />";

pub const CODEBLOCK_AFTER_BODY: &'static str = "<script>
document.addEventListener('DOMContentLoaded', (event) => {
    document.querySelectorAll('pre code').forEach((block) => {
        hljs.highlightBlock(block);
    });
});
</script>";

pub const FONTAWESOME_HEADER: &'static str = "<link rel=\"stylesheet\" href=\"https://use.fontawesome.com/releases/v5.15.4/css/all.css\" crossorigin=\"anonymous\" />";

/// The extensions in registration order. Font Awesome is available but not
/// registered by default.
pub open spec fn registration_order() -> Seq<ExtensionKind> {
    seq![
        ExtensionKind::Codeblock,
        ExtensionKind::Quote,
        ExtensionKind::Gist,
        ExtensionKind::AlertBox,
        ExtensionKind::Info,
        ExtensionKind::SocialMediaShare,
        ExtensionKind::Reading,
        ExtensionKind::Projects,
        ExtensionKind::Contacts,
        ExtensionKind::Stats,
        ExtensionKind::Analytics,
    ]
}

impl ExtensionKind {
    /// The name under which templates call the extension.
    pub fn name(self) -> (r: &'static str)
        ensures
            r@ == ext_name(self),
    {
        match self {
            ExtensionKind::Codeblock => "codeblock",
            ExtensionKind::Quote => "quote",
            ExtensionKind::Gist => "gist",
            ExtensionKind::AlertBox => "alertbox",
            ExtensionKind::Info => "info",
            ExtensionKind::SocialMediaShare => "social_media_share",
            ExtensionKind::Reading => "reading",
            ExtensionKind::Projects => "projects",
            ExtensionKind::Contacts => "contacts",
            ExtensionKind::Stats => "stats",
            ExtensionKind::Analytics => "analytics",
            ExtensionKind::FontAwesome => "fontawesome",
        }
    }

    /// The header fragment contributed once at registration; empty for most.
    pub fn header(self) -> (r: &'static str)
        ensures
            r@ == ext_header(self),
    {
        match self {
            ExtensionKind::Codeblock => CODEBLOCK_HEADER,
            ExtensionKind::FontAwesome => FONTAWESOME_HEADER,
            _ => "",
        }
    }

    /// The fixed footer fragment contributed once at registration; empty for most.
    pub fn after_body(self) -> (r: &'static str)
        ensures
            r@ == ext_after_body(self),
    {
        match self {
            ExtensionKind::Codeblock => CODEBLOCK_AFTER_BODY,
            _ => "",
        }
    }

    /// The name of the page that overrides the extension's built-in markup.
    pub fn override_page(self) -> (r: String)
        ensures
            r@ == ext_name(self) + ".html"@,
    {
        concat(self.name(), ".html")
    }
}

pub open spec fn ext_name(k: ExtensionKind) -> Seq<char> {
    match k {
        ExtensionKind::Codeblock => "codeblock"@,
        ExtensionKind::Quote => "quote"@,
        ExtensionKind::Gist => "gist"@,
        ExtensionKind::AlertBox => "alertbox"@,
        ExtensionKind::Info => "info"@,
        ExtensionKind::SocialMediaShare => "social_media_share"@,
        ExtensionKind::Reading => "reading"@,
        ExtensionKind::Projects => "projects"@,
        ExtensionKind::Contacts => "contacts"@,
        ExtensionKind::Stats => "stats"@,
        ExtensionKind::Analytics => "analytics"@,
        ExtensionKind::FontAwesome => "fontawesome"@,
    }
}

pub open spec fn ext_header(k: ExtensionKind) -> Seq<char> {
    match k {
        ExtensionKind::Codeblock => CODEBLOCK_HEADER@,
        ExtensionKind::FontAwesome => FONTAWESOME_HEADER@,
        _ => ""@,
    }
}

pub open spec fn ext_after_body(k: ExtensionKind) -> Seq<char> {
    match k {
        ExtensionKind::Codeblock => CODEBLOCK_AFTER_BODY@,
        _ => ""@,
    }
}

/// The extensions to register, in order.
pub fn registry() -> (r: Vec<ExtensionKind>)
    ensures
        r@ == registration_order(),
{
    let r = vec![
        ExtensionKind::Codeblock,
        ExtensionKind::Quote,
        ExtensionKind::Gist,
        ExtensionKind::AlertBox,
        ExtensionKind::Info,
        ExtensionKind::SocialMediaShare,
        ExtensionKind::Reading,
        ExtensionKind::Projects,
        ExtensionKind::Contacts,
        ExtensionKind::Stats,
        ExtensionKind::Analytics,
    ];
    assert(r@ =~= registration_order());
    r
}

/// The template an extension renders with: the body of the page named
/// `<extension name>.html` when one is loaded, else its built-in markup.
pub fn template_source(pages: &Pages, kind: ExtensionKind, builtin: &str) -> (r: String)
    ensures
        match pages.spec_get(ext_name(kind) + ".html"@) {
            Some(i) => r@ == pages.items@[i].content@,
            None => r@ == builtin@,
        },
{
    let name = kind.override_page();
    match pages.get(name.as_str()) {
        Some(page) => page.content.clone(),
        None => builtin.to_string(),
    }
}

/// The `codeblock` shortcode: highlighted source in a given language.
#[derive(Debug)]
pub struct Codeblock;

/// The `quote` shortcode: a block quotation, left, right or centered.
#[derive(Debug)]
pub struct Quote;

/// The `gist` shortcode: an embedded GitHub gist.
#[derive(Debug)]
pub struct Gist;

/// The `alertbox` shortcode: a styled, titled box around markdown.
#[derive(Debug)]
pub struct AlertBox;

/// The `info` shortcode: a note box around markdown.
#[derive(Debug)]
pub struct Info;

/// The `social_media_share` shortcode: share links for a post.
#[derive(Debug)]
pub struct SocialMediaShare;

/// The `reading` block: the book being read, from the `reading` section.
#[derive(Debug)]
pub struct Reading;

/// The `projects` block: the list in the `projects` section.
#[derive(Debug)]
pub struct Projects;

/// The `contacts` block: the site's contact entries.
#[derive(Debug)]
pub struct Contacts;

/// The `stats` block: view and like counters served from the `stats` section's link.
#[derive(Debug)]
pub struct Stats;

/// Analytics snippets from the `analytics` section, added after each page body.
#[derive(Debug)]
pub struct Analytics;

/// The `fontawesome` shortcode: an icon.
#[derive(Debug)]
pub struct FontAwesome;

pub const CODEBLOCK_HTML: &'static str = "<pre>
  <code class=\"language-{{lang}}\">{{ content | safe }}</code>
</pre>";

pub const QUOTE_HTML: &'static str = "<blockquote class=\"my-5 {{ position }}\">{{ content | safe }}</blockquote>";

pub const ALERTBOX_HTML: &'static str = "<div class=\"alert alert-{{ style }}\"><strong>{{ title }}</strong>{{ content | safe }}</div>";

pub const INFO_HTML: &'static str = "<div class=\"info\">{{ content | safe }}</div>";

pub const SOCIAL_MEDIA_SHARE_HTML: &'static str = "<div class=\"share\"><a href=\"https://twitter.com/intent/tweet?url={{ data | urlencode }}\">Share</a></div>";

pub const READING_HTML: &'static str = "<div class=\"reading\">{% if image %}<img src=\"{{ image }}\">{% endif %}<a href=\"{{ link }}\">{{ name }}</a>{% if series_name %} ({{ series_name }}){% endif %} by {{ author }}</div>";

pub const PROJECTS_HTML: &'static str = "<ul class=\"projects\">{% for project in projects %}<li><a href=\"{{ project.link }}\">{{ project.name }}</a>{% if project.description %}: {{ project.description }}{% endif %}</li>{% endfor %}</ul>";

pub const CONTACTS_HTML: &'static str = "<ul class=\"contacts\">{% for contact in contacts %}<li><a href=\"{{ contact.address }}\"><i class=\"{{ contact.icon }}\"></i> {{ contact.name }}</a></li>{% endfor %}</ul>";

pub const STATS_HTML: &'static str = "<div class=\"stats\"><span id=\"post-views\"></span> <span id=\"post-likes\"></span> <button id=\"likes-button\" onclick=\"like()\">Like</button></div>{{ scripts | safe }}";

pub const STATS_SCRIPTS: &'static str = "
<script src=\"https://cdn.jsdelivr.net/npm/js-cookie@3.0.5/dist/js.cookie.min.js\"></script>
<script>
    fetch('[url]').then(function (response) {
        return response.json();
    }).then(function (data) {
        if (data.status) {
            var post_views = document.getElementById(\"post-views\");
            post_views.innerHTML = data.value.views.toString() + \" views\";

            var post_likes = document.getElementById(\"post-likes\");
            post_likes.innerHTML = data.value.likes.toString() + \" likes\";

            let likes = Cookies.get('likes');

            if (likes) {
                let likes_object = JSON.parse(likes);
                const found = likes_object.find((element) => element == \"[slug]\");

                if (found) {
                    var likes_button = document.getElementById(\"likes-button\");
                    likes_button.setAttribute(\"disabled\", \"\");
                }
            }
        }
    }).catch(function (err) {
        console.warn('Something went wrong.', err);
    });

    function like() {
        fetch('[url]', {
            method: \"POST\"
        }).then(function (response) {
            return response.json();
        }).then(function (data) {
            if (data.status) {
                var post_views = document.getElementById(\"post-views\");
                post_views.innerHTML = data.value.views.toString() + \" views\";

                var post_likes = document.getElementById(\"post-likes\");
                post_likes.innerHTML = data.value.likes.toString() + \" likes\";

                var likes_object = [];
                let likes = Cookies.get('likes');
                if (likes) {
                    likes_object = JSON.parse(likes);
                }

                likes_object.push(\"[slug]\")
                Cookies.set('likes', JSON.stringify(likes_object))

                var likes_button = document.getElementById(\"likes-button\");
                likes_button.setAttribute(\"disabled\", \"\");
            }
        }).catch(function (err) {
            console.warn('Something went wrong.', err);
        });
    }
</script>
";

impl Codeblock {
    pub fn new() -> (r: Codeblock) {
        Codeblock
    }

    pub fn kind(&self) -> (r: ExtensionKind)
        ensures
            r == ExtensionKind::Codeblock,
    {
        ExtensionKind::Codeblock
    }
}

impl Quote {
    pub fn new() -> (r: Quote) {
        Quote
    }

    pub fn kind(&self) -> (r: ExtensionKind)
        ensures
            r == ExtensionKind::Quote,
    {
        ExtensionKind::Quote
    }

    /// The quote's placement: `left` or `right` when asked for, else `center`.
    pub fn position(requested: Option<&str>) -> (r: &'static str)
        ensures
            match requested {
                Some(p) if p@ == "left"@ => r@ == "left"@,
                Some(p) if p@ == "right"@ => r@ == "right"@,
                _ => r@ == "center"@,
            },
    {
        match requested {
            Some(p) => {
                let s = p.to_string();
                if s == "left".to_string() {
                    "left"
                } else if s == "right".to_string() {
                    "right"
                } else {
                    "center"
                }
            },
            None => "center",
        }
    }
}

impl Gist {
    pub fn new() -> (r: Gist) {
        Gist
    }

    pub fn kind(&self) -> (r: ExtensionKind)
        ensures
            r == ExtensionKind::Gist,
    {
        ExtensionKind::Gist
    }

    /// The embedding script for file `file_name` of gist `gist`.
    pub fn markup(gist: &str, file_name: &str) -> (r: String)
        ensures
            r@ == "<script src=\"https://gist.github.com/"@ + gist@ + ".js?file="@ + file_name@ + "\"></script>"@,
    {
        let a = concat("<script src=\"https://gist.github.com/", gist);
        let b = concat(a.as_str(), ".js?file=");
        let c = concat(b.as_str(), file_name);
        concat(c.as_str(), "\"></script>")
    }
}

impl AlertBox {
    pub fn new() -> (r: AlertBox) {
        AlertBox
    }

    pub fn kind(&self) -> (r: ExtensionKind)
        ensures
            r == ExtensionKind::AlertBox,
    {
        ExtensionKind::AlertBox
    }
}

impl Info {
    pub fn new() -> (r: Info) {
        Info
    }

    pub fn kind(&self) -> (r: ExtensionKind)
        ensures
            r == ExtensionKind::Info,
    {
        ExtensionKind::Info
    }
}

impl SocialMediaShare {
    pub fn new() -> (r: SocialMediaShare) {
        SocialMediaShare
    }

    pub fn kind(&self) -> (r: ExtensionKind)
        ensures
            r == ExtensionKind::SocialMediaShare,
    {
        ExtensionKind::SocialMediaShare
    }
}

impl Reading {
    pub fn new() -> (r: Reading) {
        Reading
    }

    pub fn kind(&self) -> (r: ExtensionKind)
        ensures
            r == ExtensionKind::Reading,
    {
        ExtensionKind::Reading
    }

    /// The block renders only where the configuration has a `reading` section.
    pub fn section(config: &TimugConfig) -> (r: Option<&ConfigSection>)
        ensures
            match config.spec_section("reading"@) {
                Some(i) => r == Some(&config.sections@[i]),
                None => r is None,
            },
    {
        config.get_config("reading")
    }
}

impl Projects {
    pub fn new() -> (r: Projects) {
        Projects
    }

    pub fn kind(&self) -> (r: ExtensionKind)
        ensures
            r == ExtensionKind::Projects,
    {
        ExtensionKind::Projects
    }

    /// The block renders only where the configuration has a `projects` section.
    pub fn section(config: &TimugConfig) -> (r: Option<&ConfigSection>)
        ensures
            match config.spec_section("projects"@) {
                Some(i) => r == Some(&config.sections@[i]),
                None => r is None,
            },
    {
        config.get_config("projects")
    }
}

impl Contacts {
    pub fn new() -> (r: Contacts) {
        Contacts
    }

    pub fn kind(&self) -> (r: ExtensionKind)
        ensures
            r == ExtensionKind::Contacts,
    {
        ExtensionKind::Contacts
    }
}

impl Stats {
    pub fn new() -> (r: Stats) {
        Stats
    }

    pub fn kind(&self) -> (r: ExtensionKind)
        ensures
            r == ExtensionKind::Stats,
    {
        ExtensionKind::Stats
    }

    /// The counter URL of a post: the configured link, one `/`, the URL-encoded
    /// slug and `.html`.
    pub fn url(link: &str, slug: &str) -> (r: String)
        ensures
            r@ == if link@.len() > 0 && link@.last() == '/' {
                link@ + url_encoded(slug@) + ".html"@
            } else {
                link@ + "/"@ + url_encoded(slug@) + ".html"@
            },
    {
        let encoded = percent_encode(slug);
        let n = link.unicode_len();
        let base = if n > 0 && link.get_char(n - 1) == '/' {
            link.to_string()
        } else {
            concat(link, "/")
        };
        let with_slug = concat(base.as_str(), encoded.as_str());
        concat(with_slug.as_str(), ".html")
    }

    /// The counter scripts for a post, with its URL and slug filled in.
    pub fn scripts(url: &str, slug: &str) -> (r: String)
        ensures
            r@ == replaced(replaced(STATS_SCRIPTS@, "[url]"@, url@), "[slug]"@, slug@),
    {
        let with_url = replace_all(STATS_SCRIPTS, "[url]", url);
        replace_all(with_url.as_str(), "[slug]", slug)
    }
}

impl Analytics {
    pub fn new() -> (r: Analytics) {
        Analytics
    }

    pub fn kind(&self) -> (r: ExtensionKind)
        ensures
            r == ExtensionKind::Analytics,
    {
        ExtensionKind::Analytics
    }

    /// The Google Analytics snippet for a measurement id.
    pub fn google_snippet(id: &str) -> (r: String)
        ensures
            r@ == google_text(id@),
    {
        let a = concat("<!-- Google tag (gtag.js) -->\n<script async src=\"https://www.googletagmanager.com/gtag/js?id=", id);
        let b = concat(a.as_str(), "\"></script>\n<script>\n  window.dataLayer = window.dataLayer || [];\n  function gtag(){dataLayer.push(arguments);}\n  gtag('js', new Date());\n  gtag('config', '");
        let c = concat(b.as_str(), id);
        concat(c.as_str(), "');\n</script>")
    }

    /// The Microsoft Clarity snippet for a project id.
    pub fn clarity_snippet(id: &str) -> (r: String)
        ensures
            r@ == clarity_text(id@),
    {
        let a = concat("<script type=\"text/javascript\">\n    (function(c,l,a,r,i,t,y){\n        c[a]=c[a]||function(){(c[a].q=c[a].q||[]).push(arguments)};\n        t=l.createElement(r);t.async=1;t.src=\"https://www.clarity.ms/tag/\"+i;\n        y=l.getElementsByTagName(r)[0];y.parentNode.insertBefore(t,y);\n    })(window, document, \"clarity\", \"script\", \"", id);
        concat(a.as_str(), "\");\n</script>")
    }

    /// The snippets that the `analytics` section asks for, Google's first; none
    /// without the section.
    pub fn after_bodies(config: &TimugConfig) -> (r: Vec<String>)
        ensures
            r@.map_values(|s: String| s@) == analytics_snippets(config),
    {
        let mut out: Vec<String> = Vec::new();
        match config.get_config("analytics") {
            Some(section) => {
                match section.field("google-analytics") {
                    Some(id) => out.push(Self::google_snippet(id.as_str())),
                    None => {},
                }
                let ghost first = out@.map_values(|s: String| s@);
                match section.field("microsoft-clarity") {
                    Some(id) => {
                        out.push(Self::clarity_snippet(id.as_str()));
                        assert(out@.map_values(|s: String| s@) =~= first.push(clarity_text(id@)));
                    },
                    None => {},
                }
                assert(out@.map_values(|s: String| s@) =~= analytics_snippets(config));
            },
            None => {
                assert(out@.map_values(|s: String| s@) =~= analytics_snippets(config));
            },
        }
        out
    }
}

/// The Google Analytics snippet text.
pub open spec fn google_text(id: Seq<char>) -> Seq<char> {
    "<!-- Google tag (gtag.js) -->\n<script async src=\"https://www.googletagmanager.com/gtag/js?id="@ + id
        + "\"></script>\n<script>\n  window.dataLayer = window.dataLayer || [];\n  function gtag(){dataLayer.push(arguments);}\n  gtag('js', new Date());\n  gtag('config', '"@
        + id + "');\n</script>"@
}

/// The Microsoft Clarity snippet text.
pub open spec fn clarity_text(id: Seq<char>) -> Seq<char> {
    "<script type=\"text/javascript\">\n    (function(c,l,a,r,i,t,y){\n        c[a]=c[a]||function(){(c[a].q=c[a].q||[]).push(arguments)};\n        t=l.createElement(r);t.async=1;t.src=\"https://www.clarity.ms/tag/\"+i;\n        y=l.getElementsByTagName(r)[0];y.parentNode.insertBefore(t,y);\n    })(window, document, \"clarity\", \"script\", \""@
        + id + "\");\n</script>"@
}

/// The analytics snippets that a configuration asks for: Google's when the
/// `analytics` section names a measurement id, then Clarity's when it names a
/// project id.
pub open spec fn analytics_snippets(config: &TimugConfig) -> Seq<Seq<char>> {
    match config.spec_section("analytics"@) {
        None => Seq::empty(),
        Some(s) => {
            let sec = config.sections@[s];
            (match sec.spec_field("google-analytics"@) {
                Some(i) => seq![google_text(sec.records@[0]@[i].1@)],
                None => Seq::empty(),
            }) + (match sec.spec_field("microsoft-clarity"@) {
                Some(i) => seq![clarity_text(sec.records@[0]@[i].1@)],
                None => Seq::empty(),
            })
        },
    }
}

impl FontAwesome {
    pub fn new() -> (r: FontAwesome) {
        FontAwesome
    }

    pub fn kind(&self) -> (r: ExtensionKind)
        ensures
            r == ExtensionKind::FontAwesome,
    {
        ExtensionKind::FontAwesome
    }

    /// The icon element for an icon of a style.
    pub fn markup(style: &str, icon: &str) -> (r: String)
        ensures
            r@ == "<i class=\"ml-1 mr-0.5 "@ + style@ + " fa-"@ + icon@ + "\"></i>"@,
    {
        let a = concat("<i class=\"ml-1 mr-0.5 ", style);
        let b = concat(a.as_str(), " fa-");
        let c = concat(b.as_str(), icon);
        concat(c.as_str(), "\"></i>")
    }
}

} // verus!
