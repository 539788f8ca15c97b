//! A post: a dated, tagged document loaded from one content file.
use vstd::prelude::*;

use crate::date::{parse_datetime, parsed_datetime, DateTime};
use crate::error::Error;
use crate::text::{chars_of, lower_of, string_of};
use crate::text::lowercase;
use crate::tools::{file_name, file_name_span};

verus! {

broadcast use vstd::string::group_string_axioms;

/// The front-matter fields of a post, as decoded; absent fields are empty.
#[derive(Debug)]
pub struct PostMeta {
    pub title: String,
    pub date: Option<String>,
    pub slug: String,
    pub tags: Vec<String>,
    pub draft: bool,
}

/// A loaded post.
#[derive(Debug)]
pub struct Post {
    pub title: String,
    pub content: String,
    pub date: DateTime,
    pub slug: String,
    pub tags: Vec<String>,
    pub draft: bool,
}

/// The position of the last `.` in `s[0..i)`, or -1.
pub open spec fn last_dot_before(s: Seq<char>, i: int) -> int
    decreases i,
{
    if i <= 0 {
        -1
    } else if s[i - 1] == '.' {
        i - 1
    } else {
        last_dot_before(s, i - 1)
    }
}

/// A file name without its extension: the text before the last `.`, unless
/// that `.` opens the name.
pub open spec fn stem(name: Seq<char>) -> Seq<char> {
    let k = last_dot_before(name, name.len() as int);
    if k > 0 {
        name.take(k)
    } else {
        name
    }
}

/// The lower-cased file name of a path whose file-name span is `(a, b)`.
pub open spec fn lowered_name(path: Seq<char>, span: (int, int)) -> Seq<char> {
    lower_of(path.subrange(span.0, span.1))
}

/// A file name without its extension.
pub fn file_stem(name: &str) -> (r: String)
    ensures
        r@ == stem(name@),
{
    let v = chars_of(name);
    let mut i: usize = v.len();
    while i > 0 && v[i - 1] != '.'
        invariant
            i <= v@.len(),
            v@ == name@,
            last_dot_before(v@, i as int) == last_dot_before(v@, v@.len() as int),
        decreases i,
    {
        i = i - 1;
    }
    if i > 1 {
        let mut out: Vec<char> = Vec::new();
        let mut j: usize = 0;
        while j < i - 1
            invariant
                i <= v@.len(),
                j <= i - 1,
                out@ == v@.take(j as int),
            decreases i - 1 - j,
        {
            out.push(v[j]);
            j = j + 1;
            assert(out@ =~= v@.take(j as int));
        }
        string_of(&out)
    } else {
        name.to_string()
    }
}

impl Post {
    /// Builds a post from its decoded front matter (or the decoder's complaint),
    /// its body and the path it was read from. An empty title becomes the file
    /// name, an empty slug the lower-cased file name without extension, and a
    /// missing date the Unix epoch.
    pub fn load_from_parts(meta: Result<PostMeta, String>, body: &str, path: &str) -> (r: Result<Post, Error>)
        ensures
            match meta {
                Err(reason) => r matches Err(Error::FrontMatterInvalid { path: p, reason: q }) && p@ == path@ && q@ == reason@,
                Ok(m) => match (m.date, file_name_span(path@)) {
                    (Some(t), _) if parsed_datetime(t@) is None =>
                        r matches Err(Error::DateInvalid { path: p, value: v }) && p@ == path@ && v@ == t@,
                    (_, None) => r matches Err(Error::FileNameMissing { path: p }) && p@ == path@,
                    (_, Some(span)) => r matches Ok(post) && {
                        &&& post.title@ == if m.title@.len() == 0 { path@.subrange(span.0, span.1) } else { m.title@ }
                        &&& post.slug@ == if m.slug@.len() == 0 { stem(lowered_name(path@, span)) } else { m.slug@ }
                        &&& post.content@ == body@
                        &&& post.tags == m.tags
                        &&& post.draft == m.draft
                        &&& post.date.wf()
                        &&& match m.date {
                            Some(t) => parsed_datetime(t@) == Some(post.date.fields()),
                            None => post.date == DateTime::epoch_value(),
                        }
                    },
                },
            },
    {
        let m = match meta {
            Err(reason) => {
                return Err(Error::FrontMatterInvalid { path: path.to_string(), reason });
            },
            Ok(m) => m,
        };
        let date = match &m.date {
            Some(t) => match parse_datetime(t.as_str()) {
                Some(d) => d,
                None => {
                    return Err(Error::DateInvalid { path: path.to_string(), value: t.clone() });
                },
            },
            None => DateTime::epoch(),
        };
        let written_name = match file_name(path) {
            Ok(f) => f,
            Err(e) => {
                return Err(e);
            },
        };
        let file_name = lowercase(written_name.as_str());
        let title = if m.title.as_str().unicode_len() == 0 { written_name } else { m.title };
        let slug = if m.slug.as_str().unicode_len() == 0 { file_stem(file_name.as_str()) } else { m.slug };
        Ok(Post { title, content: body.to_string(), date, slug, tags: m.tags, draft: m.draft })
    }

    pub fn title(&self) -> (r: &String)
        ensures
            r == &self.title,
    {
        &self.title
    }

    pub fn content(&self) -> (r: &String)
        ensures
            r == &self.content,
    {
        &self.content
    }

    /// Replaces the body, as the render does once directives are expanded.
    pub fn set_content(&mut self, content: String)
        ensures
            final(self).content == content,
            final(self).title == old(self).title,
            final(self).date == old(self).date,
            final(self).slug == old(self).slug,
            final(self).tags == old(self).tags,
            final(self).draft == old(self).draft,
    {
        self.content = content;
    }

    pub fn slug(&self) -> (r: &String)
        ensures
            r == &self.slug,
    {
        &self.slug
    }

    pub fn draft(&self) -> (r: bool)
        ensures
            r == self.draft,
    {
        self.draft
    }

    pub fn date(&self) -> (r: DateTime)
        ensures
            r == self.date,
    {
        self.date
    }

    pub fn tags(&self) -> (r: &Vec<String>)
        ensures
            r == &self.tags,
    {
        &self.tags
    }
}

} // verus!
