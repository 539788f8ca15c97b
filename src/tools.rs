//! Path helpers and the front-matter splitter.
use vstd::prelude::*;
use vstd::string::StrSliceExecFns;

use crate::error::Error;
use crate::text::{
    ascii_of, chars_of, dash_separators, dashed, is_white_space, lower_of, lowercase, percent_encode,
    percent_encoded, transliterate, white_space,
};

verus! {

broadcast use vstd::string::group_string_axioms;

/// Every character of `s` is whitespace.
pub open spec fn blank(s: Seq<char>) -> bool {
    forall|i: int| 0 <= i < s.len() ==> white_space(#[trigger] s[i])
}

/// A line that reads `---` once surrounding whitespace is trimmed.
pub open spec fn is_delimiter(line: Seq<char>) -> bool {
    exists|a: int|
        0 <= a && a + 3 <= line.len() && blank(#[trigger] line.subrange(0, a))
            && line.subrange(a, a + 3) == seq!['-', '-', '-']
            && blank(line.subrange(a + 3, line.len() as int))
}

/// Scans `s` from position `i`, where the current line began at `start`, and `opened`
/// is the position just after the opening delimiter line, once one was seen.
/// The block must open on the first line; it closes at the next delimiter line.
/// The result is the front-matter block `[meta_start, meta_end)` and the start of the body.
/// Only lines terminated by a newline are considered.
pub open spec fn front_matter_from(s: Seq<char>, i: int, start: int, opened: Option<int>) -> Option<(int, int, int)>
    decreases s.len() - i,
{
    if i < 0 || i >= s.len() {
        None
    } else if s[i] == '\n' {
        if is_delimiter(s.subrange(start, i)) {
            match opened {
                Some(m) => Some((m, if start - 1 > m { start - 1 } else { m }, i + 1)),
                None => front_matter_from(s, i + 1, i + 1, Some(i + 1)),
            }
        } else {
            match opened {
                Some(_) => front_matter_from(s, i + 1, i + 1, opened),
                None => None,
            }
        }
    } else {
        front_matter_from(s, i + 1, start, opened)
    }
}

/// The front-matter split of a whole text: block bounds and body start, if both
/// delimiter lines are there.
pub open spec fn front_matter(s: Seq<char>) -> Option<(int, int, int)> {
    front_matter_from(s, 0, 0, None)
}

/// A text split into its front-matter block, when it has one, and its body.
#[derive(Debug)]
pub struct FrontMatterInfo<'a> {
    pub metadata: Option<&'a str>,
    pub content: &'a str,
}

/// Whether `v[a..b]` is a delimiter line.
fn is_delimiter_at(v: &Vec<char>, a: usize, b: usize) -> (r: bool)
    requires
        a <= b <= v@.len(),
    ensures
        r == is_delimiter(v@.subrange(a as int, b as int)),
{
    let ghost line = v@.subrange(a as int, b as int);
    let mut lo: usize = a;
    while lo < b && is_white_space(v[lo])
        invariant
            a <= lo <= b <= v@.len(),
            forall|k: int| a <= k < lo ==> white_space(#[trigger] v@[k]),
        decreases b - lo,
    {
        lo = lo + 1;
    }
    let mut hi: usize = b;
    while hi > lo && is_white_space(v[hi - 1])
        invariant
            a <= lo <= hi <= b <= v@.len(),
            forall|k: int| hi <= k < b ==> white_space(#[trigger] v@[k]),
        decreases hi - lo,
    {
        hi = hi - 1;
    }
    let r = hi - lo == 3 && v[lo] == '-' && v[lo + 1] == '-' && v[lo + 2] == '-';
    proof {
        let la = (lo - a) as int;
        if r {
            assert(blank(line.subrange(0, la)));
            assert(line.subrange(la, la + 3) =~= seq!['-', '-', '-']);
            assert(blank(line.subrange(la + 3, line.len() as int)));
        } else if is_delimiter(line) {
            let w = choose|w: int|
                0 <= w && w + 3 <= line.len() && blank(#[trigger] line.subrange(0, w))
                    && line.subrange(w, w + 3) == seq!['-', '-', '-']
                    && blank(line.subrange(w + 3, line.len() as int));
            assert(line.subrange(w, w + 3)[0] == '-');
            assert(line.subrange(w, w + 3)[2] == '-');
            assert(!white_space(line[w]));
            if la < w {
                assert(line.subrange(0, w)[la] == line[la]);
            }
            assert(la == w);
            assert(!white_space(line[w + 2]));
            assert(hi >= lo + 3);
            if hi > lo + 3 {
                let t = (hi - 1 - a) as int;
                assert(line.subrange(w + 3, line.len() as int)[t - w - 3] == line[t]);
            }
            assert(line.subrange(w, w + 3)[1] == '-');
            assert(false);
        }
    }
    r
}

/// Splits a text into its front-matter block and its body. The block lies between
/// a first line that reads `---` and the next line that does. Without such a pair,
/// there is no block and the body is the whole text.
pub fn parse_yaml_front_matter<'a>(content: &'a str) -> (r: FrontMatterInfo<'a>)
    ensures
        match front_matter(content@) {
            Some((m, e, b)) => r.metadata is Some && r.metadata->Some_0@ == content@.subrange(m, e)
                && r.content@ == content@.subrange(b, content@.len() as int),
            None => r.metadata is None && r.content@ == content@,
        },
{
    let v = chars_of(content);
    let n = v.len();
    let mut i: usize = 0;
    let mut start: usize = 0;
    let mut opened: Option<usize> = None;
    while i < n
        invariant
            n == v@.len(),
            v@ == content@,
            start <= i <= n,
            opened matches Some(m) ==> m <= start,
            front_matter_from(v@, i as int, start as int, match opened {
                Some(m) => Some(m as int),
                None => None,
            }) == front_matter(v@),
        decreases n - i,
    {
        if v[i] == '\n' {
            if is_delimiter_at(&v, start, i) {
                match opened {
                    Some(m) => {
                        let e: usize = if start > m + 1 { start - 1 } else { m };
                        let meta = content.substring_char(m, e);
                        let body = content.substring_char(i + 1, n);
                        return FrontMatterInfo { metadata: Some(meta), content: body };
                    },
                    None => {
                        opened = Some(i + 1);
                    },
                }
            } else if opened.is_none() {
                return FrontMatterInfo { metadata: None, content };
            }
            start = i + 1;
        }
        i = i + 1;
    }
    FrontMatterInfo { metadata: None, content }
}

} // verus!

verus! {

/// The span `[a, b)` of the last segment of a `/`-separated path that is
/// neither empty nor `.`, scanning back from `i` where the current segment ends
/// at `seg_end`. A last segment `..` gives none.
pub open spec fn name_span_from(s: Seq<char>, i: int, seg_end: int) -> Option<(int, int)>
    decreases i,
{
    if i <= 0 {
        if seg_end > 0 && s.subrange(0, seg_end) != seq!['.'] {
            named_segment(s, 0, seg_end)
        } else {
            None
        }
    } else if s[i - 1] == '/' {
        if seg_end > i && s.subrange(i, seg_end) != seq!['.'] {
            named_segment(s, i, seg_end)
        } else {
            name_span_from(s, i - 1, i - 1)
        }
    } else {
        name_span_from(s, i - 1, seg_end)
    }
}

/// A segment names a file unless it is `..`.
pub open spec fn named_segment(s: Seq<char>, a: int, b: int) -> Option<(int, int)> {
    if s.subrange(a, b) == seq!['.', '.'] {
        None
    } else {
        Some((a, b))
    }
}

/// The span of a path's file-name component, if it has one.
pub open spec fn file_name_span(s: Seq<char>) -> Option<(int, int)> {
    name_span_from(s, s.len() as int, s.len() as int)
}

/// The final component of a path, as written.
pub fn file_name(path: &str) -> (r: Result<String, Error>)
    ensures
        match file_name_span(path@) {
            Some((a, b)) => r is Ok && r->Ok_0@ == path@.subrange(a, b),
            None => r matches Err(Error::FileNameMissing { path: p }) && p@ == path@,
        },
{
    let v = chars_of(path);
    let n = v.len();
    let mut i: usize = n;
    let mut seg_end: usize = n;
    loop
        invariant
            n == v@.len(),
            v@ == path@,
            i <= seg_end <= n,
            name_span_from(v@, i as int, seg_end as int) == file_name_span(v@),
        decreases i,
    {
        if i == 0 || v[i - 1] == '/' {
            let dot = seg_end - i == 1 && v[i] == '.';
            proof {
                if seg_end - i == 1 {
                    assert((v@.subrange(i as int, seg_end as int) == seq!['.']) == (v@[i as int] == '.')) by {
                        if v@[i as int] == '.' {
                            assert(v@.subrange(i as int, seg_end as int) =~= seq!['.']);
                        } else {
                            assert(v@.subrange(i as int, seg_end as int)[0] == v@[i as int]);
                        }
                    }
                } else {
                    assert(v@.subrange(i as int, seg_end as int).len() != seq!['.'].len());
                }
            }
            if seg_end > i && !dot {
                let dots = seg_end - i == 2 && v[i] == '.' && v[i + 1] == '.';
                proof {
                    let seg = v@.subrange(i as int, seg_end as int);
                    if seg_end - i == 2 {
                        if v@[i as int] == '.' && v@[i + 1] == '.' {
                            assert(seg =~= seq!['.', '.']);
                        } else {
                            assert(seg[0] == v@[i as int] && seg[1] == v@[i + 1]);
                        }
                    } else {
                        assert(seg.len() != seq!['.', '.'].len());
                    }
                }
                if dots {
                    return Err(Error::FileNameMissing { path: path.to_string() });
                }
                let name = path.substring_char(i, seg_end);
                return Ok(name.to_string());
            }
            if i == 0 {
                return Err(Error::FileNameMissing { path: path.to_string() });
            }
            seg_end = i - 1;
        }
        i = i - 1;
    }
}

/// The final component of a path, lower-cased.
pub fn get_file_name(path: &str) -> (r: Result<String, Error>)
    ensures
        match file_name_span(path@) {
            Some((a, b)) => r is Ok && r->Ok_0@ == lower_of(path@.subrange(a, b)),
            None => r matches Err(Error::FileNameMissing { path: p }) && p@ == path@,
        },
{
    match file_name(path) {
        Ok(name) => Ok(lowercase(name.as_str())),
        Err(e) => Err(e),
    }
}

/// The path as a string.
pub fn get_path(path: &str) -> (r: Result<String, Error>)
    ensures
        r is Ok && r->Ok_0@ == path@,
{
    Ok(path.to_string())
}

/// A text made into a URL component: lower-cased, transliterated to ASCII,
/// separators turned into `-`, then percent-encoded.
pub fn url_encode(url: String) -> (r: String)
    ensures
        r@ == percent_encoded(dashed(ascii_of(lower_of(url@)))),
{
    let lower = lowercase(url.as_str());
    let plain = transliterate(lower.as_str());
    let dashed = dash_separators(plain.as_str());
    percent_encode(dashed.as_str())
}

} // verus!
