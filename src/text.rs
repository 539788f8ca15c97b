//! Character-level helpers shared by the loaders and the output planner.
use vstd::prelude::*;
use vstd::string::StringExecFns;

verus! {

broadcast use vstd::string::group_string_axioms;

/// What `str::to_lowercase` makes of a text.
pub uninterp spec fn lower_of(s: Seq<char>) -> Seq<char>;

/// Whether a character has the Unicode `White_Space` property.
pub open spec fn white_space(c: char) -> bool {
    let u = c as u32;
    (0x9 <= u <= 0xd) || u == 0x20 || u == 0x85 || u == 0xa0 || u == 0x1680
        || (0x2000 <= u <= 0x200a) || u == 0x2028 || u == 0x2029 || u == 0x202f
        || u == 0x205f || u == 0x3000
}

/// ASCII text with `A` to `Z` made `a` to `z`.
pub open spec fn ascii_lower(s: Seq<char>) -> Seq<char> {
    s.map_values(|c: char| if 'A' <= c <= 'Z' { ((c as u32) + 32) as char } else { c })
}

/// Relies on `str::to_lowercase`: the result depends on the characters alone,
/// and on ASCII text it maps `A` to `Z` to `a` to `z` and keeps the rest.
#[verifier::external_body]
pub(crate) fn lowercase(s: &str) -> (r: String)
    ensures
        r@ == lower_of(s@),
        ascii(s@) ==> r@ == ascii_lower(s@),
{
    s.to_lowercase()
}

/// Whether a character has the Unicode `White_Space` property.
pub fn is_white_space(c: char) -> (r: bool)
    ensures
        r == white_space(c),
{
    let u = c as u32;
    (0x9 <= u && u <= 0xd) || u == 0x20 || u == 0x85 || u == 0xa0 || u == 0x1680
        || (0x2000 <= u && u <= 0x200a) || u == 0x2028 || u == 0x2029 || u == 0x202f
        || u == 0x205f || u == 0x3000
}

/// Relies on `String::from_iter` over characters: the characters in order.
#[verifier::external_body]
pub(crate) fn string_of(v: &Vec<char>) -> (r: String)
    ensures
        r@ == v@,
{
    String::from_iter(v)
}

/// Every character is ASCII.
pub open spec fn ascii(s: Seq<char>) -> bool {
    forall|i: int| 0 <= i < s.len() ==> (#[trigger] s[i] as u32) < 128
}

/// The ASCII transliteration that unidecode gives of a text.
pub uninterp spec fn ascii_of(s: Seq<char>) -> Seq<char>;

/// Relies on `unidecode::unidecode`: the result is ASCII, and ASCII text maps
/// to itself.
#[verifier::external_body]
pub(crate) fn transliterate(s: &str) -> (r: String)
    ensures
        r@ == ascii_of(s@),
        ascii(r@),
        ascii(s@) ==> r@ == s@,
{
    unidecode::unidecode(s)
}

/// Characters that percent-encoding leaves as they are.
pub open spec fn unreserved(c: char) -> bool {
    let u = c as u32;
    (48 <= u <= 57) || (65 <= u <= 90) || (97 <= u <= 122) || u == 45 || u == 46 || u == 95 || u == 126
}

/// An upper-case hexadecimal digit.
pub open spec fn hex_digit(d: int) -> char {
    seq!['0', '1', '2', '3', '4', '5', '6', '7', '8', '9', 'A', 'B', 'C', 'D', 'E', 'F'][d]
}

/// The percent-encoding of an ASCII text: unreserved characters stay, each
/// other one becomes `%` and two hexadecimal digits.
pub open spec fn percent_encoded(s: Seq<char>) -> Seq<char>
    decreases s.len(),
{
    if s.len() == 0 {
        Seq::empty()
    } else {
        let c = s.last();
        let u = c as u32;
        percent_encoded(s.drop_last()) + if unreserved(c) {
            seq![c]
        } else {
            seq!['%', hex_digit((u / 16) as int), hex_digit((u % 16) as int)]
        }
    }
}

/// What `urlencoding::encode` makes of a text.
pub uninterp spec fn url_encoded(s: Seq<char>) -> Seq<char>;

/// Relies on `urlencoding::encode`, which percent-encodes every byte but
/// alphanumerics and `-`, `.`, `_`, `~`, with upper-case digits; on ASCII text
/// each byte is one character.
#[verifier::external_body]
pub(crate) fn percent_encode(s: &str) -> (r: String)
    ensures
        r@ == url_encoded(s@),
        ascii(s@) ==> r@ == percent_encoded(s@),
{
    urlencoding::encode(s).into_owned()
}

/// Characters that a file-name component cannot hold as they are.
pub open spec fn separator(c: char) -> bool {
    c == ' ' || c == '\r' || c == '\n' || c == '\t'
}

/// The text with each separator replaced by `-`.
pub open spec fn dashed(s: Seq<char>) -> Seq<char> {
    s.map_values(|c: char| if separator(c) { '-' } else { c })
}

/// Replaces each separator by `-`.
pub fn dash_separators(s: &str) -> (r: String)
    ensures
        r@ == dashed(s@),
        ascii(s@) ==> ascii(r@),
{
    let v = chars_of(s);
    let mut out: Vec<char> = Vec::new();
    let mut i: usize = 0;
    while i < v.len()
        invariant
            v@ == s@,
            i <= v@.len(),
            out@ == dashed(v@.take(i as int)),
        decreases v.len() - i,
    {
        let c = v[i];
        if c == ' ' || c == '\r' || c == '\n' || c == '\t' {
            out.push('-');
        } else {
            out.push(c);
        }
        i = i + 1;
        assert(out@ =~= dashed(v@.take(i as int)));
    }
    assert(v@.take(i as int) =~= v@);
    proof {
        if ascii(s@) {
            assert forall|k: int| 0 <= k < out@.len() implies (#[trigger] out@[k] as u32) < 128 by {
                assert(s@[k] as u32 == s@[k] as u32);
            }
        }
    }
    string_of(&out)
}

/// `a` followed by `b`.
pub fn concat(a: &str, b: &str) -> (r: String)
    ensures
        r@ == a@ + b@,
{
    let s = a.to_string();
    s.concat(b)
}

/// `s` with each occurrence of `pat` (found from the left, without overlap)
/// replaced by `rep`.
pub open spec fn replaced(s: Seq<char>, pat: Seq<char>, rep: Seq<char>) -> Seq<char>
    decreases s.len(),
{
    if pat.len() == 0 || s.len() < pat.len() {
        s
    } else if s.take(pat.len() as int) == pat {
        rep + replaced(s.skip(pat.len() as int), pat, rep)
    } else {
        seq![s[0]] + replaced(s.drop_first(), pat, rep)
    }
}

/// Replaces each occurrence of `pat` by `rep`.
pub fn replace_all(s: &str, pat: &str, rep: &str) -> (r: String)
    ensures
        r@ == replaced(s@, pat@, rep@),
{
    let v = chars_of(s);
    let p = chars_of(pat);
    let q = chars_of(rep);
    let n = v.len();
    let m = p.len();
    let mut out: Vec<char> = Vec::new();
    let mut i: usize = 0;
    assert(v@.skip(0) =~= v@);
    while i < n && m > 0 && n - i >= m
        invariant
            v@ == s@,
            p@ == pat@,
            q@ == rep@,
            n == v@.len(),
            m == p@.len(),
            i <= n,
            out@ + replaced(v@.skip(i as int), p@, q@) == replaced(v@, p@, q@),
        decreases n - i,
    {
        let ghost rest = v@.skip(i as int);
        let mut k: usize = 0;
        while k < m && v[i + k] == p[k]
            invariant
                i + m <= n,
                n == v@.len(),
                m == p@.len(),
                k <= m,
                forall|j: int| 0 <= j < k ==> v@[i + j] == p@[j],
            decreases m - k,
        {
            k = k + 1;
        }
        if k == m {
            assert(rest.take(m as int) =~= p@);
            let mut j: usize = 0;
            let ghost base = out@;
            while j < q.len()
                invariant
                    j <= q@.len(),
                    out@ == base + q@.take(j as int),
                decreases q.len() - j,
            {
                out.push(q[j]);
                j = j + 1;
                assert(out@ =~= base + q@.take(j as int));
            }
            assert(q@.take(j as int) =~= q@);
            assert(rest.skip(m as int) =~= v@.skip(i + m));
            assert(out@ + replaced(v@.skip(i + m), p@, q@) =~= base + replaced(rest, p@, q@));
            i = i + m;
        } else {
            assert(rest.take(m as int)[k as int] != p@[k as int]);
            let ghost base = out@;
            out.push(v[i]);
            assert(rest.drop_first() =~= v@.skip(i + 1));
            assert(out@ + replaced(v@.skip(i + 1), p@, q@) =~= base + replaced(rest, p@, q@));
            i = i + 1;
        }
    }
    assert(replaced(v@.skip(i as int), p@, q@) == v@.skip(i as int));
    let mut t: usize = i;
    let ghost base = out@;
    while t < n
        invariant
            i <= t <= n,
            n == v@.len(),
            out@ == base + v@.subrange(i as int, t as int),
        decreases n - t,
    {
        out.push(v[t]);
        t = t + 1;
        assert(out@ =~= base + v@.subrange(i as int, t as int));
    }
    assert(v@.subrange(i as int, n as int) =~= v@.skip(i as int));
    string_of(&out)
}

/// The characters of a text, in order.
pub fn chars_of(s: &str) -> (r: Vec<char>)
    ensures
        r@ == s@,
{
    let mut r: Vec<char> = Vec::new();
    for c in it: s.chars()
        invariant
            it.seq() == s@,
            r@ == s@.take(it.index() as int),
    {
        r.push(c);
    }
    assert(r@ =~= s@);
    r
}

} // verus!
