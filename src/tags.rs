//! The tag index: one bucket of post positions per tag name, kept sorted by name.
use vstd::prelude::*;

use crate::text::chars_of;

verus! {

broadcast use vstd::string::group_string_axioms;

/// Lexicographic order of texts by code point, which is the byte order of their
/// UTF-8 encodings: `a` comes strictly before `b`.
pub open spec fn chars_lt(a: Seq<char>, b: Seq<char>) -> bool
    decreases a.len(),
{
    if a.len() == 0 {
        b.len() > 0
    } else if b.len() == 0 {
        false
    } else if a[0] != b[0] {
        (a[0] as int) < (b[0] as int)
    } else {
        chars_lt(a.drop_first(), b.drop_first())
    }
}

pub proof fn lemma_chars_lt_irreflexive(a: Seq<char>)
    ensures
        !chars_lt(a, a),
    decreases a.len(),
{
    if a.len() > 0 {
        lemma_chars_lt_irreflexive(a.drop_first());
    }
}

pub proof fn lemma_chars_lt_transitive(a: Seq<char>, b: Seq<char>, c: Seq<char>)
    requires
        chars_lt(a, b),
        chars_lt(b, c),
    ensures
        chars_lt(a, c),
    decreases a.len(),
{
    if a.len() > 0 && b.len() > 0 && c.len() > 0 && a[0] == b[0] && b[0] == c[0] {
        lemma_chars_lt_transitive(a.drop_first(), b.drop_first(), c.drop_first());
    }
}

pub proof fn lemma_chars_lt_total(a: Seq<char>, b: Seq<char>)
    requires
        a != b,
    ensures
        chars_lt(a, b) || chars_lt(b, a),
    decreases a.len(),
{
    if a.len() > 0 && b.len() > 0 {
        if a[0] == b[0] {
            if a.drop_first() == b.drop_first() {
                assert(a =~= seq![a[0]] + a.drop_first());
                assert(b =~= seq![b[0]] + b.drop_first());
            }
            lemma_chars_lt_total(a.drop_first(), b.drop_first());
        } else {
            assert(a[0] as int != b[0] as int);
        }
    } else if a.len() == 0 && b.len() == 0 {
        assert(a =~= b);
    }
}

/// Whether `a` comes strictly before `b`.
pub fn text_lt(a: &str, b: &str) -> (r: bool)
    ensures
        r == chars_lt(a@, b@),
{
    let x = chars_of(a);
    let y = chars_of(b);
    let mut i: usize = 0;
    assert(x@.skip(0) =~= x@);
    assert(y@.skip(0) =~= y@);
    while i < x.len() && i < y.len() && x[i] == y[i]
        invariant
            i <= x@.len(),
            i <= y@.len(),
            x@ == a@,
            y@ == b@,
            chars_lt(x@, y@) == chars_lt(x@.skip(i as int), y@.skip(i as int)),
        decreases x.len() - i,
    {
        proof {
            assert(x@.skip(i as int).drop_first() =~= x@.skip(i + 1));
            assert(y@.skip(i as int).drop_first() =~= y@.skip(i + 1));
        }
        i = i + 1;
    }
    if i == x.len() {
        i < y.len()
    } else if i == y.len() {
        false
    } else {
        proof {
            assert(x@.skip(i as int)[0] == x@[i as int]);
            assert(y@.skip(i as int)[0] == y@[i as int]);
        }
        x[i] < y[i]
    }
}

/// A tag and the positions, in the post collection, of the posts that carry it.
#[derive(Debug)]
pub struct Tag {
    pub name: String,
    pub posts: Vec<usize>,
}

/// Every tag used by the loaded posts, sorted by name, each name once.
#[derive(Debug)]
pub struct Tags {
    pub tags: Vec<Tag>,
}

impl Tags {
    /// Names strictly increase along the list.
    pub open spec fn wf(&self) -> bool {
        forall|i: int, j: int|
            0 <= i < j < self.tags@.len() ==> chars_lt(
                #[trigger] self.tags@[i].name@,
                #[trigger] self.tags@[j].name@,
            )
    }

    pub open spec fn has(&self, name: Seq<char>) -> bool {
        exists|i: int| 0 <= i < self.tags@.len() && #[trigger] self.tags@[i].name@ == name
    }

    /// A position where `name` stands, when it is in the list.
    pub open spec fn index_of(&self, name: Seq<char>) -> int {
        choose|i: int| 0 <= i < self.tags@.len() && #[trigger] self.tags@[i].name@ == name
    }

    /// Each tag name, with the positions of the posts that carry it.
    pub open spec fn view(&self) -> Map<Seq<char>, Seq<usize>> {
        Map::new(|name: Seq<char>| self.has(name), |name: Seq<char>| self.tags@[self.index_of(name)].posts@)
    }

    pub proof fn lemma_view_at(&self, i: int)
        requires
            self.wf(),
            0 <= i < self.tags@.len(),
        ensures
            self@.contains_key(self.tags@[i].name@),
            self@[self.tags@[i].name@] == self.tags@[i].posts@,
    {
        let name = self.tags@[i].name@;
        assert(self.has(name));
        let j = self.index_of(name);
        if j != i {
            if j < i {
                assert(chars_lt(self.tags@[j].name@, self.tags@[i].name@));
            } else {
                assert(chars_lt(self.tags@[i].name@, self.tags@[j].name@));
            }
            lemma_chars_lt_irreflexive(name);
        }
        assert(j == i);
        assert(self@.contains_key(name));
        assert(self@[name] == self.tags@[j].posts@);
    }

    /// The tag with exactly the given name.
    pub fn get(&self, name: &str) -> (r: Option<&Tag>)
        requires
            self.wf(),
        ensures
            match r {
                Some(t) => self@.contains_key(name@) && t.name@ == name@ && t.posts@ == self@[name@],
                None => !self@.contains_key(name@),
            },
    {
        let wanted = name.to_string();
        let mut i: usize = 0;
        while i < self.tags.len()
            invariant
                wanted@ == name@,
                self.wf(),
                i <= self.tags@.len(),
                forall|k: int| 0 <= k < i ==> (#[trigger] self.tags@[k]).name@ != name@,
            decreases self.tags.len() - i,
        {
            if self.tags[i].name == wanted {
                proof {
                    self.lemma_view_at(i as int);
                }
                return Some(&self.tags[i]);
            }
            i = i + 1;
        }
        None
    }

    /// An empty index.
    pub fn new() -> (r: Tags)
        ensures
            r.wf(),
            r@ == Map::<Seq<char>, Seq<usize>>::empty(),
    {
        let r = Tags { tags: Vec::new() };
        assert(r@ =~= Map::<Seq<char>, Seq<usize>>::empty());
        r
    }

    /// Files post `post` under tag `name`, creating the tag on first sight at its
    /// place in name order. A post already in the bucket is not added twice.
    pub fn add(&mut self, name: String, post: usize)
        requires
            old(self).wf(),
        ensures
            final(self).wf(),
            final(self)@ == old(self)@.insert(
                name@,
                if old(self)@.contains_key(name@) {
                    if old(self)@[name@].contains(post) {
                        old(self)@[name@]
                    } else {
                        old(self)@[name@].push(post)
                    }
                } else {
                    seq![post]
                },
            ),
    {
        let ghost old_self = *self;
        let mut k: usize = 0;
        while k < self.tags.len() && text_lt(self.tags[k].name.as_str(), name.as_str())
            invariant
                *self == old_self,
                k <= self.tags@.len(),
                forall|i: int| 0 <= i < k ==> chars_lt(#[trigger] self.tags@[i].name@, name@),
            decreases self.tags.len() - k,
        {
            k = k + 1;
        }
        if k < self.tags.len() && self.tags[k].name == name {
            let mut tag = self.tags.remove(k);
            let mut present = false;
            let mut j: usize = 0;
            while j < tag.posts.len()
                invariant
                    j <= tag.posts@.len(),
                    present == tag.posts@.take(j as int).contains(post),
                decreases tag.posts.len() - j,
            {
                proof {
                    let prefix = tag.posts@.take(j as int);
                    assert(tag.posts@.take(j + 1) =~= prefix.push(tag.posts@[j as int]));
                    assert(prefix.push(tag.posts@[j as int]).contains(post) == (prefix.contains(post) || tag.posts@[j as int] == post)) by {
                        if prefix.contains(post) {
                            let w = choose|w: int| 0 <= w < prefix.len() && prefix[w] == post;
                            assert(prefix.push(tag.posts@[j as int])[w] == post);
                        }
                        if tag.posts@[j as int] == post {
                            assert(prefix.push(tag.posts@[j as int])[j as int] == post);
                        }
                    }
                }
                if tag.posts[j] == post {
                    present = true;
                }
                j = j + 1;
            }
            assert(tag.posts@.take(j as int) =~= tag.posts@);
            if !present {
                tag.posts.push(post);
            }
            self.tags.insert(k, tag);
            proof {
                assert(self.tags@ =~= old_self.tags@.update(k as int, self.tags@[k as int]));
                assert(self.wf());
                old_self.lemma_view_at(k as int);
                self.lemma_view_at(k as int);
                assert forall|n: Seq<char>| #[trigger] self@.contains_key(n) == old_self@.insert(name@, self.tags@[k as int].posts@).contains_key(n) by {
                    if n != name@ && self.has(n) {
                        let i = choose|i: int| 0 <= i < self.tags@.len() && #[trigger] self.tags@[i].name@ == n;
                        assert(old_self.tags@[i].name@ == n);
                    }
                    if n != name@ && old_self.has(n) {
                        let i = choose|i: int| 0 <= i < old_self.tags@.len() && #[trigger] old_self.tags@[i].name@ == n;
                        assert(self.tags@[i].name@ == n);
                    }
                }
                assert forall|n: Seq<char>| #[trigger] self@.contains_key(n) && n != name@ implies self@[n] == old_self@[n] by {
                    let i = choose|i: int| 0 <= i < self.tags@.len() && #[trigger] self.tags@[i].name@ == n;
                    self.lemma_view_at(i);
                    old_self.lemma_view_at(i);
                }
                assert(self@ =~= old_self@.insert(name@, self.tags@[k as int].posts@));
            }
        } else {
            let ghost tag_name = name@;
            let tag = Tag { name, posts: vec![post] };
            proof {
                if k < old_self.tags@.len() {
                    lemma_chars_lt_total(old_self.tags@[k as int].name@, tag_name);
                }
            }
            self.tags.insert(k, tag);
            proof {
                assert forall|i: int, j: int| 0 <= i < j < self.tags@.len() implies chars_lt(
                    #[trigger] self.tags@[i].name@,
                    #[trigger] self.tags@[j].name@,
                ) by {
                    if i < k && j == k {
                    } else if i < k && j > k {
                        assert(self.tags@[j].name@ == old_self.tags@[j - 1].name@);
                    } else if j < k {
                        assert(self.tags@[i].name@ == old_self.tags@[i].name@);
                        assert(self.tags@[j].name@ == old_self.tags@[j].name@);
                    } else if i == k {
                        assert(self.tags@[j].name@ == old_self.tags@[j - 1].name@);
                        if j - 1 > k {
                            lemma_chars_lt_transitive(tag_name, old_self.tags@[k as int].name@, old_self.tags@[j - 1].name@);
                        }
                    } else {
                        assert(self.tags@[i].name@ == old_self.tags@[i - 1].name@);
                        assert(self.tags@[j].name@ == old_self.tags@[j - 1].name@);
                    }
                }
                assert(!old_self.has(tag_name)) by {
                    if old_self.has(tag_name) {
                        let i = choose|i: int| 0 <= i < old_self.tags@.len() && #[trigger] old_self.tags@[i].name@ == tag_name;
                        if i < k {
                            lemma_chars_lt_irreflexive(tag_name);
                        } else if i > k {
                            lemma_chars_lt_transitive(tag_name, old_self.tags@[k as int].name@, old_self.tags@[i].name@);
                            lemma_chars_lt_irreflexive(tag_name);
                        }
                    }
                }
                self.lemma_view_at(k as int);
                assert(self.tags@[k as int].posts@ =~= seq![post]);
                assert forall|n: Seq<char>| #[trigger] self@.contains_key(n) == old_self@.insert(tag_name, seq![post]).contains_key(n) by {
                    if n != tag_name && self.has(n) {
                        let i = choose|i: int| 0 <= i < self.tags@.len() && #[trigger] self.tags@[i].name@ == n;
                        if i < k {
                            assert(old_self.tags@[i].name@ == n);
                        } else {
                            assert(old_self.tags@[i - 1].name@ == n);
                        }
                    }
                    if n != tag_name && old_self.has(n) {
                        let i = choose|i: int| 0 <= i < old_self.tags@.len() && #[trigger] old_self.tags@[i].name@ == n;
                        if i < k {
                            assert(self.tags@[i].name@ == n);
                        } else {
                            assert(self.tags@[i + 1].name@ == n);
                        }
                    }
                }
                assert forall|n: Seq<char>| #[trigger] self@.contains_key(n) && n != tag_name implies self@[n] == old_self@[n] by {
                    let i = choose|i: int| 0 <= i < self.tags@.len() && #[trigger] self.tags@[i].name@ == n;
                    self.lemma_view_at(i);
                    if i < k {
                        old_self.lemma_view_at(i);
                    } else {
                        old_self.lemma_view_at(i - 1);
                    }
                }
                assert(self@ =~= old_self@.insert(tag_name, seq![post]));
            }
        }
    }
}

/// What the render of one tag listing needs: the output folder, the tag's
/// position in the index and the listing template.
#[derive(Debug)]
pub struct TagContext {
    pub folder: String,
    pub index: usize,
    pub template_path: String,
}

} // verus!
