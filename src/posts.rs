//! The post collection: drafts filtered out, newest first, tags folded into the index.
use vstd::prelude::*;

use crate::post::Post;
use crate::tags::Tags;

verus! {

broadcast use vstd::seq_lib::group_to_multiset_ensures;

/// The posts that enter the collection, in enumeration order: all of them when
/// drafts are shown, else those that are not drafts.
pub open spec fn visible(s: Seq<Post>, show_drafts: bool) -> Seq<Post>
    decreases s.len(),
{
    if s.len() == 0 {
        Seq::empty()
    } else if show_drafts || !s.last().draft {
        visible(s.drop_last(), show_drafts).push(s.last())
    } else {
        visible(s.drop_last(), show_drafts)
    }
}

/// Newest first: no post is strictly older than one after it.
pub open spec fn sorted_by_date_desc(s: Seq<Post>) -> bool {
    forall|i: int, j: int| 0 <= i < j < s.len() ==> !(#[trigger] s[i].date).before(#[trigger] s[j].date)
}

/// The tag names of a post.
pub open spec fn tag_names(p: Post) -> Seq<Seq<char>> {
    p.tags@.map_values(|t: String| t@)
}

/// The positions, in order, of the posts among the first `n` that carry tag `t`.
pub open spec fn carriers(s: Seq<Post>, t: Seq<char>, n: int) -> Seq<usize>
    decreases n,
{
    if n <= 0 {
        Seq::empty()
    } else if tag_names(s[n - 1]).contains(t) {
        carriers(s, t, n - 1).push((n - 1) as usize)
    } else {
        carriers(s, t, n - 1)
    }
}

/// Some post among the first `n` carries tag `t`.
pub open spec fn carried(s: Seq<Post>, t: Seq<char>, n: int) -> bool {
    exists|i: int| 0 <= i < n && #[trigger] tag_names(s[i]).contains(t)
}

/// The tag index of a post collection: each tag that a post carries, with the
/// positions of the posts that carry it.
pub open spec fn tag_index(s: Seq<Post>) -> Map<Seq<char>, Seq<usize>> {
    Map::new(|t: Seq<char>| carried(s, t, s.len() as int), |t: Seq<char>| carriers(s, t, s.len() as int))
}

/// The loaded posts, newest first.
#[derive(Debug)]
pub struct Posts {
    pub posts: Vec<Post>,
}

proof fn lemma_visible_no_drafts(s: Seq<Post>, show_drafts: bool)
    ensures
        show_drafts ==> visible(s, show_drafts) == s,
        !show_drafts ==> forall|i: int| 0 <= i < visible(s, show_drafts).len() ==> !(#[trigger] visible(s, show_drafts)[i]).draft,
    decreases s.len(),
{
    if s.len() > 0 {
        lemma_visible_no_drafts(s.drop_last(), show_drafts);
        if show_drafts {
            assert(s.drop_last().push(s.last()) =~= s);
        } else {
            let v = visible(s, show_drafts);
            let w = visible(s.drop_last(), show_drafts);
            assert forall|i: int| 0 <= i < v.len() implies !(#[trigger] v[i]).draft by {
                if i < w.len() {
                    assert(v[i] == w[i]);
                }
            }
        }
    }
}

proof fn lemma_carriers_below(s: Seq<Post>, t: Seq<char>, n: int)
    ensures
        forall|k: int| 0 <= k < carriers(s, t, n).len() ==> (#[trigger] carriers(s, t, n)[k]) < n,
        n >= 0 ==> (carriers(s, t, n).len() > 0 <==> carried(s, t, n)),
    decreases n,
{
    if n > 0 {
        lemma_carriers_below(s, t, n - 1);
        if carried(s, t, n) && !tag_names(s[n - 1]).contains(t) {
            let i = choose|i: int| 0 <= i < n && #[trigger] tag_names(s[i]).contains(t);
            assert(carried(s, t, n - 1));
        }
        if carried(s, t, n - 1) {
            let i = choose|i: int| 0 <= i < n - 1 && #[trigger] tag_names(s[i]).contains(t);
            assert(carried(s, t, n));
        }
        if tag_names(s[n - 1]).contains(t) {
            assert(carried(s, t, n));
        }
    }
}

/// With drafts hidden, a draft post is in neither the collection nor any tag
/// listing: every post of the collection, and every post a listing names, is
/// not a draft.
pub proof fn lemma_hidden_drafts_absent(items: Seq<Post>, posts: Seq<Post>)
    requires
        posts.to_multiset() == visible(items, false).to_multiset(),
    ensures
        forall|k: int| 0 <= k < items.len() && (#[trigger] items[k]).draft ==> !posts.contains(items[k]),
        forall|n: int| 0 <= n < posts.len() ==> !(#[trigger] posts[n]).draft,
        forall|t: Seq<char>, n: int| tag_index(posts).contains_key(t) && 0 <= n < tag_index(posts)[t].len()
            ==> (#[trigger] tag_index(posts)[t][n] as int) < posts.len() && !posts[tag_index(posts)[t][n] as int].draft,
{
    lemma_visible_no_drafts(items, false);
    let v = visible(items, false);
    assert forall|n: int| 0 <= n < posts.len() implies !(#[trigger] posts[n]).draft by {
        assert(posts.contains(posts[n]));
        assert(posts.to_multiset().count(posts[n]) > 0);
        assert(v.contains(posts[n]));
    }
    assert forall|k: int| 0 <= k < items.len() && (#[trigger] items[k]).draft implies !posts.contains(items[k]) by {
        if posts.contains(items[k]) {
            let n = choose|n: int| 0 <= n < posts.len() && posts[n] == items[k];
            assert(!posts[n].draft);
        }
    }
    assert forall|t: Seq<char>, n: int| tag_index(posts).contains_key(t) && 0 <= n < tag_index(posts)[t].len()
        implies (#[trigger] tag_index(posts)[t][n] as int) < posts.len() && !posts[tag_index(posts)[t][n] as int].draft by {
        lemma_carriers_below(posts, t, posts.len() as int);
        assert(tag_index(posts)[t] == carriers(posts, t, posts.len() as int));
    }
}

impl Posts {
    /// Builds the collection from the posts of one directory, in enumeration
    /// order: drafts are dropped unless `show_drafts`, the rest are sorted newest
    /// first (ties keep their order), and every tag they carry is filed in a new
    /// tag index under the post's position in the collection.
    pub fn load(items: Vec<Post>, show_drafts: bool) -> (r: (Posts, Tags))
        ensures
            r.0.posts@.to_multiset() == visible(items@, show_drafts).to_multiset(),
            show_drafts ==> r.0.posts@.to_multiset() == items@.to_multiset(),
            !show_drafts ==> forall|i: int| 0 <= i < r.0.posts@.len() ==> !(#[trigger] r.0.posts@[i]).draft,
            sorted_by_date_desc(r.0.posts@),
            r.1.wf(),
            r.1@ == tag_index(r.0.posts@),
    {
        let ghost all = items@;
        let mut sorted: Vec<Post> = Vec::new();
        let mut rest = items;
        let mut taken: usize = 0;
        let total: usize = rest.len();
        assert(all.take(0) =~= Seq::<Post>::empty());
        while rest.len() > 0
            invariant
                rest@.len() + taken == total,
                total == all.len(),
                rest@ == all.skip(taken as int),
                sorted@.to_multiset() == visible(all.take(taken as int), show_drafts).to_multiset(),
                sorted_by_date_desc(sorted@),
            decreases rest.len(),
        {
            let p = rest.remove(0);
            proof {
                assert(p == all[taken as int]);
                assert(rest@ =~= all.skip(taken + 1));
                assert(all.take(taken + 1).drop_last() =~= all.take(taken as int));
                assert(all.take(taken + 1).last() == p);
            }
            if show_drafts || !p.draft {
                let mut k: usize = 0;
                while k < sorted.len() && !sorted[k].date.is_before(&p.date)
                    invariant
                        k <= sorted@.len(),
                        forall|i: int| 0 <= i < k ==> !(#[trigger] sorted@[i]).date.before(p.date),
                    decreases sorted.len() - k,
                {
                    k = k + 1;
                }
                let ghost old_sorted = sorted@;
                let ghost pd = p.date;
                sorted.insert(k, p);
                proof {
                    assert(sorted@ == old_sorted.insert(k as int, sorted@[k as int]));
                    assert forall|i: int, j: int| 0 <= i < j < sorted@.len() implies !(#[trigger] sorted@[i].date).before(#[trigger] sorted@[j].date) by {
                        if i < k && j == k {
                        } else if j < k {
                            assert(sorted@[i] == old_sorted[i] && sorted@[j] == old_sorted[j]);
                        } else if i < k {
                            assert(sorted@[i] == old_sorted[i] && sorted@[j] == old_sorted[j - 1]);
                        } else if i == k {
                            assert(sorted@[j] == old_sorted[j - 1]);
                            assert(old_sorted[k as int].date.before(pd));
                        } else {
                            assert(sorted@[i] == old_sorted[i - 1] && sorted@[j] == old_sorted[j - 1]);
                        }
                    }
                }
            }
            taken = taken + 1;
        }
        assert(all.take(taken as int) =~= all);
        proof {
            lemma_visible_no_drafts(all, show_drafts);
            if !show_drafts {
                let v = visible(all, show_drafts);
                assert forall|i: int| 0 <= i < sorted@.len() implies !(#[trigger] sorted@[i]).draft by {
                    assert(sorted@.contains(sorted@[i]));
                    assert(sorted@.to_multiset().count(sorted@[i]) > 0);
                    assert(v.contains(sorted@[i]));
                }
            }
        }
        let ghost ordered = sorted@;
        let mut tags = Tags::new();
        let mut i: usize = 0;
        while i < sorted.len()
            invariant
                sorted@ == ordered,
                i <= sorted@.len(),
                tags.wf(),
                tags@ =~= Map::new(|t: Seq<char>| carried(ordered, t, i as int), |t: Seq<char>| carriers(ordered, t, i as int)),
            decreases sorted.len() - i,
        {
            let ghost names = tag_names(sorted@[i as int]);
            let mut j: usize = 0;
            while j < sorted[i].tags.len()
                invariant
                    sorted@ == ordered,
                    i < sorted@.len(),
                    names == tag_names(sorted@[i as int]),
                    j <= names.len(),
                    tags.wf(),
                    tags@ =~= Map::new(
                        |t: Seq<char>| carried(ordered, t, i as int) || names.take(j as int).contains(t),
                        |t: Seq<char>| if names.take(j as int).contains(t) { carriers(ordered, t, i as int).push(i) } else { carriers(ordered, t, i as int) },
                    ),
                decreases sorted@[i as int].tags@.len() - j,
            {
                let name = sorted[i].tags[j].clone();
                let ghost n = name@;
                proof {
                    lemma_carriers_below(ordered, n, i as int);
                    assert(names[j as int] == n);
                    assert(names.take(j + 1) =~= names.take(j as int).push(n));
                    assert forall|t: Seq<char>| names.take(j + 1).contains(t) == (names.take(j as int).contains(t) || t == n) by {
                        if names.take(j as int).contains(t) {
                            let w = choose|w: int| 0 <= w < j && #[trigger] names.take(j as int)[w] == t;
                            assert(names.take(j + 1)[w] == t);
                        }
                        if t == n {
                            assert(names.take(j + 1)[j as int] == t);
                        }
                        if names.take(j + 1).contains(t) && t != n {
                            let w = choose|w: int| 0 <= w < j + 1 && #[trigger] names.take(j + 1)[w] == t;
                            assert(names.take(j as int)[w] == t);
                        }
                    }
                    let b = carriers(ordered, n, i as int);
                    if !names.take(j as int).contains(n) && !carried(ordered, n, i as int) {
                        assert(b.push(i) =~= seq![i]);
                    }
                    if !names.take(j as int).contains(n) {
                        assert(!b.contains(i)) by {
                            if b.contains(i) {
                                let w = choose|w: int| 0 <= w < b.len() && #[trigger] b[w] == i;
                                assert(b[w] < i);
                            }
                        }
                    } else {
                        assert(b.push(i)[b.len() as int] == i);
                    }
                }
                let ghost mj = tags@;
                tags.add(name, i);
                proof {
                    let b = carriers(ordered, n, i as int);
                    let next = Map::new(
                        |t: Seq<char>| carried(ordered, t, i as int) || names.take(j + 1).contains(t),
                        |t: Seq<char>| if names.take(j + 1).contains(t) { carriers(ordered, t, i as int).push(i) } else { carriers(ordered, t, i as int) },
                    );
                    assert(next.contains_key(n));
                    assert(next[n] == b.push(i));
                    assert(tags@[n] == b.push(i));
                    assert forall|t: Seq<char>| t != n implies (#[trigger] tags@.contains_key(t) == next.contains_key(t)) by {
                        assert(names.take(j + 1).contains(t) == names.take(j as int).contains(t));
                    }
                    assert forall|t: Seq<char>| t != n && #[trigger] tags@.contains_key(t) implies tags@[t] == next[t] by {
                        assert(names.take(j + 1).contains(t) == names.take(j as int).contains(t));
                    }
                    assert(tags@ =~= next);
                }
                j = j + 1;
            }
            proof {
                assert(names.take(j as int) =~= names);
                assert forall|t: Seq<char>| carried(ordered, t, i + 1) == (carried(ordered, t, i as int) || names.contains(t)) by {
                    if carried(ordered, t, i + 1) && !names.contains(t) {
                        let w = choose|w: int| 0 <= w < i + 1 && #[trigger] tag_names(ordered[w]).contains(t);
                        assert(carried(ordered, t, i as int));
                    }
                    if carried(ordered, t, i as int) {
                        let w = choose|w: int| 0 <= w < i && #[trigger] tag_names(ordered[w]).contains(t);
                        assert(carried(ordered, t, i + 1));
                    }
                    if names.contains(t) {
                        assert(tag_names(ordered[i as int]).contains(t));
                        assert(carried(ordered, t, i + 1));
                    }
                }
            }
            i = i + 1;
        }
        (Posts { posts: sorted }, tags)
    }
}

} // verus!
