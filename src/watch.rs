//! Which filesystem events trigger a rebuild in the development loop.
use vstd::prelude::*;

use crate::text::chars_of;

verus! {

broadcast use vstd::string::group_string_axioms;

/// What happened to the paths of a filesystem event.
#[derive(Debug, Clone, Copy, PartialEq, Eq, Structural)]
pub enum ChangeKind {
    Create,
    ModifyData,
    ModifyName,
    ModifyOther,
    Remove,
    Access,
    Other,
}

/// One filesystem event: a kind and the paths it touched.
#[derive(Debug)]
pub struct FsEvent {
    pub kind: ChangeKind,
    pub paths: Vec<String>,
}

/// Kinds of change that alter the site's sources.
pub open spec fn alters_content(k: ChangeKind) -> bool {
    k == ChangeKind::Create || k == ChangeKind::ModifyData || k == ChangeKind::ModifyName || k == ChangeKind::Remove
}

/// A directory path without one final `/`: `a/b/` and `a/b` name the same directory.
pub open spec fn dir_base(dir: Seq<char>) -> Seq<char> {
    if dir.len() > 0 && dir.last() == '/' {
        dir.drop_last()
    } else {
        dir
    }
}

/// `p` is `base` or continues it with `/` and more components.
pub open spec fn under(p: Seq<char>, base: Seq<char>) -> bool {
    p == base || (base.len() < p.len() && p.take(base.len() as int) == base && p[base.len() as int] == '/')
}

/// `p` is the directory `dir` or lies inside it, whether or not `dir` is written
/// with a final `/`.
pub open spec fn within(p: Seq<char>, dir: Seq<char>) -> bool {
    under(p, dir_base(dir))
}

/// A path whose change calls for a rebuild: outside the deployment directory
/// and outside the version-control directory, when there is one.
pub open spec fn source_path(p: Seq<char>, deploy: Seq<char>, vcs: Option<Seq<char>>) -> bool {
    !within(p, deploy) && !(vcs matches Some(g) && within(p, g))
}

/// Whether an event calls for one rebuild: it alters content at some source path.
pub open spec fn needs_rebuild(kind: ChangeKind, paths: Seq<Seq<char>>, deploy: Seq<char>, vcs: Option<Seq<char>>) -> bool {
    alters_content(kind) && exists|i: int| 0 <= i < paths.len() && source_path(#[trigger] paths[i], deploy, vcs)
}

/// Whether `path` is `dir` or inside it.
pub fn is_within(path: &str, dir: &str) -> (r: bool)
    ensures
        r == within(path@, dir@),
{
    let p = chars_of(path);
    let mut d = chars_of(dir);
    if d.len() > 0 && d[d.len() - 1] == '/' {
        d.pop();
    }
    assert(d@ == dir_base(dir@));
    if d.len() > p.len() {
        proof {
            if p@ == d@ {
                assert(false);
            }
        }
        return false;
    }
    let mut i: usize = 0;
    while i < d.len()
        invariant
            p@ == path@,
            d@ == dir_base(dir@),
            d@.len() <= p@.len(),
            i <= d@.len(),
            forall|k: int| 0 <= k < i ==> p@[k] == d@[k],
        decreases d.len() - i,
    {
        if p[i] != d[i] {
            proof {
                assert(p@.take(d@.len() as int)[i as int] != d@[i as int]);
            }
            return false;
        }
        i = i + 1;
    }
    assert(p@.take(d@.len() as int) =~= d@);
    if p.len() == d.len() {
        assert(p@ =~= d@);
        true
    } else {
        p[d.len()] == '/'
    }
}

/// The directories that the development loop watches around: changes inside
/// them never trigger a rebuild.
#[derive(Debug)]
pub struct Watcher {
    pub deployment: String,
    pub vcs: Option<String>,
}

/// The paths of an event as texts.
pub open spec fn path_views(paths: Seq<String>) -> Seq<Seq<char>> {
    paths.map_values(|p: String| p@)
}

/// The version-control directory as a text.
pub open spec fn vcs_view(vcs: Option<String>) -> Option<Seq<char>> {
    match vcs {
        Some(g) => Some(g@),
        None => None,
    }
}

impl Watcher {
    /// Decides whether one event triggers a rebuild. A burst of paths in one event
    /// yields at most one rebuild; each event is decided afresh.
    pub fn on_event(&self, event: &FsEvent) -> (r: bool)
        ensures
            r == needs_rebuild(event.kind, path_views(event.paths@), self.deployment@, vcs_view(self.vcs)),
    {
        let kind = event.kind;
        if !(kind == ChangeKind::Create || kind == ChangeKind::ModifyData || kind == ChangeKind::ModifyName
            || kind == ChangeKind::Remove) {
            return false;
        }
        let ghost paths = path_views(event.paths@);
        let mut i: usize = 0;
        while i < event.paths.len()
            invariant
                paths == path_views(event.paths@),
                alters_content(event.kind),
                i <= event.paths@.len(),
                forall|k: int| 0 <= k < i ==> !source_path(#[trigger] paths[k], self.deployment@, vcs_view(self.vcs)),
            decreases event.paths.len() - i,
        {
            let p = event.paths[i].as_str();
            let in_deploy = is_within(p, self.deployment.as_str());
            let in_vcs = match &self.vcs {
                Some(g) => is_within(p, g.as_str()),
                None => false,
            };
            if !in_deploy && !in_vcs {
                assert(paths.len() == event.paths@.len());
                assert(source_path(paths[i as int], self.deployment@, vcs_view(self.vcs)));
                return true;
            }
            i = i + 1;
        }
        false
    }
}

proof fn lemma_nested(p: Seq<char>, a: Seq<char>, b: Seq<char>)
    requires
        under(p, a),
        under(p, b),
    ensures
        under(a, b) || under(b, a),
{
    if a.len() < b.len() {
        assert(a.len() < p.len());
        assert(b.take(a.len() as int) =~= p.take(a.len() as int));
        assert(b[a.len() as int] == p[a.len() as int]);
    } else if b.len() < a.len() {
        assert(b.len() < p.len());
        assert(a.take(b.len() as int) =~= p.take(b.len() as int));
        assert(a[b.len() as int] == p[b.len() as int]);
    } else {
        if a.len() < p.len() {
            assert(a =~= p.take(a.len() as int));
            assert(b =~= p.take(b.len() as int));
        }
    }
}

/// A change that alters content inside a source directory that is apart from
/// the deployment and version-control directories (neither lies inside the
/// other) triggers one rebuild; one whose paths all lie inside the deployment
/// directory triggers none.
pub proof fn lemma_rebuild_decision(
    kind: ChangeKind,
    paths: Seq<Seq<char>>,
    source_dir: Seq<char>,
    deploy: Seq<char>,
    vcs: Option<Seq<char>>,
)
    ensures
        alters_content(kind) && paths.len() > 0 && within(paths[0], source_dir)
            && !within(dir_base(source_dir), deploy) && !within(dir_base(deploy), source_dir)
            && !(vcs matches Some(g) && (within(dir_base(source_dir), g) || within(dir_base(g), source_dir)))
            ==> needs_rebuild(kind, paths, deploy, vcs),
        (forall|i: int| 0 <= i < paths.len() ==> within(#[trigger] paths[i], deploy))
            ==> !needs_rebuild(kind, paths, deploy, vcs),
{
    if alters_content(kind) && paths.len() > 0 && within(paths[0], source_dir)
        && !within(dir_base(source_dir), deploy) && !within(dir_base(deploy), source_dir)
        && !(vcs matches Some(g) && (within(dir_base(source_dir), g) || within(dir_base(g), source_dir))) {
        if within(paths[0], deploy) {
            lemma_nested(paths[0], dir_base(source_dir), dir_base(deploy));
        }
        if let Some(g) = vcs {
            if within(paths[0], g) {
                lemma_nested(paths[0], dir_base(source_dir), dir_base(g));
            }
        }
        assert(source_path(paths[0], deploy, vcs));
    }
}

} // verus!
