//! The filesystem model and the repository discovery engine: classification
//! of directory names and directory trees, and the pruning depth-first walk.
use vstd::prelude::*;
use vstd::string::StrSliceExecFns;
use crate::UsageError;

verus! {

broadcast use vstd::std_specs::vec::group_vec_axioms;

/// A snapshot of one filesystem subtree, as the walker sees it: each node is
/// a file or a directory with its entry name and, for directories, the list
/// of children. A symlinked directory appears as a `Dir` node when symlinks
/// are followed, and as a `File` node otherwise.
pub enum FsTree {
    File { name: String },
    Dir { name: String, children: Vec<FsTree> },
}

/// The entry name of a node, as a sequence of characters.
pub open spec fn node_name(t: FsTree) -> Seq<char> {
    match t {
        FsTree::File { name } => name@,
        FsTree::Dir { name, .. } => name@,
    }
}

/// The views of a sequence of strings.
pub open spec fn strings_view(v: Seq<String>) -> Seq<Seq<char>> {
    v.map_values(|s: String| s@)
}

/// A name is hidden when its first character is the hidden-entry marker.
pub open spec fn spec_hidden(name: Seq<char>) -> bool {
    name.len() > 0 && name[0] == '.'
}

/// A node signals a repository root when it is a directory child literally
/// named with the repository marker.
pub open spec fn is_marker_dir(t: FsTree) -> bool {
    t is Dir && node_name(t) == ".git"@
}

/// A directory is a repository root iff its own name is not hidden, it has at
/// least one child, and one of its children is a directory named with the
/// repository marker. Files are never repository roots.
pub open spec fn spec_is_git_repository(t: FsTree) -> bool {
    match t {
        FsTree::File { .. } => false,
        FsTree::Dir { name, children } => !spec_hidden(name@) && children@.len() > 0
            && (exists|i: int| 0 <= i < children@.len() && is_marker_dir(#[trigger] children@[i])),
    }
}

/// True iff `file_name` begins with the hidden-entry marker character.
/// An empty name is not hidden.
pub fn hidden(file_name: &str) -> (r: bool)
    ensures
        r == spec_hidden(file_name@),
{
    if file_name.is_empty() {
        false
    } else {
        file_name.get_char(0) == '.'
    }
}

/// The entry name of a node.
pub fn entry_name(t: &FsTree) -> (r: &String)
    ensures
        r@ == node_name(*t),
{
    match t {
        FsTree::File { name } => name,
        FsTree::Dir { name, .. } => name,
    }
}

/// True iff the given node is a repository root. `None` stands for a path
/// that does not exist or cannot be read: it never classifies as a
/// repository.
pub fn is_git_repository(node: Option<&FsTree>) -> (r: bool)
    ensures
        r == (node matches Some(t) && spec_is_git_repository(*t)),
{
    match node {
        Option::None => false,
        Option::Some(FsTree::File { .. }) => false,
        Option::Some(FsTree::Dir { name, children }) => {
            let marker = ".git".to_owned();
            let mut found = false;
            let mut i: usize = 0;
            while i < children.len()
                invariant
                    0 <= i <= children@.len(),
                    marker@ == ".git"@,
                    found == (exists|j: int|
                        0 <= j < i && is_marker_dir(#[trigger] children@[j])),
                decreases children@.len() - i,
            {
                let child = &children[i];
                match child {
                    FsTree::Dir { name: child_name, .. } => {
                        if child_name.eq(&marker) {
                            assert(is_marker_dir(children@[i as int]));
                            found = true;
                        }
                    },
                    FsTree::File { .. } => {},
                }
                i += 1;
            }
            !hidden(name.as_str()) && children.len() > 0 && found
        },
    }
}

/// An absolute path confirmed to be a repository root, kept as its
/// components: the parent of the scanned root, then one entry name per
/// directory level.
pub struct RepositoryPath {
    pub components: Vec<String>,
}

/// The components joined into one path string, a separator between any two.
pub open spec fn spec_join(parts: Seq<Seq<char>>) -> Seq<char>
    decreases parts.len(),
{
    if parts.len() == 0 {
        Seq::empty()
    } else if parts.len() == 1 {
        parts[0]
    } else {
        spec_join(parts.drop_last()) + "/"@ + parts.last()
    }
}

/// The views of a sequence of repository paths.
pub open spec fn repo_paths_view(v: Seq<RepositoryPath>) -> Seq<Seq<Seq<char>>> {
    v.map_values(|p: RepositoryPath| strings_view(p.components@))
}

impl RepositoryPath {
    /// The path as one string, the components separated by the path
    /// separator.
    pub fn path_string(&self) -> (r: String)
        ensures
            r@ == spec_join(strings_view(self.components@)),
    {
        let ghost sv = strings_view(self.components@);
        let mut out = String::new();
        let mut i: usize = 0;
        while i < self.components.len()
            invariant
                0 <= i <= self.components@.len(),
                sv == strings_view(self.components@),
                out@ == spec_join(sv.take(i as int)),
            decreases self.components@.len() - i,
        {
            if i > 0 {
                out.append("/");
            }
            out.append(self.components[i].as_str());
            proof {
                let taken = sv.take(i + 1);
                assert(taken.drop_last() =~= sv.take(i as int));
                assert(taken.last() == self.components@[i as int]@);
                if i == 0 {
                    assert(out@ =~= spec_join(taken));
                }
            }
            i += 1;
        }
        proof {
            assert(sv.take(self.components@.len() as int) =~= sv);
        }
        out
    }
}

/// The repositories discovered beneath node `t`, in depth-first pre-order,
/// where `base` is the component path of `t` itself. A repository root is
/// reported and its subtree pruned; any other directory is descended into;
/// files yield nothing.
pub open spec fn spec_discover(t: FsTree, base: Seq<Seq<char>>) -> Seq<Seq<Seq<char>>>
    decreases t, 1int, 0int,
{
    if spec_is_git_repository(t) {
        seq![base]
    } else {
        match t {
            FsTree::File { .. } => Seq::empty(),
            FsTree::Dir { children, .. } => spec_discover_children(children, base, 0),
        }
    }
}

/// The repositories discovered beneath the children of a directory at
/// component path `base`, starting at child index `i`.
pub open spec fn spec_discover_children(
    children: Vec<FsTree>,
    base: Seq<Seq<char>>,
    i: int,
) -> Seq<Seq<Seq<char>>>
    decreases children, 0int, children@.len() - i,
{
    if 0 <= i < children@.len() {
        spec_discover(children@[i], base.push(node_name(children@[i]))) + spec_discover_children(
            children,
            base,
            i + 1,
        )
    } else {
        Seq::empty()
    }
}

/// A copy of a vector of strings.
fn clone_strings(v: &Vec<String>) -> (r: Vec<String>)
    ensures
        r@ == v@,
{
    let mut r: Vec<String> = Vec::new();
    let mut i: usize = 0;
    while i < v.len()
        invariant
            0 <= i <= v@.len(),
            r@ == v@.take(i as int),
        decreases v@.len() - i,
    {
        r.push(v[i].clone());
        proof {
            assert(r@ =~= v@.take(i + 1));
        }
        i += 1;
    }
    proof {
        assert(v@.take(v@.len() as int) =~= v@);
    }
    r
}

/// Walks the subtree rooted at `t`, whose own component path is `path`, and
/// returns the discovered repository paths in depth-first pre-order.
#[verifier::loop_isolation(false)]
fn discover_from(t: &FsTree, path: &Vec<String>) -> (r: Vec<RepositoryPath>)
    ensures
        repo_paths_view(r@) == spec_discover(*t, strings_view(path@)),
    decreases *t,
{
    let ghost base = strings_view(path@);
    if is_git_repository(Some(t)) {
        let mut r: Vec<RepositoryPath> = Vec::new();
        r.push(RepositoryPath { components: clone_strings(path) });
        proof {
            assert(repo_paths_view(r@) =~= seq![base]);
        }
        r
    } else {
        match t {
            FsTree::File { .. } => {
                let r: Vec<RepositoryPath> = Vec::new();
                proof {
                    assert(repo_paths_view(r@) =~= Seq::<Seq<Seq<char>>>::empty());
                }
                r
            },
            FsTree::Dir { children, .. } => {
                let mut r: Vec<RepositoryPath> = Vec::new();
                let mut i: usize = 0;
                while i < children.len()
                    invariant
                        0 <= i <= children@.len(),
                        base == strings_view(path@),
                        repo_paths_view(r@) + spec_discover_children(*children, base, i as int)
                            == spec_discover_children(*children, base, 0),
                    decreases children@.len() - i,
                {
                    let mut child_path = clone_strings(path);
                    child_path.push(entry_name(&children[i]).clone());
                    proof {
                        assert(strings_view(child_path@) =~= base.push(
                            node_name(children@[i as int]),
                        ));
                    }
                    let child = &children[i];
                    // Descending into a child strictly shrinks the tree.
                    proof {
                        let n = t->Dir_name;
                        let cs = t->Dir_children;
                        let packed = FsTree::Dir { name: n, children: cs };
                        assert(*t == packed);
                        assert(decreases_to!(packed => cs));
                        assert(decreases_to!(*children => children@[i as int]));
                        assert(decreases_to!(*t => *child));
                    }
                    let mut found = discover_from(child, &child_path);
                    let ghost r_old = r@;
                    let ghost found_old = found@;
                    r.append(&mut found);
                    proof {
                        assert(repo_paths_view(r@) =~= repo_paths_view(r_old) + repo_paths_view(
                            found_old,
                        ));
                        assert(repo_paths_view(r@) + spec_discover_children(
                            *children,
                            base,
                            i + 1,
                        ) =~= spec_discover_children(*children, base, 0));
                    }
                    i += 1;
                }
                proof {
                    assert(repo_paths_view(r@) =~= repo_paths_view(r@)
                        + spec_discover_children(*children, base, i as int));
                    assert(repo_paths_view(r@) =~= spec_discover_children(*children, base, 0));
                }
                r
            },
        }
    }
}

/// Discovers the repositories beneath `root`, validating first that the root
/// is an existing directory. `root` is `None` when the scan location does not
/// exist, and a `File` node when it exists but is not a directory; both are
/// usage errors, reported before any traversal. `parent` is the directory
/// that contains the scan location, so that every reported path is absolute
/// whenever `parent` is.
pub fn discover(root: Option<&FsTree>, parent: &str) -> (r: Result<Vec<RepositoryPath>, UsageError>)
    ensures
        r is Ok <==> (root matches Some(t) && *t is Dir),
        r matches Ok(repos) ==> repo_paths_view(repos@) == spec_discover(
            *root.unwrap(),
            seq![parent@, node_name(*root.unwrap())],
        ),
        r matches Err(e) ==> e == UsageError::NotADirectory,
{
    match root {
        Option::Some(t) => {
            match t {
                FsTree::Dir { .. } => {
                    let mut path: Vec<String> = Vec::new();
                    path.push(parent.to_owned());
                    path.push(entry_name(t).clone());
                    proof {
                        assert(strings_view(path@) =~= seq![parent@, node_name(*t)]);
                    }
                    Ok(discover_from(t, &path))
                },
                FsTree::File { .. } => Err(UsageError::NotADirectory),
            }
        },
        Option::None => Err(UsageError::NotADirectory),
    }
}

/// A component path `a` is an ancestor of `b` when it is a strict prefix of
/// `b`.
pub open spec fn is_ancestor_path(a: Seq<Seq<char>>, b: Seq<Seq<char>>) -> bool {
    a.len() < b.len() && a == b.subrange(0, a.len() as int)
}

/// A directory tree is well formed when, at every level, no two sibling
/// entries carry the same name, as holds of every real directory listing.
pub open spec fn tree_wf(t: FsTree) -> bool
    decreases t,
{
    match t {
        FsTree::File { .. } => true,
        FsTree::Dir { children, .. } => (forall|a: int, b: int|
            0 <= a < b < children@.len() ==> node_name(children@[a]) != node_name(children@[b]))
            && (forall|a: int|
            0 <= a < children@.len() ==> tree_wf(#[trigger] children@[a])),
    }
}

/// Every path in `r` reaches below `base`: it has `base` as a (not
/// necessarily strict) prefix.
pub open spec fn all_below(r: Seq<Seq<Seq<char>>>, base: Seq<Seq<char>>) -> bool {
    forall|k: int|
        0 <= k < r.len() ==> (#[trigger] r[k]).len() >= base.len() && r[k].subrange(
            0,
            base.len() as int,
        ) == base
}

/// No path in `r` is an ancestor of another.
pub open spec fn no_nested_paths(r: Seq<Seq<Seq<char>>>) -> bool {
    forall|k: int, l: int|
        0 <= k < r.len() && 0 <= l < r.len() && k != l ==> !is_ancestor_path(
            #[trigger] r[k],
            #[trigger] r[l],
        )
}

/// The pruning invariant: on a well-formed tree the walk never reports two
/// paths where one is an ancestor of the other, because descent stops at
/// every reported repository root. Every reported path also lies at or below
/// the path of the scanned root.
pub proof fn lemma_discovery_prunes(t: FsTree, base: Seq<Seq<char>>)
    requires
        tree_wf(t),
    ensures
        all_below(spec_discover(t, base), base),
        no_nested_paths(spec_discover(t, base)),
    decreases t, 1int, 0int,
{
    let r = spec_discover(t, base);
    if spec_is_git_repository(t) {
        assert(r == seq![base]);
        assert(base.subrange(0, base.len() as int) =~= base);
    } else {
        match t {
            FsTree::File { .. } => {},
            FsTree::Dir { children, .. } => {
                lemma_children_prune(children, base, 0);
            },
        }
    }
}

/// The pruning invariant over the children of one directory, from child
/// index `i` on: every reported path lies strictly below `base`, its first
/// component past `base` names one of those children, and no reported path
/// is an ancestor of another.
proof fn lemma_children_prune(children: Vec<FsTree>, base: Seq<Seq<char>>, i: int)
    requires
        forall|a: int| 0 <= a < children@.len() ==> tree_wf(#[trigger] children@[a]),
        forall|a: int, b: int|
            0 <= a < b < children@.len() ==> node_name(children@[a]) != node_name(children@[b]),
        0 <= i,
    ensures
        all_below(spec_discover_children(children, base, i), base),
        forall|k: int|
            0 <= k < spec_discover_children(children, base, i).len() ==> (
            #[trigger] spec_discover_children(children, base, i)[k]).len() > base.len()
                && (exists|j: int|
                i <= j < children@.len() && spec_discover_children(children, base, i)[k][base.len() as int]
                    == node_name(#[trigger] children@[j])),
        no_nested_paths(spec_discover_children(children, base, i)),
    decreases children, 0int, children@.len() - i,
{
    let r = spec_discover_children(children, base, i);
    if i < children@.len() {
        let child = children@[i];
        let cbase = base.push(node_name(child));
        let rc = spec_discover(child, cbase);
        let r2 = spec_discover_children(children, base, i + 1);
        lemma_discovery_prunes(child, cbase);
        lemma_children_prune(children, base, i + 1);
        assert(r == rc + r2);
        assert(cbase.subrange(0, base.len() as int) =~= base);
        // Paths from the child at index `i` lie below `cbase`, hence
        // strictly below `base`, and name that child right past `base`.
        assert forall|k: int| 0 <= k < rc.len() implies (#[trigger] rc[k]).len() > base.len()
            && rc[k].subrange(0, base.len() as int) == base && rc[k][base.len() as int]
            == node_name(child) by {
            assert(rc[k].subrange(0, cbase.len() as int) == cbase);
            assert(rc[k].subrange(0, base.len() as int) =~= cbase.subrange(
                0,
                base.len() as int,
            ));
            assert(rc[k][base.len() as int] == rc[k].subrange(0, cbase.len() as int)[base.len() as int]);
        }
        assert forall|k: int| 0 <= k < r.len() implies (#[trigger] r[k]).len() > base.len()
            && r[k].subrange(0, base.len() as int) == base && (exists|j: int|
            i <= j < children@.len() && r[k][base.len() as int] == node_name(
                #[trigger] children@[j],
            )) by {
            if k < rc.len() {
                assert(r[k] == rc[k]);
                assert(r[k][base.len() as int] == node_name(children@[i]));
            } else {
                assert(r[k] == r2[k - rc.len()]);
            }
        }
        // No nesting: within each part by induction; across the parts the
        // component right past `base` differs, since sibling names differ.
        assert forall|k: int, l: int|
            0 <= k < r.len() && 0 <= l < r.len() && k != l implies !is_ancestor_path(
            #[trigger] r[k],
            #[trigger] r[l],
        ) by {
            if k < rc.len() && l < rc.len() {
                assert(!is_ancestor_path(rc[k], rc[l]));
            } else if k >= rc.len() && l >= rc.len() {
                assert(!is_ancestor_path(r2[k - rc.len()], r2[l - rc.len()]));
            } else {
                let (ck, cl) = if k < rc.len() {
                    (k, l)
                } else {
                    (l, k)
                };
                let q1 = r[ck];
                let q2 = r[cl];
                assert(q1[base.len() as int] == node_name(children@[i]));
                let j = choose|j: int|
                    i + 1 <= j < children@.len() && r2[cl - rc.len()][base.len() as int]
                        == node_name(#[trigger] children@[j]);
                assert(node_name(children@[i]) != node_name(children@[j]));
                if is_ancestor_path(q1, q2) {
                    assert(q1[base.len() as int] == q2.subrange(
                        0,
                        q1.len() as int,
                    )[base.len() as int]);
                    assert(false);
                }
                if is_ancestor_path(q2, q1) {
                    assert(q2[base.len() as int] == q1.subrange(
                        0,
                        q2.len() as int,
                    )[base.len() as int]);
                    assert(false);
                }
            }
        }
    }
}

/// On a well-formed directory the repository test holds iff exactly one
/// direct child is a directory named with the marker: sibling names are
/// distinct, so at most one marker child can exist.
pub proof fn lemma_repository_marker_unique(t: FsTree)
    requires
        tree_wf(t),
        t is Dir,
    ensures
        spec_is_git_repository(t) <==> (!spec_hidden(node_name(t)) && t->Dir_children@.len() > 0
            && (exists|i: int|
            0 <= i < t->Dir_children@.len() && is_marker_dir(#[trigger] t->Dir_children@[i]) && (
            forall|j: int|
                0 <= j < t->Dir_children@.len() && is_marker_dir(#[trigger] t->Dir_children@[j])
                    ==> j == i))),
{
    let cs = t->Dir_children;
    if spec_is_git_repository(t) {
        let i = choose|i: int| 0 <= i < cs@.len() && is_marker_dir(#[trigger] cs@[i]);
        assert forall|j: int|
            0 <= j < cs@.len() && is_marker_dir(#[trigger] cs@[j]) implies j == i by {
            if j != i {
                assert(node_name(cs@[i]) == node_name(cs@[j]));
                assert(false);
            }
        }
    }
}

/// Whether any node of the tree, the root included, is a repository root.
pub open spec fn tree_has_repository(t: FsTree) -> bool
    decreases t,
{
    spec_is_git_repository(t) || (match t {
        FsTree::File { .. } => false,
        FsTree::Dir { children, .. } => exists|i: int|
            0 <= i < children@.len() && tree_has_repository(#[trigger] children@[i]),
    })
}

/// On a tree without a single repository root the walk reports nothing.
pub proof fn lemma_no_repository_no_results(t: FsTree, base: Seq<Seq<char>>)
    requires
        !tree_has_repository(t),
    ensures
        spec_discover(t, base) == Seq::<Seq<Seq<char>>>::empty(),
    decreases t, 1int, 0int,
{
    match t {
        FsTree::File { .. } => {},
        FsTree::Dir { children, .. } => {
            lemma_no_repository_children(children, base, 0);
        },
    }
}

/// As `lemma_no_repository_no_results`, over the children of one directory
/// from index `i` on.
proof fn lemma_no_repository_children(children: Vec<FsTree>, base: Seq<Seq<char>>, i: int)
    requires
        forall|j: int| 0 <= j < children@.len() ==> !tree_has_repository(#[trigger] children@[j]),
        0 <= i,
    ensures
        spec_discover_children(children, base, i) == Seq::<Seq<Seq<char>>>::empty(),
    decreases children, 0int, children@.len() - i,
{
    if i < children@.len() {
        let child = children@[i];
        lemma_no_repository_no_results(child, base.push(node_name(child)));
        lemma_no_repository_children(children, base, i + 1);
        assert(spec_discover_children(children, base, i) =~= Seq::<Seq<Seq<char>>>::empty());
    }
}

} // verus!
