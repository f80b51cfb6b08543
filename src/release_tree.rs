//! What a collection does to the release tree, as a map from paths to
//! nodes, and the laws it obeys.
use vstd::prelude::*;
use crate::collect::{
    PathModel,
    EntryModel,
    ActionModel,
    entry_action,
    tree_actions_of,
    collect_actions_of,
};
use crate::platform::{Platform, target_name_of};

verus! {

/// A node of a file tree.
pub enum Node {
    Dir,
    File(Seq<u8>),
}

/// The destination that an action writes.
pub open spec fn target_of(a: ActionModel) -> PathModel {
    match a {
        ActionModel::MakeDir { to } => to,
        ActionModel::CopyFile { to, .. } => to,
    }
}

/// The node that an action writes, read from the source tree `src`.
pub open spec fn node_of(src: Map<PathModel, Node>, a: ActionModel) -> Node {
    match a {
        ActionModel::MakeDir { .. } => Node::Dir,
        ActionModel::CopyFile { from, .. } => src[from],
    }
}

/// The destination tree `dst` after the actions `acts` ran in order, copying
/// from the source tree `src`.
pub open spec fn apply_actions(
    dst: Map<PathModel, Node>,
    src: Map<PathModel, Node>,
    acts: Seq<ActionModel>,
) -> Map<PathModel, Node>
    decreases acts.len(),
{
    if acts.len() == 0 {
        dst
    } else {
        apply_actions(dst, src, acts.drop_last()).insert(
            target_of(acts.last()),
            node_of(src, acts.last()),
        )
    }
}

/// `entries` lists, with their kinds, exactly the entries of the directory
/// `root` of the tree `src`.
pub open spec fn lists_tree(
    src: Map<PathModel, Node>,
    root: PathModel,
    entries: Seq<EntryModel>,
) -> bool {
    &&& src.contains_key(root)
    &&& src[root] == Node::Dir
    &&& forall|k: int|
        0 <= k < entries.len() ==> src.contains_key(root + #[trigger] entries[k].path) && (
        entries[k].is_dir <==> src[root + entries[k].path] == Node::Dir)
    &&& forall|rel: PathModel|
        rel.len() > 0 && #[trigger] src.contains_key(root + rel) ==> exists|k: int|
            0 <= k < entries.len() && #[trigger] entries[k].path == rel
}

/// Running the actions on a tree keeps what they do not write and adds what
/// they write on an empty tree.
proof fn lemma_apply_is_overlay(
    dst: Map<PathModel, Node>,
    src: Map<PathModel, Node>,
    acts: Seq<ActionModel>,
)
    ensures
        apply_actions(dst, src, acts) == dst.union_prefer_right(
            apply_actions(Map::empty(), src, acts),
        ),
    decreases acts.len(),
{
    if acts.len() == 0 {
        assert(dst.union_prefer_right(Map::empty()) =~= dst);
    } else {
        lemma_apply_is_overlay(dst, src, acts.drop_last());
        assert(apply_actions(dst, src, acts) =~= dst.union_prefer_right(
            apply_actions(Map::empty(), src, acts),
        ));
    }
}

/// Running a collection twice in succession leaves the release tree as the
/// first run left it: every action writes a node that depends on the build
/// output alone, which the collection does not change.
pub proof fn lemma_collection_idempotent(
    p: Platform,
    tree: Seq<EntryModel>,
    top: Seq<Seq<char>>,
    dst: Map<PathModel, Node>,
    src: Map<PathModel, Node>,
)
    ensures
        apply_actions(
            apply_actions(dst, src, collect_actions_of(p, tree, top)),
            src,
            collect_actions_of(p, tree, top),
        ) == apply_actions(dst, src, collect_actions_of(p, tree, top)),
{
    let acts = collect_actions_of(p, tree, top);
    let once = apply_actions(dst, src, acts);
    let written = apply_actions(Map::empty(), src, acts);
    lemma_apply_is_overlay(dst, src, acts);
    lemma_apply_is_overlay(once, src, acts);
    assert(once.union_prefer_right(written) =~= once);
}

/// When each action writes at `t` the node found at `root + t` in `src`, the
/// tree written from empty holds exactly the targets, each with that node.
proof fn lemma_written_mirrors(src: Map<PathModel, Node>, root: PathModel, acts: Seq<ActionModel>)
    requires
        forall|k: int|
            0 <= k < acts.len() ==> node_of(src, #[trigger] acts[k]) == src[root + target_of(
                acts[k],
            )],
    ensures
        forall|t: PathModel|
            #[trigger] apply_actions(Map::empty(), src, acts).contains_key(t) <==> exists|k: int|
                0 <= k < acts.len() && target_of(#[trigger] acts[k]) == t,
        forall|t: PathModel|
            #[trigger] apply_actions(Map::empty(), src, acts).contains_key(t) ==> apply_actions(
                Map::empty(),
                src,
                acts,
            )[t] == src[root + t],
    decreases acts.len(),
{
    if acts.len() > 0 {
        let init = acts.drop_last();
        assert forall|k: int| 0 <= k < init.len() implies node_of(src, #[trigger] init[k])
            == src[root + target_of(init[k])] by {
            assert(init[k] == acts[k]);
        }
        lemma_written_mirrors(src, root, init);
        let out = apply_actions(Map::empty(), src, acts);
        let prev = apply_actions(Map::empty(), src, init);
        assert(out == prev.insert(target_of(acts.last()), node_of(src, acts.last())));
        assert forall|t: PathModel| #[trigger] out.contains_key(t) <==> exists|k: int|
            0 <= k < acts.len() && target_of(#[trigger] acts[k]) == t by {
            if out.contains_key(t) && t != target_of(acts.last()) {
                assert(prev.contains_key(t));
                let k = choose|k: int| 0 <= k < init.len() && target_of(#[trigger] init[k]) == t;
                assert(acts[k] == init[k]);
            }
            if exists|k: int| 0 <= k < acts.len() && target_of(#[trigger] acts[k]) == t {
                let k = choose|k: int| 0 <= k < acts.len() && target_of(#[trigger] acts[k]) == t;
                if k < acts.len() - 1 {
                    assert(init[k] == acts[k]);
                    assert(prev.contains_key(t));
                }
            }
        }
        assert forall|t: PathModel| #[trigger] out.contains_key(t) implies out[t] == src[root
            + t] by {
            if t != target_of(acts.last()) {
                assert(prev.contains_key(t));
            }
        }
        assert(node_of(src, acts[acts.len() - 1]) == src[root + target_of(acts[acts.len() - 1])]);
    }
}

/// Copying a tree reproduces it: when `entries` lists the directory `root`
/// of `src`, the actions that copy it build, from an empty destination,
/// exactly the paths below `root`, each with the same node (the same kind,
/// and for a file the same contents).
pub proof fn lemma_tree_copy_reproduces(
    src: Map<PathModel, Node>,
    root: PathModel,
    entries: Seq<EntryModel>,
)
    requires
        lists_tree(src, root, entries),
    ensures
        forall|rel: PathModel|
            #[trigger] apply_actions(Map::empty(), src, tree_actions_of(root, entries)).contains_key(
                rel,
            ) <==> src.contains_key(root + rel),
        forall|rel: PathModel|
            #[trigger] apply_actions(Map::empty(), src, tree_actions_of(root, entries)).contains_key(
                rel,
            ) ==> apply_actions(Map::empty(), src, tree_actions_of(root, entries))[rel] == src[root
                + rel],
{
    let acts = tree_actions_of(root, entries);
    let out = apply_actions(Map::empty(), src, acts);
    let empty: PathModel = seq![];
    assert(root + empty =~= root);
    assert(target_of(acts[0]) == empty);
    assert forall|k: int| 0 <= k < acts.len() implies node_of(src, #[trigger] acts[k]) == src[root
        + target_of(acts[k])] by {
        if k > 0 {
            assert(acts[k] == entry_action(root, entries[k - 1]));
        }
    }
    lemma_written_mirrors(src, root, acts);
    assert forall|rel: PathModel| #[trigger] out.contains_key(rel) <==> src.contains_key(
        root + rel,
    ) by {
        if out.contains_key(rel) {
            let k = choose|k: int| 0 <= k < acts.len() && target_of(#[trigger] acts[k]) == rel;
            if k > 0 {
                assert(acts[k] == entry_action(root, entries[k - 1]));
            } else {
                assert(rel == empty);
            }
        }
        if src.contains_key(root + rel) {
            if rel.len() == 0 {
                assert(rel =~= empty);
                assert(target_of(acts[0]) == rel);
            } else {
                let k = choose|k: int| 0 <= k < entries.len() && #[trigger] entries[k].path == rel;
                assert(acts[k + 1] == entry_action(root, entries[k]));
                assert(target_of(acts[k + 1]) == rel);
            }
        }
    }
}

/// The release tree `releases` after the actions `acts` ran in its
/// subdirectory `dir`, copying from the source tree `src`.
pub open spec fn apply_actions_in(
    releases: Map<PathModel, Node>,
    src: Map<PathModel, Node>,
    dir: Seq<char>,
    acts: Seq<ActionModel>,
) -> Map<PathModel, Node>
    decreases acts.len(),
{
    if acts.len() == 0 {
        releases
    } else {
        apply_actions_in(releases, src, dir, acts.drop_last()).insert(
            seq![dir] + target_of(acts.last()),
            node_of(src, acts.last()),
        )
    }
}

/// Actions run in the subdirectory `dir` leave every path outside it as it
/// was.
proof fn lemma_outside_dir_untouched(
    releases: Map<PathModel, Node>,
    src: Map<PathModel, Node>,
    dir: Seq<char>,
    acts: Seq<ActionModel>,
    path: PathModel,
)
    requires
        path.len() > 0,
        path[0] != dir,
    ensures
        apply_actions_in(releases, src, dir, acts).contains_key(path) == releases.contains_key(
            path,
        ),
        releases.contains_key(path) ==> apply_actions_in(releases, src, dir, acts)[path]
            == releases[path],
    decreases acts.len(),
{
    if acts.len() > 0 {
        lemma_outside_dir_untouched(releases, src, dir, acts.drop_last(), path);
        let written = seq![dir] + target_of(acts.last());
        assert(written[0] == dir);
        assert(written != path);
    }
}

/// Distinct platforms have distinct release subdirectories.
proof fn lemma_target_names_distinct(p: Platform, q: Platform)
    requires
        p != q,
    ensures
        target_name_of(p) != target_name_of(q),
{
    reveal_strlit("windows");
    reveal_strlit("linux");
    reveal_strlit("mac");
    reveal_strlit("all");
    assert("windows"@.len() == 7 && "linux"@.len() == 5);
    assert("mac"@.len() == 3 && "all"@.len() == 3);
    assert("mac"@[0] != "all"@[0]);
    match (p, q) {
        (Platform::MacOS, Platform::All) | (Platform::All, Platform::MacOS) => {
            assert(target_name_of(p)[0] != target_name_of(q)[0]);
        },
        _ => {
            assert(target_name_of(p).len() != target_name_of(q).len());
        },
    }
}

/// A platform's collection writes only inside its own release subdirectory:
/// whatever its outcome and its build output, every path in the
/// subdirectory of another platform keeps its node, so what ends up there
/// depends on that other platform's own collection alone.
pub proof fn lemma_collection_stays_in_own_dir(
    releases: Map<PathModel, Node>,
    src: Map<PathModel, Node>,
    p: Platform,
    tree: Seq<EntryModel>,
    top: Seq<Seq<char>>,
    q: Platform,
    path: PathModel,
)
    requires
        p != q,
        path.len() > 0,
        path[0] == target_name_of(q),
    ensures
        apply_actions_in(
            releases,
            src,
            target_name_of(p),
            collect_actions_of(p, tree, top),
        ).contains_key(path) == releases.contains_key(path),
        releases.contains_key(path) ==> apply_actions_in(
            releases,
            src,
            target_name_of(p),
            collect_actions_of(p, tree, top),
        )[path] == releases[path],
{
    lemma_target_names_distinct(p, q);
    lemma_outside_dir_untouched(
        releases,
        src,
        target_name_of(p),
        collect_actions_of(p, tree, top),
        path,
    );
}

} // verus!
