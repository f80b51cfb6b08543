//! Collection of a platform's build output into its release subdirectory.
//!
//! Paths are sequences of components. Sources are relative to the build
//! output directory, destinations to the platform's release subdirectory;
//! the two trees are disjoint.
use vstd::prelude::*;
use vstd::string::*;
use crate::platform::{Platform, unpacked_path_of, installer_patterns_of};

verus! {

/// A path as a sequence of components.
pub type PathModel = Seq<Seq<char>>;

/// An entry of a directory tree, named by its path below the tree's root.
#[derive(Clone, Debug, PartialEq, Eq)]
pub struct TreeEntry {
    pub path: Vec<String>,
    pub is_dir: bool,
}

pub struct EntryModel {
    pub path: PathModel,
    pub is_dir: bool,
}

impl View for TreeEntry {
    type V = EntryModel;

    open spec fn view(&self) -> EntryModel {
        EntryModel { path: self.path.deep_view(), is_dir: self.is_dir }
    }
}

/// One file-system operation of a collection.
#[derive(Clone, Debug, PartialEq, Eq)]
pub enum CopyAction {
    /// Create the destination directory `to`, with its missing ancestors.
    MakeDir { to: Vec<String> },
    /// Copy the source file `from` to the destination `to`, overwriting it.
    CopyFile { from: Vec<String>, to: Vec<String> },
}

pub enum ActionModel {
    MakeDir { to: PathModel },
    CopyFile { from: PathModel, to: PathModel },
}

impl View for CopyAction {
    type V = ActionModel;

    open spec fn view(&self) -> ActionModel {
        match self {
            CopyAction::MakeDir { to } => ActionModel::MakeDir { to: to.deep_view() },
            CopyAction::CopyFile { from, to } => ActionModel::CopyFile {
                from: from.deep_view(),
                to: to.deep_view(),
            },
        }
    }
}

pub open spec fn actions_view(v: Seq<CopyAction>) -> Seq<ActionModel> {
    v.map_values(|a: CopyAction| a@)
}

pub open spec fn entries_view(v: Seq<TreeEntry>) -> Seq<EntryModel> {
    v.map_values(|e: TreeEntry| e@)
}

/// The action that reproduces one entry of the tree below `source`.
pub open spec fn entry_action(source: PathModel, e: EntryModel) -> ActionModel {
    if e.is_dir {
        ActionModel::MakeDir { to: e.path }
    } else {
        ActionModel::CopyFile { from: source + e.path, to: e.path }
    }
}

/// Actions that copy the tree below `source`, whose entries are `entries`,
/// into the destination root: the root first, then each entry in order.
pub open spec fn tree_actions_of(source: PathModel, entries: Seq<EntryModel>) -> Seq<
    ActionModel,
> {
    seq![ActionModel::MakeDir { to: seq![] }] + entries.map_values(
        |e: EntryModel| entry_action(source, e),
    )
}

/// `s` ends with `t`.
pub open spec fn ends_with(s: Seq<char>, t: Seq<char>) -> bool {
    t.len() <= s.len() && s.subrange(s.len() - t.len(), s.len() as int) == t
}

/// A pattern made of `*` followed by a literal suffix, which holds no path
/// separator (glob treats `/` and `\` as equal on Windows).
pub open spec fn suffix_pattern(p: Seq<char>) -> bool {
    &&& p.len() >= 1
    &&& p[0] == '*'
    &&& forall|i: int|
        1 <= i < p.len() ==> #[trigger] p[i] != '*' && p[i] != '?' && p[i] != '[' && p[i] != ']'
            && p[i] != '/' && p[i] != '\\'
}

/// The names of `names` that `pattern` matches, in order.
pub open spec fn names_matching(pattern: Seq<char>, names: Seq<Seq<char>>) -> Seq<Seq<char>>
    decreases names.len(),
{
    if names.len() == 0 {
        seq![]
    } else {
        let rest = names_matching(pattern, names.drop_last());
        if ends_with(names.last(), pattern.drop_first()) {
            rest.push(names.last())
        } else {
            rest
        }
    }
}

/// Actions that copy each name matched by a pattern, pattern by pattern,
/// from the top of the source tree to the top of the destination.
pub open spec fn installer_actions_of(patterns: Seq<Seq<char>>, names: Seq<Seq<char>>) -> Seq<
    ActionModel,
>
    decreases patterns.len(),
{
    if patterns.len() == 0 {
        seq![]
    } else {
        installer_actions_of(patterns.drop_last(), names) + names_matching(
            patterns.last(),
            names,
        ).map_values(|n: Seq<char>| ActionModel::CopyFile { from: seq![n], to: seq![n] })
    }
}

/// Every installer pattern is a `*` followed by a literal suffix.
proof fn lemma_installer_patterns_are_suffixes(p: Platform)
    ensures
        forall|k: int|
            0 <= k < installer_patterns_of(p).len() ==> suffix_pattern(
                #[trigger] installer_patterns_of(p)[k],
            ),
{
    reveal_strlit("*.exe");
    reveal_strlit("*.AppImage");
    reveal_strlit("*.deb");
    reveal_strlit("*.dmg");
    assert(suffix_pattern("*.exe"@));
    assert(suffix_pattern("*.AppImage"@));
    assert(suffix_pattern("*.deb"@));
    assert(suffix_pattern("*.dmg"@));
}

/// Everything a successful build of `p` has collected: its unpacked
/// application tree, whose entries are `tree`, then the installers among the
/// names `top` found at the top of the build output directory.
pub open spec fn collect_actions_of(
    p: Platform,
    tree: Seq<EntryModel>,
    top: Seq<Seq<char>>,
) -> Seq<ActionModel> {
    tree_actions_of(unpacked_path_of(p), tree) + installer_actions_of(
        installer_patterns_of(p),
        top,
    )
}

/// Relies on glob::Pattern::new and glob::Pattern::matches (default match
/// options): a `*` followed by a literal suffix without metacharacters or
/// path separators compiles, and matches exactly the names that end with
/// that suffix.
#[verifier::external_body]
fn glob_matches(pattern: &str, name: &str) -> (r: Option<bool>)
    ensures
        suffix_pattern(pattern@) ==> r == Some(ends_with(name@, pattern@.drop_first())),
{
    match glob::Pattern::new(pattern) {
        Ok(p) => Some(p.matches(name)),
        Err(_) => None,
    }
}

/// An owned copy of a path.
fn copy_path(v: &Vec<String>) -> (r: Vec<String>)
    ensures
        r.deep_view() == v.deep_view(),
{
    let mut r: Vec<String> = Vec::new();
    let mut i: usize = 0;
    while i < v.len()
        invariant
            i <= v@.len(),
            r@.len() == i,
            forall|k: int| 0 <= k < i ==> #[trigger] r@[k]@ == v@[k]@,
        decreases v@.len() - i,
    {
        r.push(v[i].clone());
        i = i + 1;
    }
    proof {
        assert(r.deep_view() =~= v.deep_view());
    }
    r
}

/// The path `a` followed by the path `b`.
fn join_path(a: &Vec<String>, b: &Vec<String>) -> (r: Vec<String>)
    ensures
        r.deep_view() == a.deep_view() + b.deep_view(),
{
    let mut r = copy_path(a);
    let ghost n = a@.len();
    proof {
        assert(r.deep_view().len() == r@.len());
        assert forall|k: int| 0 <= k < n implies #[trigger] r@[k]@ == a@[k]@ by {
            assert(r.deep_view()[k] == a.deep_view()[k]);
        }
    }
    let mut i: usize = 0;
    while i < b.len()
        invariant
            i <= b@.len(),
            n == a@.len(),
            r@.len() == n + i,
            forall|k: int| 0 <= k < n ==> #[trigger] r@[k]@ == a@[k]@,
            forall|k: int| 0 <= k < i ==> #[trigger] r@[n + k]@ == b@[k]@,
        decreases b@.len() - i,
    {
        r.push(b[i].clone());
        i = i + 1;
    }
    proof {
        let ab = a.deep_view() + b.deep_view();
        assert forall|k: int| 0 <= k < ab.len() implies #[trigger] r.deep_view()[k] == ab[k] by {
            if k >= n {
                assert(r@[n + (k - n)]@ == b@[k - n]@);
            }
        }
        assert(r.deep_view() =~= ab);
    }
    r
}

/// Actions that copy the tree below `source` (entries `entries`, each
/// named by its path below `source`) into the destination root.
pub fn tree_actions(source: &Vec<String>, entries: &Vec<TreeEntry>) -> (r: Vec<CopyAction>)
    ensures
        actions_view(r@) == tree_actions_of(source.deep_view(), entries_view(entries@)),
{
    let mut r: Vec<CopyAction> = Vec::new();
    r.push(CopyAction::MakeDir { to: Vec::new() });
    let ghost src = source.deep_view();
    let ghost es = entries_view(entries@);
    proof {
        assert(r@[0]@ == ActionModel::MakeDir { to: seq![] }) by {
            assert(r@[0]@->MakeDir_to =~= seq![]);
        }
    }
    let mut i: usize = 0;
    while i < entries.len()
        invariant
            i <= entries@.len(),
            src == source.deep_view(),
            es == entries_view(entries@),
            r@.len() == i + 1,
            r@[0]@ == (ActionModel::MakeDir { to: seq![] }),
            forall|k: int| 0 <= k < i ==> #[trigger] r@[k + 1]@ == entry_action(src, es[k]),
        decreases entries@.len() - i,
    {
        let e = &entries[i];
        let a = if e.is_dir {
            CopyAction::MakeDir { to: copy_path(&e.path) }
        } else {
            CopyAction::CopyFile { from: join_path(source, &e.path), to: copy_path(&e.path) }
        };
        assert(a@ == entry_action(src, es[i as int]));
        r.push(a);
        i = i + 1;
    }
    proof {
        let t = tree_actions_of(src, es);
        assert forall|k: int| 0 <= k < t.len() implies #[trigger] actions_view(r@)[k] == t[k] by {
            if k > 0 {
                assert(r@[(k - 1) + 1]@ == entry_action(src, es[k - 1]));
            }
        }
        assert(actions_view(r@) =~= t);
    }
    r
}

/// The names of `names` that `pattern`, a `*` and a literal suffix, matches,
/// in order.
pub fn matching_names(pattern: &str, names: &Vec<String>) -> (r: Vec<String>)
    requires
        suffix_pattern(pattern@),
    ensures
        r.deep_view() == names_matching(pattern@, names.deep_view()),
{
    let ghost all = names.deep_view();
    let mut r: Vec<String> = Vec::new();
    let mut i: usize = 0;
    proof {
        assert(all.subrange(0, 0).len() == 0);
        assert(r.deep_view() =~= seq![]);
    }
    while i < names.len()
        invariant
            i <= names@.len(),
            all == names.deep_view(),
            suffix_pattern(pattern@),
            r.deep_view() == names_matching(pattern@, all.subrange(0, i as int)),
        decreases names@.len() - i,
    {
        let ghost prev = r.deep_view();
        let m = glob_matches(pattern, names[i].as_str());
        proof {
            assert(all.subrange(0, i + 1).drop_last() =~= all.subrange(0, i as int));
            assert(all[i as int] == names@[i as int]@);
        }
        if let Some(true) = m {
            r.push(names[i].clone());
            proof {
                assert(r.deep_view() =~= prev.push(all[i as int]));
            }
        }
        i = i + 1;
    }
    proof {
        assert(all.subrange(0, i as int) =~= all);
    }
    r
}

/// Actions that copy each of `names` that a pattern matches, pattern by
/// pattern, from the top of the source tree to the top of the destination.
pub fn installer_actions(patterns: &Vec<String>, names: &Vec<String>) -> (r: Vec<CopyAction>)
    requires
        forall|k: int| 0 <= k < patterns@.len() ==> suffix_pattern(#[trigger] patterns@[k]@),
    ensures
        actions_view(r@) == installer_actions_of(patterns.deep_view(), names.deep_view()),
{
    let ghost pats = patterns.deep_view();
    let ghost all = names.deep_view();
    let mut r: Vec<CopyAction> = Vec::new();
    let mut i: usize = 0;
    proof {
        assert(pats.subrange(0, 0).len() == 0);
        assert(actions_view(r@) =~= seq![]);
    }
    while i < patterns.len()
        invariant
            i <= patterns@.len(),
            pats == patterns.deep_view(),
            all == names.deep_view(),
            forall|k: int| 0 <= k < patterns@.len() ==> suffix_pattern(#[trigger] patterns@[k]@),
            actions_view(r@) == installer_actions_of(pats.subrange(0, i as int), all),
        decreases patterns@.len() - i,
    {
        let found = matching_names(patterns[i].as_str(), names);
        let ghost before = actions_view(r@);
        let ghost fv = found.deep_view();
        let mut j: usize = 0;
        while j < found.len()
            invariant
                j <= found@.len(),
                fv == found.deep_view(),
                actions_view(r@) == before + fv.subrange(0, j as int).map_values(
                    |n: Seq<char>| ActionModel::CopyFile { from: seq![n], to: seq![n] },
                ),
            decreases found@.len() - j,
        {
            let mut from: Vec<String> = Vec::new();
            from.push(found[j].clone());
            let mut to: Vec<String> = Vec::new();
            to.push(found[j].clone());
            let a = CopyAction::CopyFile { from, to };
            proof {
                assert(a@ == (ActionModel::CopyFile { from: seq![fv[j as int]], to: seq![fv[j as int]] })) by {
                    assert(a@->CopyFile_from =~= seq![fv[j as int]]);
                    assert(a@->CopyFile_to =~= seq![fv[j as int]]);
                }
            }
            let ghost prev = r@;
            r.push(a);
            j = j + 1;
            proof {
                assert(actions_view(r@) =~= actions_view(prev).push(a@));
                assert(fv.subrange(0, j as int).map_values(
                    |n: Seq<char>| ActionModel::CopyFile { from: seq![n], to: seq![n] },
                ) =~= fv.subrange(0, j - 1).map_values(
                    |n: Seq<char>| ActionModel::CopyFile { from: seq![n], to: seq![n] },
                ).push(a@));
                assert(actions_view(r@) =~= before + fv.subrange(0, j as int).map_values(
                    |n: Seq<char>| ActionModel::CopyFile { from: seq![n], to: seq![n] },
                ));
            }
        }
        i = i + 1;
        proof {
            assert(pats.subrange(0, i as int).drop_last() =~= pats.subrange(0, i - 1));
            assert(fv.subrange(0, j as int) =~= fv);
        }
    }
    proof {
        assert(pats.subrange(0, i as int) =~= pats);
    }
    r
}

/// Everything a successful build of `p` has collected: its unpacked
/// application tree (entries `tree`, below `p`'s unpacked path) and then its
/// installers among the names `top` at the top of the build output.
pub fn collect_actions(p: Platform, tree: &Vec<TreeEntry>, top: &Vec<String>) -> (r: Vec<
    CopyAction,
>)
    ensures
        actions_view(r@) == collect_actions_of(p, entries_view(tree@), top.deep_view()),
{
    let source = p.unpacked_path();
    let mut r = tree_actions(&source, tree);
    let patterns = p.installer_patterns();
    proof {
        lemma_installer_patterns_are_suffixes(p);
        assert forall|k: int| 0 <= k < patterns@.len() implies suffix_pattern(
            #[trigger] patterns@[k]@,
        ) by {
            assert(patterns@[k]@ == patterns.deep_view()[k]);
        }
    }
    let mut installers = installer_actions(&patterns, top);
    let ghost a = r@;
    let ghost b = installers@;
    r.append(&mut installers);
    proof {
        assert(actions_view(r@) =~= actions_view(a) + actions_view(b));
    }
    r
}

/// The recorded result of one platform's install and build.
#[derive(Clone, Copy, Debug)]
pub struct BuildOutcome {
    pub platform: Platform,
    pub success: bool,
}

/// The collection of a build: nothing when it failed.
pub fn plan_collection(outcome: &BuildOutcome, tree: &Vec<TreeEntry>, top: &Vec<String>) -> (r:
    Vec<CopyAction>)
    ensures
        actions_view(r@) == (if outcome.success {
            collect_actions_of(outcome.platform, entries_view(tree@), top.deep_view())
        } else {
            seq![]
        }),
{
    if outcome.success {
        collect_actions(outcome.platform, tree, top)
    } else {
        let r: Vec<CopyAction> = Vec::new();
        proof {
            assert(actions_view(r@) =~= seq![]);
        }
        r
    }
}

} // verus!
