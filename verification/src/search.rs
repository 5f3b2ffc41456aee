//! The search for `env.img`: which directory is looked at next.

use vstd::prelude::*;

verus! {

/// The deepest level that is searched for `env.img`.
pub const SEARCH_DEPTH: u32 = 4;

/// A directory that is still to be searched, named by a number of the caller's choice, and
/// how many levels below it count.
#[derive(Debug, Clone, Copy, PartialEq, Eq, Structural)]
pub struct Dir {
    pub id: usize,
    pub depth: u32,
}

/// Where a search for `env.img` stands: the directories to be searched, the next one last.
#[derive(Debug)]
pub struct EnvSearch {
    pub pending: Vec<Dir>,
}

/// Directories of one level, in reverse order, as the last to be searched comes first.
pub open spec fn reversed_dirs(subdirs: Seq<usize>, depth: u32) -> Seq<Dir> {
    Seq::new(subdirs.len(), |i: int| Dir { id: subdirs[subdirs.len() - 1 - i], depth })
}

/// What is to be searched once the next directory turned out to have no `env.img`: its
/// subdirectories, if they are not too deep, then the rest.
pub open spec fn pending_after(pending: Seq<Dir>, subdirs: Seq<usize>) -> Seq<Dir> {
    let dir = pending.last();
    if dir.depth == 0 {
        pending.drop_last()
    } else {
        pending.drop_last() + reversed_dirs(subdirs, (dir.depth - 1) as u32)
    }
}

impl EnvSearch {
    /// A search from the given directory down.
    pub fn start(root: usize) -> (r: Self)
        ensures
            r.pending@ == seq![Dir { id: root, depth: SEARCH_DEPTH }],
    {
        let mut pending: Vec<Dir> = Vec::new();
        pending.push(Dir { id: root, depth: SEARCH_DEPTH });
        EnvSearch { pending }
    }

    /// The directory to be searched next.
    pub fn next(&self) -> (r: Option<Dir>)
        ensures
            r == (if self.pending@.len() == 0 {
                None::<Dir>
            } else {
                Some(self.pending@.last())
            }),
    {
        if self.pending.len() == 0 {
            None
        } else {
            Some(self.pending[self.pending.len() - 1])
        }
    }

    /// Go on behind the next directory, which has no `env.img` and the given subdirectories
    /// (none if they cannot be read).
    pub fn not_here(&mut self, subdirs: &Vec<usize>)
        requires
            old(self).pending@.len() > 0,
        ensures
            final(self).pending@ == pending_after(old(self).pending@, subdirs@),
    {
        let ghost before = self.pending@;
        let last: usize = self.pending.len() - 1;
        let dir: Dir = self.pending.remove(last);
        let ghost kept = self.pending@;
        assert(kept =~= before.drop_last());
        if dir.depth > 0 {
            let depth: u32 = dir.depth - 1;
            let mut i: usize = subdirs.len();
            let ghost added = reversed_dirs(subdirs@, depth);
            assert(self.pending@ =~= kept + added.take(0));
            while i > 0
                invariant
                    i <= subdirs@.len(),
                    added == reversed_dirs(subdirs@, depth),
                    self.pending@ == kept + added.take(subdirs@.len() - i),
                decreases i,
            {
                i = i - 1;
                self.pending.push(Dir { id: subdirs[i], depth });
                let ghost n = subdirs@.len() - i;
                assert(added.take(n) =~= added.take(n - 1).push(added[n - 1]));
                assert(self.pending@ =~= kept + added.take(n));
            }
            assert(added.take(subdirs@.len() as int) =~= added);
        }
    }
}

/// The text for a directory in which no `env.img` was found.
pub fn no_env_text(root: &str) -> (r: String)
    ensures
        r@ == "no env.img found under "@ + root@ + " (searched 4 levels deep)"@,
{
    let mut r: String = "no env.img found under ".to_owned();
    r.append(root);
    r.append(" (searched 4 levels deep)");
    r
}

/// A directory with all that is below it.
pub struct Tree {
    pub id: usize,
    pub has_env: bool,
    pub children: Seq<Tree>,
}

/// The directory that holds the `env.img` to be used: this one, else that of the first
/// subdirectory which has one, no more than `depth` levels below.
pub open spec fn env_dir(tree: Tree, depth: u32) -> Option<usize>
    decreases tree,
{
    if tree.has_env {
        Some(tree.id)
    } else if depth == 0 {
        None
    } else {
        first_env_dir(tree.children, (depth - 1) as u32)
    }
}

/// The same for the first of several directories that has one.
pub open spec fn first_env_dir(trees: Seq<Tree>, depth: u32) -> Option<usize>
    decreases trees,
{
    if trees.len() == 0 {
        None
    } else {
        match env_dir(trees[0], depth) {
            Some(id) => Some(id),
            None => first_env_dir(trees.subrange(1, trees.len() as int), depth),
        }
    }
}

/// What the directories to be searched hold: `trees` are the directories of `pending`.
pub open spec fn depicts(trees: Seq<Tree>, pending: Seq<Dir>) -> bool {
    trees.len() == pending.len() && forall|i: int|
        0 <= i < trees.len() ==> (#[trigger] trees[i]).id == pending[i].id
}

/// What a search from here on finds: that of the last directory, else that of the ones before.
pub open spec fn found_in(trees: Seq<Tree>, pending: Seq<Dir>) -> Option<usize>
    decreases trees.len(),
{
    if trees.len() == 0 {
        None
    } else {
        match env_dir(trees.last(), pending.last().depth) {
            Some(id) => Some(id),
            None => found_in(trees.drop_last(), pending.drop_last()),
        }
    }
}

/// The directories to be searched, once the last one turned out to have no `env.img`.
pub open spec fn trees_after(trees: Seq<Tree>, pending: Seq<Dir>) -> Seq<Tree> {
    if pending.last().depth == 0 {
        trees.drop_last()
    } else {
        trees.drop_last() + trees.last().children.reverse()
    }
}

/// The names of directories.
pub open spec fn ids(trees: Seq<Tree>) -> Seq<usize> {
    trees.map_values(|t: Tree| t.id)
}

proof fn lemma_found_in_pushed(
    trees: Seq<Tree>,
    pending: Seq<Dir>,
    children: Seq<Tree>,
    depth: u32,
)
    requires
        trees.len() == pending.len(),
    ensures
        found_in(trees + children.reverse(), pending + reversed_dirs(ids(children), depth)) == (
        match first_env_dir(children, depth) {
            Some(id) => Some(id),
            None => found_in(trees, pending),
        }),
    decreases children.len(),
{
    let more = reversed_dirs(ids(children), depth);
    let all_trees = trees + children.reverse();
    let all_pending = pending + more;
    if children.len() == 0 {
        assert(all_trees =~= trees);
        assert(all_pending =~= pending);
    } else {
        let rest = children.subrange(1, children.len() as int);
        assert(all_trees.last() == children[0]);
        assert(all_pending.last().depth == depth);
        assert(all_trees.drop_last() =~= trees + rest.reverse());
        assert(all_pending.drop_last() =~= pending + reversed_dirs(ids(rest), depth));
        lemma_found_in_pushed(trees, pending, rest, depth);
    }
}

/// Searching one directory keeps what the search finds: `env.img` in the directory itself
/// comes first, and else the answer is that for what is pending then. So the search finds
/// the first `env.img` from the root down, subdirectories in order, four levels deep.
pub proof fn law_search_keeps_the_answer(trees: Seq<Tree>, pending: Seq<Dir>)
    requires
        depicts(trees, pending),
        trees.len() > 0,
    ensures
        trees.last().has_env ==> found_in(trees, pending) == Some(pending.last().id),
        !trees.last().has_env ==> {
            &&& depicts(
                trees_after(trees, pending),
                pending_after(pending, ids(trees.last().children)),
            )
            &&& found_in(
                trees_after(trees, pending),
                pending_after(pending, ids(trees.last().children)),
            ) == found_in(trees, pending)
        },
{
    let tree = trees.last();
    let dir = pending.last();
    if !tree.has_env && dir.depth > 0 {
        lemma_found_in_pushed(
            trees.drop_last(),
            pending.drop_last(),
            tree.children,
            (dir.depth - 1) as u32,
        );
    }
}

/// What a search from a root finds is the directory that [`env_dir`] has.
pub proof fn law_search_starts_with_the_answer(tree: Tree)
    ensures
        found_in(seq![tree], seq![Dir { id: tree.id, depth: SEARCH_DEPTH }]) == env_dir(
            tree,
            SEARCH_DEPTH,
        ),
{
    let trees = seq![tree];
    reveal_with_fuel(found_in, 2);
    assert(trees.drop_last() =~= Seq::<Tree>::empty());
}

/// The number of directories in a tree.
pub open spec fn dir_count(tree: Tree) -> nat
    decreases tree,
{
    1 + dirs_count(tree.children)
}

/// The number of directories in several trees.
pub open spec fn dirs_count(trees: Seq<Tree>) -> nat
    decreases trees,
{
    if trees.len() == 0 {
        0
    } else {
        dir_count(trees[0]) + dirs_count(trees.subrange(1, trees.len() as int))
    }
}

proof fn lemma_count_join(a: Seq<Tree>, b: Seq<Tree>)
    ensures
        dirs_count(a + b) == dirs_count(a) + dirs_count(b),
    decreases a.len(),
{
    if a.len() == 0 {
        assert(a + b =~= b);
    } else {
        let rest = a.subrange(1, a.len() as int);
        assert((a + b).subrange(1, (a + b).len() as int) =~= rest + b);
        lemma_count_join(rest, b);
    }
}

proof fn lemma_count_one(tree: Tree)
    ensures
        dirs_count(seq![tree]) == dir_count(tree),
{
    assert(seq![tree].subrange(1, 1) =~= Seq::<Tree>::empty());
    assert(dirs_count(Seq::<Tree>::empty()) == 0);
}

proof fn lemma_count_reverse(trees: Seq<Tree>)
    ensures
        dirs_count(trees.reverse()) == dirs_count(trees),
    decreases trees.len(),
{
    if trees.len() == 0 {
        assert(trees.reverse() =~= trees);
    } else {
        let rest = trees.subrange(1, trees.len() as int);
        assert(trees.reverse() =~= rest.reverse() + seq![trees[0]]);
        lemma_count_join(rest.reverse(), seq![trees[0]]);
        lemma_count_one(trees[0]);
        lemma_count_reverse(rest);
    }
}

/// Searching one directory leaves fewer to be searched, so the search ends.
pub proof fn law_search_ends(trees: Seq<Tree>, pending: Seq<Dir>)
    requires
        depicts(trees, pending),
        trees.len() > 0,
    ensures
        dirs_count(trees_after(trees, pending)) < dirs_count(trees),
{
    let tree = trees.last();
    let kept = trees.drop_last();
    assert(trees =~= kept + seq![tree]);
    lemma_count_join(kept, seq![tree]);
    lemma_count_one(tree);
    lemma_count_join(kept, tree.children.reverse());
    lemma_count_reverse(tree.children);
}

/// Behind a directory come its subdirectories, one level less deep to go, the first of them next;
/// then the directories that were waiting. Four levels below the start there are no more.
pub proof fn law_search_order(pending: Seq<Dir>, subdirs: Seq<usize>, k: int)
    requires
        pending.len() > 0,
    ensures
        SEARCH_DEPTH == 4,
        ({
            let after = pending_after(pending, subdirs);
            let n = pending.len() - 1;
            let m = subdirs.len();
            &&& pending[n].depth == 0 ==> after.len() == n
            &&& pending[n].depth > 0 ==> after.len() == n + m
            &&& 0 <= k < n ==> after[k] == pending[k]
            &&& pending[n].depth > 0 && 0 <= k < m ==> {
                &&& after[n + m - 1 - k].id == subdirs[k]
                &&& after[n + m - 1 - k].depth == pending[n].depth - 1
            }
        }),
{
}

} // verus!
