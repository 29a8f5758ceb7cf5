//! The construction planner: from a logical tree of named directories and
//! files to the flat lists of directories to create and files to write.
use vstd::prelude::*;
use vstd::utf8::encode_utf8;
use crate::path::implied_parents;
use crate::path::join;
use crate::path::path_implied_parents;
use crate::path::path_join;
use crate::text::dedup;
use crate::text::lemma_dedup;
use crate::text::same_text;
use crate::text::texts;

verus! {

/// A file of the output tree: where it goes, relative to the node that
/// holds it, and what it contains.
#[derive(Debug)]
pub struct ConstructFile {
    pub path: String,
    pub content: String,
}

pub ghost struct FileModel {
    pub path: Seq<char>,
    pub content: Seq<char>,
}

impl View for ConstructFile {
    type V = FileModel;

    open spec fn view(&self) -> FileModel {
        FileModel { path: self.path@, content: self.content@ }
    }
}

/// A node of the output tree: a directory name, the files placed under it
/// and the nodes below it.
#[derive(Debug)]
pub struct Construction {
    pub dir: String,
    pub content: Vec<ConstructFile>,
    pub sub_dir: Vec<Construction>,
}

pub ghost struct TreeModel {
    pub dir: Seq<char>,
    pub content: Seq<FileModel>,
    pub sub_dir: Seq<TreeModel>,
}

/// The model of a tree: its name, its files and the models of its subtrees.
pub open spec fn tree_model(t: Construction) -> TreeModel
    decreases t, t.sub_dir@.len() + 1,
{
    TreeModel {
        dir: t.dir@,
        content: Seq::new(t.content@.len(), |i: int| t.content@[i]@),
        sub_dir: subtree_models(t, t.sub_dir@.len()),
    }
}

/// The models of the first `n` subtrees of `t`.
pub open spec fn subtree_models(t: Construction, n: nat) -> Seq<TreeModel>
    decreases t, n,
{
    if n == 0 || n > t.sub_dir@.len() {
        Seq::empty()
    } else {
        subtree_models(t, (n - 1) as nat).push(tree_model(t.sub_dir@[n - 1]))
    }
}

impl View for Construction {
    type V = TreeModel;

    open spec fn view(&self) -> TreeModel {
        tree_model(*self)
    }
}

/// The flat plan: directories to create, and files to write with their
/// content.
#[derive(Debug)]
pub struct ConstructionPlan {
    pub dirs: Vec<String>,
    pub files: Vec<(String, String)>,
}

pub ghost struct PlanModel {
    pub dirs: Seq<Seq<char>>,
    pub files: Seq<(Seq<char>, Seq<char>)>,
}

/// What a list of planned files holds: path and content of each.
pub open spec fn file_texts(v: Seq<(String, String)>) -> Seq<(Seq<char>, Seq<char>)> {
    Seq::new(v.len(), |i: int| (v[i].0@, v[i].1@))
}

impl View for ConstructionPlan {
    type V = PlanModel;

    open spec fn view(&self) -> PlanModel {
        PlanModel { dirs: texts(self.dirs@), files: file_texts(self.files@) }
    }
}

/// Each path of `paths` placed under `root`.
pub open spec fn under(root: Seq<char>, paths: Seq<Seq<char>>) -> Seq<Seq<char>> {
    Seq::new(paths.len(), |i: int| join(root, paths[i]))
}

/// Each planned file with its path placed under `root`.
pub open spec fn files_under(root: Seq<char>, files: Seq<(Seq<char>, Seq<char>)>) -> Seq<
    (Seq<char>, Seq<char>),
> {
    Seq::new(files.len(), |i: int| (join(root, files[i].0), files[i].1))
}

/// The directories implied by the first `n` files of a node at `root`, file
/// by file, repetitions included.
pub open spec fn parents_of_files(root: Seq<char>, content: Seq<FileModel>, n: nat) -> Seq<
    Seq<char>,
>
    decreases n,
{
    if n == 0 || n > content.len() {
        Seq::empty()
    } else {
        parents_of_files(root, content, (n - 1) as nat) + under(
            root,
            implied_parents(content[n - 1].path),
        )
    }
}

/// The directories that the files of a node at `root` need, each once, in
/// the order in which the files first call for them.
pub open spec fn implied_dirs(root: Seq<char>, content: Seq<FileModel>) -> Seq<Seq<char>> {
    dedup(parents_of_files(root, content, content.len()))
}

/// The files of a node at `root`, each at its place under `root`.
pub open spec fn node_files(root: Seq<char>, content: Seq<FileModel>) -> Seq<
    (Seq<char>, Seq<char>),
> {
    Seq::new(content.len(), |i: int| (join(root, content[i].path), content[i].content))
}

/// The directories that the tree `t` needs when it is placed under
/// `parent`: its own, those its files imply, then those of its subtrees in
/// order.
pub open spec fn plan_dirs(t: TreeModel, parent: Seq<char>) -> Seq<Seq<char>>
    decreases t, t.sub_dir.len() + 1,
{
    let root = join(parent, t.dir);
    seq![root] + implied_dirs(root, t.content) + children_dirs(t, root, t.sub_dir.len())
}

/// The directories of the first `n` subtrees of `t`, each placed under
/// `root`.
pub open spec fn children_dirs(t: TreeModel, root: Seq<char>, n: nat) -> Seq<Seq<char>>
    decreases t, n,
{
    if n == 0 || n > t.sub_dir.len() {
        Seq::empty()
    } else {
        children_dirs(t, root, (n - 1) as nat) + plan_dirs(t.sub_dir[n - 1], root)
    }
}

/// The files that the tree `t` writes when it is placed under `parent`:
/// its own, then those of its subtrees in order.
pub open spec fn plan_files(t: TreeModel, parent: Seq<char>) -> Seq<(Seq<char>, Seq<char>)>
    decreases t, t.sub_dir.len() + 1,
{
    let root = join(parent, t.dir);
    node_files(root, t.content) + children_files(t, root, t.sub_dir.len())
}

/// The files of the first `n` subtrees of `t`, each placed under `root`.
pub open spec fn children_files(t: TreeModel, root: Seq<char>, n: nat) -> Seq<
    (Seq<char>, Seq<char>),
>
    decreases t, n,
{
    if n == 0 || n > t.sub_dir.len() {
        Seq::empty()
    } else {
        children_files(t, root, (n - 1) as nat) + plan_files(t.sub_dir[n - 1], root)
    }
}

/// The length of a path in bytes, as the machine counts it.
pub open spec fn path_len(p: Seq<char>) -> usize {
    encode_utf8(p).len() as usize
}

/// `p` put into `sorted` behind every path that is not longer than it.
pub open spec fn insert_by_len(sorted: Seq<Seq<char>>, p: Seq<char>) -> Seq<Seq<char>>
    decreases sorted.len(),
{
    if sorted.len() == 0 {
        seq![p]
    } else if path_len(sorted.last()) <= path_len(p) {
        sorted.push(p)
    } else {
        insert_by_len(sorted.drop_last(), p).push(sorted.last())
    }
}

/// `s` ordered by length, shortest first; paths of one length keep the
/// order they had in `s`.
pub open spec fn sorted_by_len(s: Seq<Seq<char>>) -> Seq<Seq<char>>
    decreases s.len(),
{
    if s.len() == 0 {
        s
    } else {
        insert_by_len(sorted_by_len(s.drop_last()), s.last())
    }
}

/// No path of `s` is longer than one that follows it.
pub open spec fn ordered_by_len(s: Seq<Seq<char>>) -> bool {
    forall|i: int, j: int| 0 <= i <= j < s.len() ==> path_len(#[trigger] s[i]) <= path_len(#[trigger] s[j])
}

/// Where `p` goes when it is put into `s` by length: at `k`, if all from
/// `k` on are longer and the one before `k` is not.
pub proof fn lemma_insert_position(s: Seq<Seq<char>>, p: Seq<char>, k: int)
    requires
        0 <= k <= s.len(),
        forall|j: int| k <= j < s.len() ==> path_len(#[trigger] s[j]) > path_len(p),
        k > 0 ==> path_len(s[k - 1]) <= path_len(p),
    ensures
        insert_by_len(s, p) == s.insert(k, p),
    decreases s.len(),
{
    if s.len() == 0 {
        assert(seq![p] =~= s.insert(k, p));
    } else if k == s.len() {
        assert(s.push(p) =~= s.insert(k, p));
    } else {
        assert(path_len(s.last()) > path_len(p));
        let front = s.drop_last();
        lemma_insert_position(front, p, k);
        assert(front.insert(k, p).push(s.last()) =~= s.insert(k, p));
    }
}

/// Putting a path in by length keeps the order and adds exactly that path.
pub proof fn lemma_insert_by_len(s: Seq<Seq<char>>, p: Seq<char>)
    requires
        ordered_by_len(s),
    ensures
        ordered_by_len(insert_by_len(s, p)),
        insert_by_len(s, p).to_multiset() == s.to_multiset().insert(p),
        insert_by_len(s, p).len() == s.len() + 1,
    decreases s.len(),
{
    broadcast use vstd::seq_lib::group_to_multiset_ensures;

    if s.len() == 0 {
        assert(seq![p] =~= Seq::<Seq<char>>::empty().push(p));
        assert(s =~= Seq::<Seq<char>>::empty());
    } else if path_len(s.last()) <= path_len(p) {
        let r = s.push(p);
        assert forall|i: int, j: int| 0 <= i <= j < r.len() implies path_len(#[trigger] r[i])
            <= path_len(#[trigger] r[j]) by {
            if j < s.len() {
                assert(r[i] == s[i] && r[j] == s[j]);
            } else if i < s.len() {
                assert(r[i] == s[i]);
                assert(path_len(s[i]) <= path_len(s[s.len() - 1]));
            }
        }
    } else {
        let front = s.drop_last();
        assert forall|i: int, j: int| 0 <= i <= j < front.len() implies path_len(
            #[trigger] front[i],
        ) <= path_len(#[trigger] front[j]) by {
            assert(front[i] == s[i] && front[j] == s[j]);
        }
        lemma_insert_by_len(front, p);
        let mid = insert_by_len(front, p);
        let r = mid.push(s.last());
        assert forall|x: Seq<char>| mid.contains(x) implies path_len(x) <= path_len(s.last()) by {
            assert(mid.to_multiset().count(x) > 0);
            if x != p {
                assert(front.to_multiset().count(x) > 0);
                assert(front.contains(x));
                let k = choose|k: int| 0 <= k < front.len() && front[k] == x;
                assert(s[k] == x);
                assert(path_len(s[k]) <= path_len(s[s.len() - 1]));
            }
        }
        assert forall|i: int, j: int| 0 <= i <= j < r.len() implies path_len(#[trigger] r[i])
            <= path_len(#[trigger] r[j]) by {
            if j < mid.len() {
                assert(r[i] == mid[i] && r[j] == mid[j]);
            } else if i < mid.len() {
                assert(r[i] == mid[i]);
                assert(mid.contains(mid[i]));
            }
        }
        assert(s =~= front.push(s.last()));
        assert(r.to_multiset() =~= s.to_multiset().insert(p));
    }
}

/// Ordering by length gives an ordered list that holds the same paths, each
/// as often as before.
pub proof fn lemma_sorted_by_len(s: Seq<Seq<char>>)
    ensures
        ordered_by_len(sorted_by_len(s)),
        sorted_by_len(s).to_multiset() == s.to_multiset(),
        sorted_by_len(s).len() == s.len(),
    decreases s.len(),
{
    broadcast use vstd::seq_lib::group_to_multiset_ensures;

    if s.len() > 0 {
        lemma_sorted_by_len(s.drop_last());
        lemma_insert_by_len(sorted_by_len(s.drop_last()), s.last());
        assert(s =~= s.drop_last().push(s.last()));
    }
}


/// The models of the first `n` subtrees are those subtrees' models, in
/// order.
pub proof fn lemma_subtree_models(t: Construction, n: nat)
    requires
        n <= t.sub_dir@.len(),
    ensures
        subtree_models(t, n).len() == n,
        forall|i: int| 0 <= i < n ==> #[trigger] subtree_models(t, n)[i] == t.sub_dir@[i]@,
    decreases n,
{
    if n > 0 {
        lemma_subtree_models(t, (n - 1) as nat);
    }
}

/// How the parts of a tree's model follow from the tree.
pub proof fn lemma_tree_model(t: &Construction)
    ensures
        t@.dir == t.dir@,
        t@.content.len() == t.content@.len(),
        forall|i: int| 0 <= i < t.content@.len() ==> #[trigger] t@.content[i] == t.content@[i]@,
        t@.sub_dir.len() == t.sub_dir@.len(),
        forall|i: int| 0 <= i < t.sub_dir@.len() ==> #[trigger] t@.sub_dir[i] == t.sub_dir@[i]@,
{
    lemma_subtree_models(*t, t.sub_dir@.len());
}

/// Whether `list` holds a string with the characters of `p`.
fn holds_path(list: &Vec<String>, p: &String) -> (found: bool)
    ensures
        found == texts(list@).contains(p@),
{
    let mut i: usize = 0;
    while i < list.len()
        invariant
            i <= list.len(),
            forall|j: int| 0 <= j < i ==> texts(list@)[j] != p@,
        decreases list.len() - i,
    {
        if list[i] == *p {
            assert(texts(list@)[i as int] == p@);
            return true;
        }
        i += 1;
    }
    false
}

/// `dirs` ordered by length, shortest first, paths of one length in the
/// order they had.
fn sort_by_len(dirs: Vec<String>) -> (out: Vec<String>)
    ensures
        texts(out@) == sorted_by_len(texts(dirs@)),
{
    let mut out: Vec<String> = Vec::new();
    let mut i: usize = 0;
    while i < dirs.len()
        invariant
            i <= dirs.len(),
            texts(out@) == sorted_by_len(texts(dirs@).subrange(0, i as int)),
        decreases dirs.len() - i,
    {
        let p = dirs[i].clone();
        let mut k: usize = out.len();
        while k > 0 && out[k - 1].as_str().len() > p.as_str().len()
            invariant
                k <= out.len(),
                forall|j: int| k <= j < out.len() ==> path_len(#[trigger] texts(out@)[j]) > path_len(p@),
            decreases k,
        {
            k -= 1;
        }
        proof {
            let before = texts(out@);
            lemma_insert_position(before, p@, k as int);
            let upto = texts(dirs@).subrange(0, i + 1);
            assert(upto.drop_last() =~= texts(dirs@).subrange(0, i as int));
            assert(upto.last() == p@);
            assert(texts(out@.insert(k as int, p)) =~= before.insert(k as int, p@));
        }
        out.insert(k, p);
        i += 1;
    }
    proof {
        assert(texts(dirs@).subrange(0, dirs.len() as int) =~= texts(dirs@));
    }
    out
}

impl ConstructionPlan {
    /// Adds the directories and files of `other` behind those already
    /// planned.
    pub fn merge(&mut self, other: ConstructionPlan)
        ensures
            final(self)@.dirs == old(self)@.dirs + other@.dirs,
            final(self)@.files == old(self)@.files + other@.files,
    {
        let mut other = other;
        proof {
            assert(texts(self.dirs@ + other.dirs@) =~= texts(self.dirs@) + texts(other.dirs@));
            assert(file_texts(self.files@ + other.files@) =~= file_texts(self.files@) + file_texts(
                other.files@,
            ));
        }
        self.dirs.append(&mut other.dirs);
        self.files.append(&mut other.files);
    }

    /// Places every planned directory and file under `prefix`; a path that
    /// is absolute already stays as it is.
    pub fn prefix_dirs(&mut self, prefix: &str)
        ensures
            final(self)@.dirs == under(prefix@, old(self)@.dirs),
            final(self)@.files == files_under(prefix@, old(self)@.files),
    {
        let mut dirs: Vec<String> = Vec::new();
        let mut i: usize = 0;
        while i < self.dirs.len()
            invariant
                i <= self.dirs.len(),
                *self == *old(self),
                dirs@.len() == i,
                forall|k: int| 0 <= k < i ==> (#[trigger] dirs@[k])@ == join(prefix@, self.dirs@[k]@),
            decreases self.dirs.len() - i,
        {
            let d = path_join(prefix, self.dirs[i].as_str());
            dirs.push(d);
            i += 1;
        }
        let mut files: Vec<(String, String)> = Vec::new();
        let mut j: usize = 0;
        while j < self.files.len()
            invariant
                j <= self.files.len(),
                *self == *old(self),
                files@.len() == j,
                forall|k: int|
                    0 <= k < j ==> (#[trigger] files@[k]).0@ == join(prefix@, self.files@[k].0@)
                        && files@[k].1@ == self.files@[k].1@,
            decreases self.files.len() - j,
        {
            let f = (path_join(prefix, self.files[j].0.as_str()), self.files[j].1.clone());
            files.push(f);
            j += 1;
        }
        proof {
            assert(texts(dirs@) =~= under(prefix@, texts(self.dirs@)));
            assert(file_texts(files@) =~= files_under(prefix@, file_texts(self.files@)));
        }
        self.dirs = dirs;
        self.files = files;
    }
}

impl Construction {
    /// The plan for this tree placed under `root`: every directory it
    /// needs, shortest path first, and every file with its content.
    pub fn plan(&self, root: &str) -> (plan: ConstructionPlan)
        ensures
            plan@.dirs == sorted_by_len(plan_dirs(self@, root@)),
            plan@.files == plan_files(self@, root@),
    {
        let plan = self._plan(root);
        let ConstructionPlan { dirs, files } = plan;
        ConstructionPlan { dirs: sort_by_len(dirs), files }
    }

    /// The plan for this tree placed under `parent`, its directories in the
    /// order in which the tree names them.
    pub fn _plan(&self, parent: &str) -> (plan: ConstructionPlan)
        ensures
            plan@.dirs == plan_dirs(self@, parent@),
            plan@.files == plan_files(self@, parent@),
        decreases self,
    {
        proof {
            lemma_tree_model(self);
        }
        let root = path_join(parent, self.dir.as_str());
        let mut files: Vec<(String, String)> = Vec::new();
        let mut i: usize = 0;
        while i < self.content.len()
            invariant
                i <= self.content.len(),
                self@.content.len() == self.content@.len(),
                forall|k: int|
                    0 <= k < self.content@.len() ==> #[trigger] self@.content[k]
                        == self.content@[k]@,
                files@.len() == i,
                forall|k: int|
                    0 <= k < i ==> (#[trigger] files@[k]).0@ == join(root@, self.content@[k].path@)
                        && files@[k].1@ == self.content@[k].content@,
            decreases self.content.len() - i,
        {
            let f = (
                path_join(root.as_str(), self.content[i].path.as_str()),
                self.content[i].content.clone(),
            );
            files.push(f);
            i += 1;
        }
        proof {
            assert(file_texts(files@) =~= node_files(root@, self@.content));
        }
        let mut used: Vec<String> = Vec::new();
        let mut i: usize = 0;
        while i < self.content.len()
            invariant
                i <= self.content.len(),
                self@.content.len() == self.content@.len(),
                forall|k: int|
                    0 <= k < self.content@.len() ==> #[trigger] self@.content[k]
                        == self.content@[k]@,
                texts(used@) == dedup(parents_of_files(root@, self@.content, i as nat)),
            decreases self.content.len() - i,
        {
            let parents = path_implied_parents(self.content[i].path.as_str());
            let ghost before = parents_of_files(root@, self@.content, i as nat);
            let ghost added = under(root@, texts(parents@));
            let mut j: usize = 0;
            while j < parents.len()
                invariant
                    j <= parents.len(),
                    added == under(root@, texts(parents@)),
                    texts(used@) == dedup(before + added.subrange(0, j as int)),
                decreases parents.len() - j,
            {
                let d = path_join(root.as_str(), parents[j].as_str());
                proof {
                    let sofar = before + added.subrange(0, j as int);
                    let next = before + added.subrange(0, j + 1);
                    assert(next.drop_last() =~= sofar);
                    assert(next.last() == d@);
                    assert(texts(used@.push(d)) =~= texts(used@).push(d@));
                }
                if !holds_path(&used, &d) {
                    used.push(d);
                }
                j += 1;
            }
            proof {
                assert(self@.content[i as int] == self.content@[i as int]@);
                assert(added.subrange(0, parents.len() as int) =~= added);
                assert(before + added == parents_of_files(root@, self@.content, (i + 1) as nat));
            }
            i += 1;
        }
        let mut plan = ConstructionPlan { dirs: Vec::new(), files };
        plan.dirs.push(root.clone());
        proof {
            assert(texts(plan.dirs@ + used@) =~= seq![root@] + implied_dirs(root@, self@.content));
        }
        plan.dirs.append(&mut used);
        let mut i: usize = 0;
        while i < self.sub_dir.len()
            invariant
                i <= self.sub_dir.len(),
                self@.sub_dir.len() == self.sub_dir@.len(),
                forall|k: int|
                    0 <= k < self.sub_dir@.len() ==> #[trigger] self@.sub_dir[k]
                        == self.sub_dir@[k]@,
                plan@.dirs == seq![root@] + implied_dirs(root@, self@.content) + children_dirs(
                    self@,
                    root@,
                    i as nat,
                ),
                plan@.files == node_files(root@, self@.content) + children_files(
                    self@,
                    root@,
                    i as nat,
                ),
            decreases self.sub_dir.len() - i,
        {
            let sub = self.sub_dir[i]._plan(root.as_str());
            proof {
                assert(self@.sub_dir[i as int] == self.sub_dir@[i as int]@);
            }
            plan.merge(sub);
            i += 1;
        }
        plan
    }
}

/// Whether `path` is one of `excludes`, each of them taken under `root`
/// unless it is absolute.
pub fn excluded(root: &str, path: &str, excludes: &Vec<String>) -> (hit: bool)
    ensures
        hit == exists|i: int|
            0 <= i < excludes@.len() && path@ == join(root@, #[trigger] excludes@[i]@),
{
    let mut i: usize = 0;
    while i < excludes.len()
        invariant
            i <= excludes.len(),
            forall|j: int| 0 <= j < i ==> path@ != join(root@, #[trigger] excludes@[j]@),
        decreases excludes.len() - i,
    {
        let candidate = path_join(root, excludes[i].as_str());
        if same_text(candidate.as_str(), path) {
            return true;
        }
        i += 1;
    }
    false
}


/// A directory that one of the first `n` files implies is among the
/// directories collected for those files.
pub proof fn lemma_parents_of_files(
    root: Seq<char>,
    content: Seq<FileModel>,
    n: nat,
    k: int,
    q: Seq<char>,
)
    requires
        0 <= k < n <= content.len(),
        implied_parents(content[k].path).contains(q),
    ensures
        parents_of_files(root, content, n).contains(join(root, q)),
    decreases n,
{
    let front = parents_of_files(root, content, (n - 1) as nat);
    let added = under(root, implied_parents(content[n - 1].path));
    if k == n - 1 {
        let ps = implied_parents(content[k].path);
        let m = choose|m: int| 0 <= m < ps.len() && ps[m] == q;
        assert(added[m] == join(root, q));
        assert((front + added)[front.len() + m] == join(root, q));
    } else {
        lemma_parents_of_files(root, content, (n - 1) as nat, k, q);
        let m = choose|m: int| 0 <= m < front.len() && front[m] == join(root, q);
        assert((front + added)[m] == join(root, q));
    }
}

/// What the subtrees need is part of what the tree needs.
pub proof fn lemma_children_dirs(t: TreeModel, root: Seq<char>, n: nat, j: int, d: Seq<char>)
    requires
        0 <= j < n <= t.sub_dir.len(),
        plan_dirs(t.sub_dir[j], root).contains(d),
    ensures
        children_dirs(t, root, n).contains(d),
    decreases n,
{
    let front = children_dirs(t, root, (n - 1) as nat);
    let added = plan_dirs(t.sub_dir[n - 1], root);
    if j == n - 1 {
        let m = choose|m: int| 0 <= m < added.len() && added[m] == d;
        assert((front + added)[front.len() + m] == d);
    } else {
        lemma_children_dirs(t, root, (n - 1) as nat, j, d);
        let m = choose|m: int| 0 <= m < front.len() && front[m] == d;
        assert((front + added)[m] == d);
    }
}

/// The plan creates the directory of the tree itself.
pub proof fn lemma_plan_creates_own_directory(t: TreeModel, parent: Seq<char>)
    ensures
        sorted_by_len(plan_dirs(t, parent)).contains(join(parent, t.dir)),
{
    let dirs = plan_dirs(t, parent);
    assert(dirs[0] == join(parent, t.dir));
    lemma_sorted_keeps_items(dirs, join(parent, t.dir));
}

/// Ordering by length neither adds nor loses a directory.
pub proof fn lemma_sorted_keeps_items(s: Seq<Seq<char>>, d: Seq<char>)
    ensures
        sorted_by_len(s).contains(d) <==> s.contains(d),
{
    broadcast use vstd::seq_lib::group_to_multiset_ensures;

    lemma_sorted_by_len(s);
    assert(sorted_by_len(s).to_multiset().count(d) == s.to_multiset().count(d));
}

/// The plan creates every directory that the path of one of the tree's
/// files implies, whether or not a subtree of that name was declared: for
/// a file at `a/b/c.html` under a tree placed at `root`, both `root/a` and
/// `root/a/b`.
pub proof fn lemma_plan_creates_implied_parents(
    t: TreeModel,
    parent: Seq<char>,
    k: int,
    q: Seq<char>,
)
    requires
        0 <= k < t.content.len(),
        implied_parents(t.content[k].path).contains(q),
    ensures
        sorted_by_len(plan_dirs(t, parent)).contains(join(join(parent, t.dir), q)),
{
    let root = join(parent, t.dir);
    let d = join(root, q);
    lemma_parents_of_files(root, t.content, t.content.len(), k, q);
    lemma_dedup(parents_of_files(root, t.content, t.content.len()));
    let implied = implied_dirs(root, t.content);
    assert(implied.contains(d));
    let m = choose|m: int| 0 <= m < implied.len() && implied[m] == d;
    let dirs = plan_dirs(t, parent);
    assert(dirs[1 + m] == d);
    lemma_sorted_keeps_items(dirs, d);
}

/// The plan of a tree creates every directory that the plan of one of its
/// subtrees, placed under the tree's own directory, creates.
pub proof fn lemma_plan_covers_subtrees(t: TreeModel, parent: Seq<char>, j: int, d: Seq<char>)
    requires
        0 <= j < t.sub_dir.len(),
        sorted_by_len(plan_dirs(t.sub_dir[j], join(parent, t.dir))).contains(d),
    ensures
        sorted_by_len(plan_dirs(t, parent)).contains(d),
{
    let root = join(parent, t.dir);
    lemma_sorted_keeps_items(plan_dirs(t.sub_dir[j], root), d);
    lemma_children_dirs(t, root, t.sub_dir.len(), j, d);
    let below = children_dirs(t, root, t.sub_dir.len());
    let m = choose|m: int| 0 <= m < below.len() && below[m] == d;
    let head = seq![root] + implied_dirs(root, t.content);
    let dirs = plan_dirs(t, parent);
    assert(dirs[head.len() + m] == d);
    lemma_sorted_keeps_items(dirs, d);
}


/// The plan writes every file of the tree at its place under the tree's
/// own directory, with its content.
pub proof fn lemma_plan_writes_files(t: TreeModel, parent: Seq<char>, k: int)
    requires
        0 <= k < t.content.len(),
    ensures
        plan_files(t, parent).contains(
            (join(join(parent, t.dir), t.content[k].path), t.content[k].content),
        ),
{
    let root = join(parent, t.dir);
    let files = plan_files(t, parent);
    assert(files[k] == node_files(root, t.content)[k]);
}

/// What a destination holds: for each path at which there is a file, the
/// content of that file.
pub type Destination = Map<Seq<char>, Seq<char>>;

/// The destination after the first `n` of `files` were written to it, one
/// after the other: a file that was there is replaced, and nothing is
/// taken away.
pub open spec fn after_writing(
    before: Destination,
    files: Seq<(Seq<char>, Seq<char>)>,
    n: nat,
) -> Destination
    decreases n,
{
    if n == 0 || n > files.len() {
        before
    } else {
        after_writing(before, files, (n - 1) as nat).insert(files[n - 1].0, files[n - 1].1)
    }
}

/// What the last of the first `n` of `files` that goes to `path` holds, if
/// one of them goes there.
pub open spec fn last_written(files: Seq<(Seq<char>, Seq<char>)>, n: nat, path: Seq<char>) -> Option<
    Seq<char>,
>
    decreases n,
{
    if n == 0 || n > files.len() {
        None
    } else if files[n - 1].0 == path {
        Some(files[n - 1].1)
    } else {
        last_written(files, (n - 1) as nat, path)
    }
}

/// After writing, a path holds what was written to it last, and a path to
/// which nothing was written holds what it held before.
pub proof fn lemma_after_writing(
    before: Destination,
    files: Seq<(Seq<char>, Seq<char>)>,
    n: nat,
    path: Seq<char>,
)
    requires
        n <= files.len(),
    ensures
        after_writing(before, files, n).dom().contains(path) <==> before.dom().contains(path)
            || last_written(files, n, path) is Some,
        last_written(files, n, path) matches Some(content) ==> after_writing(before, files, n)[path]
            == content,
        last_written(files, n, path) is None ==> after_writing(before, files, n)[path]
            == before[path],
    decreases n,
{
    if n > 0 {
        lemma_after_writing(before, files, (n - 1) as nat, path);
    }
}

/// Carrying out a plan a second time changes nothing: the destination
/// holds the same files with the same content as after the first time.
pub proof fn lemma_writing_twice(before: Destination, files: Seq<(Seq<char>, Seq<char>)>)
    ensures
        after_writing(after_writing(before, files, files.len()), files, files.len())
            == after_writing(before, files, files.len()),
{
    let once = after_writing(before, files, files.len());
    let twice = after_writing(once, files, files.len());
    assert forall|path: Seq<char>| #[trigger]
        twice.dom().contains(path) == once.dom().contains(path) by {
        lemma_after_writing(before, files, files.len(), path);
        lemma_after_writing(once, files, files.len(), path);
    }
    assert forall|path: Seq<char>| once.dom().contains(path) implies #[trigger] twice[path]
        == once[path] by {
        lemma_after_writing(before, files, files.len(), path);
        lemma_after_writing(once, files, files.len(), path);
    }
    assert(twice.dom() =~= once.dom());
    assert(twice =~= once);
}

/// A file of the destination that the plan does not name is left as it
/// was.
pub proof fn lemma_writing_leaves_others(
    before: Destination,
    files: Seq<(Seq<char>, Seq<char>)>,
    path: Seq<char>,
)
    requires
        forall|i: int| 0 <= i < files.len() ==> (#[trigger] files[i]).0 != path,
    ensures
        after_writing(before, files, files.len()).dom().contains(path) == before.dom().contains(
            path,
        ),
        after_writing(before, files, files.len())[path] == before[path],
{
    lemma_never_written(files, files.len(), path);
    lemma_after_writing(before, files, files.len(), path);
}

/// Nothing was written last to a path that none of the files goes to.
pub proof fn lemma_never_written(files: Seq<(Seq<char>, Seq<char>)>, n: nat, path: Seq<char>)
    requires
        n <= files.len(),
        forall|i: int| 0 <= i < files.len() ==> (#[trigger] files[i]).0 != path,
    ensures
        last_written(files, n, path) is None,
    decreases n,
{
    if n > 0 {
        lemma_never_written(files, (n - 1) as nat, path);
    }
}

} // verus!
