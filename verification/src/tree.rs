//! The preview-mode tree builder and reporter.
//!
//! The flat lists of included and excluded entries are sorted by relative
//! path, grouped into a tree by path segment, the children of every node are
//! ordered directories-first then by name, and the tree is rendered with
//! box-drawing connectors, a `/` after directory names, a note after included
//! binary files, and (for the excluded section) the category and pattern that
//! excluded each entry.

use vstd::prelude::*;
use vstd::string::StrSliceExecFns;
use vstd::string::StringExecFns;
use crate::filter::ExclusionReason;
use crate::filter::ReasonV;
use crate::strkit::lex_lt;
use crate::strkit::str_eq;
use crate::strkit::str_lt;

verus! {

/// What the walk recorded about one visited entry, for the preview report.
pub struct FileInfo {
    /// The path relative to the scan root.
    pub rel_path: String,
    /// Whether the entry is a directory.
    pub is_dir: bool,
    /// Whether an included file classified as text; always false for
    /// directories and excluded entries.
    pub is_text: bool,
    /// Whether the entry was excluded.
    pub excluded: bool,
    /// The pattern and category that excluded it, when it was.
    pub reason: Option<ExclusionReason>,
}

/// The mathematical value of a recorded entry.
#[verifier::ext_equal]
pub ghost struct FileInfoV {
    pub rel_path: Seq<char>,
    pub is_dir: bool,
    pub is_text: bool,
    pub excluded: bool,
    pub reason: Option<ReasonV>,
}

impl View for FileInfo {
    type V = FileInfoV;

    open spec fn view(&self) -> FileInfoV {
        FileInfoV {
            rel_path: self.rel_path@,
            is_dir: self.is_dir,
            is_text: self.is_text,
            excluded: self.excluded,
            reason: self.reason.deep_view(),
        }
    }
}

impl DeepView for FileInfo {
    type V = FileInfoV;

    open spec fn deep_view(&self) -> FileInfoV {
        self.view()
    }
}

impl Clone for FileInfo {
    fn clone(&self) -> (r: Self)
        ensures
            r@ == self@,
    {
        let reason = match &self.reason {
            Option::Some(re) => Some(re.clone()),
            Option::None => None,
        };
        FileInfo {
            rel_path: self.rel_path.clone(),
            is_dir: self.is_dir,
            is_text: self.is_text,
            excluded: self.excluded,
            reason,
        }
    }
}

/// One node of the preview tree: a path segment, the entry attached to it
/// (when the segment ends a recorded path), and its children.
pub struct TreeNode {
    pub name: String,
    pub file: Option<FileInfo>,
    pub children: Vec<TreeNode>,
    pub is_dir: bool,
}

/// The mathematical value of a tree node.
#[verifier::ext_equal]
pub ghost struct STree {
    pub name: Seq<char>,
    pub file: Option<FileInfoV>,
    pub children: Seq<STree>,
    pub is_dir: bool,
}

/// The value of a whole exec tree.
pub open spec fn tree_view(n: TreeNode) -> STree
    decreases n,
{
    STree {
        name: n.name@,
        file: n.file.deep_view(),
        children: forest_view(n.children@),
        is_dir: n.is_dir,
    }
}

/// The values of a sequence of exec trees.
pub open spec fn forest_view(s: Seq<TreeNode>) -> Seq<STree>
    decreases s,
{
    if s.len() == 0 {
        Seq::empty()
    } else {
        seq![tree_view(s[0])] + forest_view(s.drop_first())
    }
}

impl View for TreeNode {
    type V = STree;

    open spec fn view(&self) -> STree {
        tree_view(*self)
    }
}

proof fn lemma_forest_view_index(s: Seq<TreeNode>)
    ensures
        forest_view(s).len() == s.len(),
        forall|j: int| 0 <= j < s.len() ==> forest_view(s)[j] == tree_view(#[trigger] s[j]),
    decreases s.len(),
{
    if s.len() > 0 {
        lemma_forest_view_index(s.drop_first());
        assert forall|j: int| 0 <= j < s.len() implies forest_view(s)[j] == tree_view(
            #[trigger] s[j],
        ) by {
            if j > 0 {
                assert(s.drop_first()[j - 1] == s[j]);
                assert(forest_view(s)[j] == forest_view(s.drop_first())[j - 1]);
            }
        }
    }
}

proof fn lemma_forest_view_push(s: Seq<TreeNode>, x: TreeNode)
    ensures
        forest_view(s.push(x)) =~= forest_view(s).push(tree_view(x)),
    decreases s.len(),
{
    if s.len() == 0 {
        assert(s.push(x).drop_first() =~= s);
    } else {
        lemma_forest_view_push(s.drop_first(), x);
        assert(s.push(x).drop_first() =~= s.drop_first().push(x));
    }
}

proof fn lemma_forest_view_update(s: Seq<TreeNode>, j: int, x: TreeNode)
    requires
        0 <= j < s.len(),
    ensures
        forest_view(s.update(j, x)) =~= forest_view(s).update(j, tree_view(x)),
    decreases s.len(),
{
    lemma_forest_view_index(s);
    lemma_forest_view_index(s.update(j, x));
    assert forall|m: int| 0 <= m < s.len() implies forest_view(s.update(j, x))[m] == forest_view(
        s,
    ).update(j, tree_view(x))[m] by {
        if m == j {
            assert(s.update(j, x)[m] == x);
        } else {
            assert(s.update(j, x)[m] == s[m]);
        }
    }
}

/// The height of a tree, for termination measures.
pub open spec fn tree_height(t: STree) -> nat
    decreases t,
{
    1 + forest_height(t.children)
}

/// The summed height of a forest.
pub open spec fn forest_height(s: Seq<STree>) -> nat
    decreases s,
{
    if s.len() == 0 {
        0
    } else {
        tree_height(s[0]) + forest_height(s.drop_first())
    }
}

proof fn lemma_forest_height_index(s: Seq<STree>, j: int)
    requires
        0 <= j < s.len(),
    ensures
        tree_height(s[j]) <= forest_height(s),
    decreases s.len(),
{
    if j > 0 {
        lemma_forest_height_index(s.drop_first(), j - 1);
    }
}

/// The order of the children of one node: directories before files, then by
/// name.
pub open spec fn key_lt(a: STree, b: STree) -> bool {
    (a.is_dir && !b.is_dir) || (a.is_dir == b.is_dir && lex_lt(a.name, b.name))
}

fn node_lt(a: &TreeNode, b: &TreeNode) -> (r: bool)
    ensures
        r == key_lt(a@, b@),
{
    (a.is_dir && !b.is_dir) || (a.is_dir == b.is_dir && str_lt(a.name.as_str(), b.name.as_str()))
}

/// The sequence with `x` inserted before its first node that `x` is strictly
/// ordered before.
pub open spec fn spec_insert_node(s: Seq<STree>, x: STree) -> Seq<STree>
    decreases s.len(),
{
    if s.len() == 0 {
        seq![x]
    } else if key_lt(x, s[0]) {
        seq![x] + s
    } else {
        seq![s[0]] + spec_insert_node(s.drop_first(), x)
    }
}

/// Insertion sort of one level of children, directories first then by name,
/// keeping the arrival order of equal keys.
pub open spec fn spec_sort_nodes(s: Seq<STree>) -> Seq<STree>
    decreases s.len(),
{
    if s.len() == 0 {
        s
    } else {
        spec_insert_node(spec_sort_nodes(s.drop_last()), s.last())
    }
}

/// A tree with every node's children sorted, recursively.
pub open spec fn sort_tree(t: STree) -> STree
    decreases t,
{
    STree {
        name: t.name,
        file: t.file,
        children: spec_sort_nodes(sort_forest(t.children)),
        is_dir: t.is_dir,
    }
}

/// Each tree of a forest with its children sorted, recursively, in place.
pub open spec fn sort_forest(s: Seq<STree>) -> Seq<STree>
    decreases s,
{
    if s.len() == 0 {
        Seq::empty()
    } else {
        seq![sort_tree(s[0])] + sort_forest(s.drop_first())
    }
}

proof fn lemma_sort_forest_push(s: Seq<STree>, x: STree)
    ensures
        sort_forest(s.push(x)) =~= sort_forest(s).push(sort_tree(x)),
    decreases s.len(),
{
    if s.len() == 0 {
        assert(s.push(x).drop_first() =~= s);
    } else {
        lemma_sort_forest_push(s.drop_first(), x);
        assert(s.push(x).drop_first() =~= s.drop_first().push(x));
    }
}

fn insert_node_sorted(mut v: Vec<TreeNode>, x: TreeNode) -> (r: Vec<TreeNode>)
    ensures
        forest_view(r@) =~= spec_insert_node(forest_view(v@), tree_view(x)),
    decreases v@.len(),
{
    let ghost vorig = v@;
    let ghost forig = forest_view(vorig);
    proof {
        lemma_forest_view_index(vorig);
    }
    if v.len() == 0 {
        let ghost xv = tree_view(x);
        v.push(x);
        proof {
            assert(v@ =~= vorig.push(x));
            lemma_forest_view_push(vorig, x);
            assert(forest_view(v@) =~= spec_insert_node(forig, xv));
        }
        v
    } else if node_lt(&x, &v[0]) {
        let ghost xv = tree_view(x);
        v.insert(0, x);
        proof {
            assert(v@.drop_first() =~= vorig);
            assert(v@[0] == x);
            assert(forest_view(v@) =~= seq![xv] + forig);
            assert(forest_view(v@) =~= spec_insert_node(forig, xv));
        }
        v
    } else {
        let h = v.remove(0);
        proof {
            assert(v@ =~= vorig.drop_first());
            assert(h == vorig[0]);
            assert(forest_view(vorig.drop_first()) =~= forig.drop_first());
        }
        let r0 = insert_node_sorted(v, x);
        let ghost r0v = r0@;
        let mut r = r0;
        r.insert(0, h);
        proof {
            assert(r@.drop_first() =~= r0v);
            assert(r@[0] == h);
            assert(forest_view(r@) =~= seq![tree_view(h)] + forest_view(r0v));
            assert(forest_view(r@) =~= spec_insert_node(forig, tree_view(x)));
        }
        r
    }
}

fn sort_nodes(mut v: Vec<TreeNode>) -> (r: Vec<TreeNode>)
    ensures
        forest_view(r@) =~= spec_sort_nodes(forest_view(v@)),
    decreases v@.len(),
{
    let ghost vorig = v@;
    let ghost forig = forest_view(vorig);
    proof {
        lemma_forest_view_index(vorig);
    }
    if v.len() == 0 {
        v
    } else {
        let x = v.pop().unwrap();
        proof {
            assert(v@ =~= vorig.drop_last());
            assert(x == vorig.last());
            lemma_forest_view_index(v@);
            assert forall|j: int| 0 <= j < v@.len() implies #[trigger] forest_view(v@)[j]
                == forig[j] by {
                assert(v@[j] == vorig[j]);
            }
            assert(forest_view(v@) =~= forig.drop_last());
            assert(tree_view(x) == forig.last());
        }
        let s = sort_nodes(v);
        insert_node_sorted(s, x)
    }
}

/// Sorts a node's children, directories first then lexicographic by name,
/// and every descendant's children the same way.
pub fn sort_tree_children(node: TreeNode) -> (r: TreeNode)
    ensures
        r@ == sort_tree(node@),
    decreases tree_height(node@), 1nat, 0nat,
{
    let ghost n0 = tree_view(node);
    let TreeNode { name, file, children, is_dir } = node;
    proof {
        assert(n0.children == forest_view(children@));
        assert(tree_height(n0) == 1 + forest_height(n0.children));
    }
    let mapped = sort_each(children, Ghost(n0));
    let sorted = sort_nodes(mapped);
    let r = TreeNode { name, file, children: sorted, is_dir };
    proof {
        assert(tree_view(r) =~= sort_tree(n0));
    }
    r
}

fn sort_each(mut v: Vec<TreeNode>, parent: Ghost<STree>) -> (r: Vec<TreeNode>)
    requires
        forest_height(forest_view(v@)) < tree_height(parent@),
    ensures
        forest_view(r@) =~= sort_forest(forest_view(v@)),
    decreases tree_height(parent@), 0nat, v@.len(),
{
    let ghost vorig = v@;
    let ghost forig = forest_view(vorig);
    proof {
        lemma_forest_view_index(vorig);
    }
    if v.len() == 0 {
        v
    } else {
        let first = v.remove(0);
        proof {
            assert(v@ =~= vorig.drop_first());
            assert(first == vorig[0]);
            assert(forest_view(vorig.drop_first()) =~= forig.drop_first());
            lemma_forest_height_index(forig, 0);
            assert(forest_height(forig) == tree_height(forig[0]) + forest_height(
                forig.drop_first(),
            ));
            assert(tree_height(forig[0]) >= 1);
        }
        let sorted_first = sort_tree_children(first);
        let rest = sort_each(v, parent);
        let ghost restv = rest@;
        let mut r = rest;
        r.insert(0, sorted_first);
        proof {
            assert(r@.drop_first() =~= restv);
            assert(r@[0] == sorted_first);
            assert(forest_view(r@) =~= seq![sort_tree(forig[0])] + forest_view(restv));
            assert(forest_view(r@) =~= sort_forest(forig));
        }
        r
    }
}

/// The segments of a relative path, split at every `/`: the characters of
/// `cur` are the segment read so far, and an empty path yields one empty
/// segment.
pub open spec fn spec_split_path_rest(s: Seq<char>, cur: Seq<char>) -> Seq<Seq<char>>
    decreases s.len(),
{
    if s.len() == 0 {
        seq![cur]
    } else if s[0] == '/' {
        seq![cur] + spec_split_path_rest(s.drop_first(), Seq::empty())
    } else {
        spec_split_path_rest(s.drop_first(), cur.push(s[0]))
    }
}

/// The segments of a relative path, split at every `/`.
pub open spec fn spec_split_path(s: Seq<char>) -> Seq<Seq<char>> {
    spec_split_path_rest(s, Seq::empty())
}

/// Splits a relative path into its segments.
pub fn split_path(s: &str) -> (r: Vec<String>)
    ensures
        r.deep_view() =~= spec_split_path(s@),
        r@.len() >= 1,
{
    let l = s.unicode_len();
    let mut parts: Vec<String> = Vec::new();
    let mut start: usize = 0;
    let mut i: usize = 0;
    proof {
        assert(s@.skip(0) =~= s@);
        assert(s@.subrange(0, 0) =~= Seq::<char>::empty());
    }
    while i < l
        invariant
            l == s@.len(),
            start <= i <= l,
            spec_split_path(s@) =~= parts.deep_view() + spec_split_path_rest(
                s@.skip(i as int),
                s@.subrange(start as int, i as int),
            ),
        decreases l - i,
    {
        let ghost tail = s@.skip(i as int);
        let ghost cur = s@.subrange(start as int, i as int);
        proof {
            assert(tail[0] == s@[i as int]);
            assert(tail.drop_first() =~= s@.skip(i + 1));
        }
        let c = s.get_char(i);
        if c == '/' {
            let seg = String::from_str(s.substring_char(start, i));
            let ghost p0 = parts.deep_view();
            parts.push(seg);
            proof {
                assert(parts.deep_view() =~= p0.push(cur));
                assert(s@.subrange(i + 1, i + 1) =~= Seq::<char>::empty());
            }
            start = i + 1;
        } else {
            proof {
                assert(s@.subrange(start as int, i + 1) =~= cur.push(s@[i as int]));
            }
        }
        i = i + 1;
    }
    let seg = String::from_str(s.substring_char(start, l));
    let ghost p0 = parts.deep_view();
    parts.push(seg);
    proof {
        assert(s@.skip(l as int).len() == 0);
        assert(parts.deep_view() =~= p0.push(s@.subrange(start as int, l as int)));
    }
    parts
}

/// The position of the first child named `name`, or the number of children
/// when none is.
pub open spec fn spec_find_child(s: Seq<STree>, name: Seq<char>) -> int
    decreases s.len(),
{
    if s.len() == 0 {
        0
    } else if s[0].name == name {
        0
    } else {
        1 + spec_find_child(s.drop_first(), name)
    }
}

proof fn lemma_find_child_props(s: Seq<STree>, name: Seq<char>)
    ensures
        0 <= spec_find_child(s, name) <= s.len(),
        spec_find_child(s, name) < s.len() ==> s[spec_find_child(s, name)].name == name,
        forall|j: int| 0 <= j < spec_find_child(s, name) ==> (#[trigger] s[j]).name != name,
    decreases s.len(),
{
    if s.len() > 0 && s[0].name != name {
        lemma_find_child_props(s.drop_first(), name);
        assert forall|j: int| 0 <= j < spec_find_child(s, name) implies (#[trigger] s[j]).name
            != name by {
            if j > 0 {
                assert(s.drop_first()[j - 1] == s[j]);
            }
        }
    }
}

/// The tree with the path segments `parts` inserted under `t` and the entry
/// `fi` attached to the node of the last segment: each segment reuses the
/// first child of the same name and appends a new child otherwise; the last
/// segment's node takes the entry and its directory flag, and intermediate
/// fresh nodes are directories without an attached entry.
pub open spec fn spec_tree_insert(t: STree, parts: Seq<Seq<char>>, fi: FileInfoV) -> STree
    decreases parts.len(),
{
    if parts.len() == 0 {
        t
    } else {
        let part = parts[0];
        let is_last = parts.len() == 1;
        let j = spec_find_child(t.children, part);
        if j < t.children.len() {
            let c = t.children[j];
            let c2 = if is_last {
                STree { name: c.name, file: Some(fi), children: c.children, is_dir: fi.is_dir }
            } else {
                spec_tree_insert(c, parts.drop_first(), fi)
            };
            STree { name: t.name, file: t.file, children: t.children.update(j, c2), is_dir: t.is_dir }
        } else {
            let c2 = if is_last {
                STree { name: part, file: Some(fi), children: Seq::empty(), is_dir: fi.is_dir }
            } else {
                let fresh = STree { name: part, file: None, children: Seq::empty(), is_dir: true };
                spec_tree_insert(fresh, parts.drop_first(), fi)
            };
            STree { name: t.name, file: t.file, children: t.children.push(c2), is_dir: t.is_dir }
        }
    }
}

fn find_child(children: &Vec<TreeNode>, part: &str) -> (r: usize)
    ensures
        r == spec_find_child(forest_view(children@), part@),
{
    let ghost cv = forest_view(children@);
    proof {
        lemma_forest_view_index(children@);
        lemma_find_child_props(cv, part@);
    }
    let mut j: usize = 0;
    loop
        invariant
            cv == forest_view(children@),
            cv.len() == children@.len(),
            forall|m: int| 0 <= m < children@.len() ==> cv[m] == tree_view(
                #[trigger] children@[m],
            ),
            0 <= spec_find_child(cv, part@) <= cv.len(),
            spec_find_child(cv, part@) < cv.len() ==> cv[spec_find_child(cv, part@)].name
                == part@,
            forall|m: int| 0 <= m < spec_find_child(cv, part@) ==> (#[trigger] cv[m]).name
                != part@,
            j <= children@.len(),
            forall|m: int| 0 <= m < j ==> (#[trigger] cv[m]).name != part@,
        decreases children@.len() - j,
    {
        if j >= children.len() {
            return j;
        }
        if str_eq(children[j].name.as_str(), part) {
            proof {
                assert(cv[j as int].name == part@);
            }
            return j;
        }
        j = j + 1;
    }
}

/// Inserts the path segments `parts[from..]` under `t`, attaching `fi` to the
/// node of the last segment.
pub fn tree_insert(t: TreeNode, parts: &Vec<String>, from: usize, fi: FileInfo) -> (r: TreeNode)
    requires
        from < parts@.len(),
    ensures
        r@ == spec_tree_insert(t@, parts.deep_view().skip(from as int), fi@),
    decreases parts@.len() - from,
{
    let ghost t0 = tree_view(t);
    let ghost partsv = parts.deep_view().skip(from as int);
    let n = parts.len();
    let is_last = from + 1 == n;
    proof {
        assert(partsv[0] == parts.deep_view()[from as int]);
        assert(parts.deep_view()[from as int] == parts@[from as int]@);
        assert(partsv.drop_first() =~= parts.deep_view().skip(from + 1));
    }
    let TreeNode { name, file, mut children, is_dir } = t;
    let ghost tc0 = children@;
    let j = find_child(&children, parts[from].as_str());
    proof {
        lemma_forest_view_index(tc0);
    }
    if j < children.len() {
        let c = children.remove(j);
        proof {
            assert(c == tc0[j as int]);
            assert(tree_view(c) == t0.children[j as int]);
        }
        let c2 = if is_last {
            let fdir = fi.is_dir;
            TreeNode { name: c.name, file: Some(fi), children: c.children, is_dir: fdir }
        } else {
            tree_insert(c, parts, from + 1, fi)
        };
        proof {
            assert(tree_view(c2) == (if partsv.len() == 1 {
                STree {
                    name: t0.children[j as int].name,
                    file: Some(fi@),
                    children: t0.children[j as int].children,
                    is_dir: fi@.is_dir,
                }
            } else {
                spec_tree_insert(t0.children[j as int], partsv.drop_first(), fi@)
            }));
        }
        children.insert(j, c2);
        proof {
            assert(children@ =~= tc0.update(j as int, c2));
            lemma_forest_view_update(tc0, j as int, c2);
        }
        let r = TreeNode { name, file, children, is_dir };
        proof {
            assert(tree_view(r) =~= spec_tree_insert(t0, partsv, fi@));
        }
        r
    } else {
        let c2 = if is_last {
            let fdir = fi.is_dir;
            TreeNode { name: parts[from].clone(), file: Some(fi), children: Vec::new(), is_dir: fdir }
        } else {
            let fresh = TreeNode {
                name: parts[from].clone(),
                file: None,
                children: Vec::new(),
                is_dir: true,
            };
            proof {
                assert(tree_view(fresh) =~= (STree {
                    name: partsv[0],
                    file: None,
                    children: Seq::empty(),
                    is_dir: true,
                }));
            }
            tree_insert(fresh, parts, from + 1, fi)
        };
        let ghost cpre = children@;
        children.push(c2);
        proof {
            assert(children@ =~= cpre.push(c2));
            lemma_forest_view_push(cpre, c2);
        }
        let r = TreeNode { name, file, children, is_dir };
        proof {
            assert(tree_view(c2) =~= (if partsv.len() == 1 {
                STree { name: partsv[0], file: Some(fi@), children: Seq::empty(), is_dir: fi@.is_dir }
            } else {
                spec_tree_insert(
                    STree { name: partsv[0], file: None, children: Seq::empty(), is_dir: true },
                    partsv.drop_first(),
                    fi@,
                )
            }));
            assert(tree_view(r) =~= spec_tree_insert(t0, partsv, fi@));
        }
        r
    }
}

/// The empty root the preview tree grows from.
pub open spec fn spec_empty_root() -> STree {
    STree { name: Seq::empty(), file: None, children: Seq::empty(), is_dir: true }
}

/// The tree after inserting the entries `files[i..]` into `t`, skipping an
/// entry whose relative path is `.`.
pub open spec fn spec_build_from(files: Seq<FileInfoV>, i: int, t: STree) -> STree
    decreases files.len() - i,
{
    if i < 0 || i >= files.len() {
        t
    } else if files[i].rel_path == "."@ {
        spec_build_from(files, i + 1, t)
    } else {
        spec_build_from(
            files,
            i + 1,
            spec_tree_insert(t, spec_split_path(files[i].rel_path), files[i]),
        )
    }
}

/// Builds the preview tree from a list of recorded entries, in list order.
pub fn build_file_tree(files: &Vec<FileInfo>) -> (r: TreeNode)
    ensures
        r@ == spec_build_from(files.deep_view(), 0, spec_empty_root()),
{
    let ghost fv = files.deep_view();
    let mut t = TreeNode { name: String::new(), file: None, children: Vec::new(), is_dir: true };
    proof {
        assert(tree_view(t) =~= spec_empty_root());
    }
    let mut i: usize = 0;
    while i < files.len()
        invariant
            fv == files.deep_view(),
            i <= files@.len(),
            spec_build_from(fv, 0, spec_empty_root()) == spec_build_from(fv, i as int, tree_view(t)),
        decreases files@.len() - i,
    {
        proof {
            assert(files.deep_view()[i as int] == fv[i as int]);
        }
        if !str_eq(files[i].rel_path.as_str(), ".") {
            let parts = split_path(files[i].rel_path.as_str());
            proof {
                assert(parts.deep_view().skip(0) =~= parts.deep_view());
                assert(parts.deep_view() == spec_split_path(fv[i as int].rel_path));
            }
            let fi = files[i].clone();
            t = tree_insert(t, &parts, 0, fi);
        }
        i = i + 1;
    }
    t
}

/// The list with `x` inserted before its first entry whose relative path is
/// strictly greater.
pub open spec fn spec_insert_file(s: Seq<FileInfoV>, x: FileInfoV) -> Seq<FileInfoV>
    decreases s.len(),
{
    if s.len() == 0 {
        seq![x]
    } else if lex_lt(x.rel_path, s[0].rel_path) {
        seq![x] + s
    } else {
        seq![s[0]] + spec_insert_file(s.drop_first(), x)
    }
}

/// Insertion sort of recorded entries by relative path, ascending, keeping
/// the arrival order of equal paths.
pub open spec fn spec_sort_files(s: Seq<FileInfoV>) -> Seq<FileInfoV>
    decreases s.len(),
{
    if s.len() == 0 {
        s
    } else {
        spec_insert_file(spec_sort_files(s.drop_last()), s.last())
    }
}

fn insert_file_sorted(mut v: Vec<FileInfo>, x: FileInfo) -> (r: Vec<FileInfo>)
    ensures
        r.deep_view() =~= spec_insert_file(v.deep_view(), x@),
    decreases v@.len(),
{
    let ghost vorig = v.deep_view();
    if v.len() == 0 {
        let ghost xv = x@;
        v.push(x);
        proof {
            assert(v.deep_view() =~= vorig.push(xv));
            assert(v.deep_view() =~= spec_insert_file(vorig, xv));
        }
        v
    } else if str_lt(x.rel_path.as_str(), v[0].rel_path.as_str()) {
        let ghost xv = x@;
        v.insert(0, x);
        proof {
            assert(v.deep_view() =~= seq![xv] + vorig);
            assert(v.deep_view() =~= spec_insert_file(vorig, xv));
        }
        v
    } else {
        let h = v.remove(0);
        proof {
            assert(v.deep_view() =~= vorig.drop_first());
            assert(h@ == vorig[0]);
        }
        let ghost hv = h@;
        let mut r = insert_file_sorted(v, x);
        let ghost r0v = r.deep_view();
        r.insert(0, h);
        proof {
            assert(r.deep_view() =~= seq![hv] + r0v);
            assert(r.deep_view() =~= spec_insert_file(vorig, x@));
        }
        r
    }
}

/// Sorts recorded entries by relative path, lexicographic ascending.
pub fn sort_file_infos(mut v: Vec<FileInfo>) -> (r: Vec<FileInfo>)
    ensures
        r.deep_view() =~= spec_sort_files(v.deep_view()),
    decreases v@.len(),
{
    let ghost vorig = v.deep_view();
    if v.len() == 0 {
        v
    } else {
        let x = v.pop().unwrap();
        proof {
            assert(v.deep_view() =~= vorig.drop_last());
            assert(x@ == vorig.last());
        }
        let s = sort_file_infos(v);
        insert_file_sorted(s, x)
    }
}

/// The prefix a node's children are rendered under: two spaces under the
/// nameless root, and the node's own prefix extended with a continuation bar
/// or blank space depending on whether the node was the last of its siblings.
pub open spec fn spec_child_prefix(name: Seq<char>, prefix: Seq<char>, is_last: bool) -> Seq<
    char,
> {
    if name.len() == 0 {
        "  "@
    } else if is_last {
        prefix + "    "@
    } else {
        prefix + "│   "@
    }
}

/// One rendered tree line: the prefix, the connector, the node's name with
/// its decoration (`/` for directories, a skip note for included binary
/// files), and, when reasons are shown, the category and pattern that
/// excluded the entry.
pub open spec fn spec_render_node_line(n: STree, prefix: Seq<char>, is_last: bool, show: bool)
    -> Seq<char> {
    let connector = if is_last {
        "└── "@
    } else {
        "├── "@
    };
    let decoration = match n.file {
        Some(f) => if f.is_dir {
            "/"@
        } else if !f.is_text && !f.excluded {
            " (binary, will be skipped)"@
        } else {
            Seq::empty()
        },
        None => if n.is_dir {
            "/"@
        } else {
            Seq::empty()
        },
    };
    let reason_part = if show {
        match n.file {
            Some(f) => match f.reason {
                Some(re) => " ["@ + re.category + ": "@ + re.pattern + "]"@,
                None => Seq::empty(),
            },
            None => Seq::empty(),
        }
    } else {
        Seq::empty()
    };
    prefix + connector + n.name + decoration + reason_part + "\n"@
}

/// The rendered subtree of a node: its own line (skipped for a nameless
/// node) followed by its children, each knowing whether it is the last.
pub open spec fn spec_render_tree(n: STree, prefix: Seq<char>, is_last: bool, show: bool) -> Seq<
    char,
>
    decreases n,
{
    (if n.name.len() > 0 {
        spec_render_node_line(n, prefix, is_last, show)
    } else {
        Seq::empty()
    }) + spec_render_forest(n.children, spec_child_prefix(n.name, prefix, is_last), show)
}

/// The rendered lines of a forest of siblings under one prefix.
pub open spec fn spec_render_forest(cs: Seq<STree>, prefix: Seq<char>, show: bool) -> Seq<char>
    decreases cs,
{
    if cs.len() == 0 {
        Seq::empty()
    } else {
        spec_render_tree(cs[0], prefix, cs.len() == 1, show) + spec_render_forest(
            cs.drop_first(),
            prefix,
            show,
        )
    }
}

/// Appends one rendered tree line for a node.
fn print_tree_node(node: &TreeNode, prefix: &str, is_last: bool, show_reason: bool, out: &mut String)
    ensures
        final(out)@ == old(out)@ + spec_render_node_line(node@, prefix@, is_last, show_reason),
{
    out.append(prefix);
    if is_last {
        out.append("└── ");
    } else {
        out.append("├── ");
    }
    out.append(node.name.as_str());
    match &node.file {
        Option::Some(f) => {
            if f.is_dir {
                out.append("/");
            } else if !f.is_text && !f.excluded {
                out.append(" (binary, will be skipped)");
            }
        },
        Option::None => {
            if node.is_dir {
                out.append("/");
            }
        },
    }
    if show_reason {
        match &node.file {
            Option::Some(f) => {
                match &f.reason {
                    Option::Some(re) => {
                        out.append(" [");
                        out.append(re.category.as_str());
                        out.append(": ");
                        out.append(re.pattern.as_str());
                        out.append("]");
                    },
                    Option::None => {},
                }
            },
            Option::None => {},
        }
    }
    out.append("\n");
}

/// Appends the rendered subtree of a node, depth first.
pub fn print_file_tree(
    node: &TreeNode,
    prefix: &str,
    is_last: bool,
    show_reasons: bool,
    out: &mut String,
)
    ensures
        final(out)@ == old(out)@ + spec_render_tree(node@, prefix@, is_last, show_reasons),
    decreases tree_height(tree_view(*node)),
{
    let ghost nv = tree_view(*node);
    let name_len = node.name.unicode_len();
    if name_len > 0 {
        print_tree_node(node, prefix, is_last, show_reasons, out);
    }
    let mut cp = String::new();
    if name_len == 0 {
        cp.append("  ");
    } else if is_last {
        cp.append(prefix);
        cp.append("    ");
    } else {
        cp.append(prefix);
        cp.append("│   ");
    }
    proof {
        assert(cp@ == spec_child_prefix(nv.name, prefix@, is_last));
    }
    let ghost cv = forest_view(node.children@);
    let ghost base = out@;
    let n = node.children.len();
    let mut j: usize = 0;
    proof {
        lemma_forest_view_index(node.children@);
        assert(cv.skip(0) =~= cv);
    }
    while j < n
        invariant
            nv == tree_view(*node),
            cv == forest_view(node.children@),
            cv.len() == node.children@.len(),
            forall|m: int| 0 <= m < node.children@.len() ==> cv[m] == tree_view(
                #[trigger] node.children@[m],
            ),
            n == node.children@.len(),
            j <= n,
            base + spec_render_forest(cv, cp@, show_reasons) =~= out@ + spec_render_forest(
                cv.skip(j as int),
                cp@,
                show_reasons,
            ),
        decreases n - j,
    {
        proof {
            assert(cv.skip(j as int)[0] == cv[j as int]);
            assert(cv.skip(j as int).drop_first() =~= cv.skip(j + 1));
            assert(cv.skip(j as int).len() == 1 <==> j == n - 1);
            lemma_forest_height_index(cv, j as int);
            assert(tree_height(nv) == 1 + forest_height(nv.children));
        }
        let is_last_child = j == n - 1;
        print_file_tree(&node.children[j], cp.as_str(), is_last_child, show_reasons, out);
        j = j + 1;
    }
    proof {
        assert(cv.skip(n as int).len() == 0);
        assert(out@ =~= base + spec_render_forest(cv, cp@, show_reasons));
    }
}

/// The rendered tree section for a list of recorded entries: the entries
/// sorted by relative path, grouped into a tree, every node's children
/// ordered directories first then by name, rendered under a two-space
/// indent.
pub open spec fn spec_tree_section(files: Seq<FileInfoV>, show: bool) -> Seq<char> {
    spec_render_tree(
        sort_tree(spec_build_from(spec_sort_files(files), 0, spec_empty_root())),
        Seq::empty(),
        false,
        show,
    )
}

/// Renders the tree of a list of recorded entries, with or without the
/// exclusion reasons.
pub fn print_tree_files(files: Vec<FileInfo>, show_reasons: bool) -> (r: String)
    ensures
        r@ == spec_tree_section(files.deep_view(), show_reasons),
{
    let sorted = sort_file_infos(files);
    let tree = build_file_tree(&sorted);
    let tree2 = sort_tree_children(tree);
    let mut out = String::new();
    print_file_tree(&tree2, "", false, show_reasons, &mut out);
    proof {
        reveal_strlit("");
        assert(""@ =~= Seq::<char>::empty());
    }
    out
}

/// The whole preview report: the scanned directory, then the tree of entries
/// that would be processed, then the tree of entries that would be excluded
/// with their reasons; an empty section prints `(none)`.
pub open spec fn spec_dry_run_report(
    inc: Seq<FileInfoV>,
    exc: Seq<FileInfoV>,
    dir: Seq<char>,
) -> Seq<char> {
    "Dry run for directory: "@ + dir + "\n"@ + "\n"@ + "Files that would be processed:"@ + "\n"@
        + (if inc.len() == 0 {
        "  (none)"@ + "\n"@
    } else {
        spec_tree_section(inc, false)
    }) + "\n"@ + "Files that would be excluded:"@ + "\n"@ + (if exc.len() == 0 {
        "  (none)"@ + "\n"@
    } else {
        spec_tree_section(exc, true)
    })
}

/// Renders the preview report for the recorded included and excluded
/// entries of a scan of `directory`.
pub fn print_dry_run_results(included: Vec<FileInfo>, excluded: Vec<FileInfo>, directory: &str)
    -> (r: String)
    ensures
        r@ == spec_dry_run_report(included.deep_view(), excluded.deep_view(), directory@),
{
    let mut out = String::new();
    out.append("Dry run for directory: ");
    out.append(directory);
    out.append("\n");
    out.append("\n");
    out.append("Files that would be processed:");
    out.append("\n");
    if included.len() == 0 {
        out.append("  (none)");
        out.append("\n");
    } else {
        let section = print_tree_files(included, false);
        out.append(section.as_str());
    }
    out.append("\n");
    out.append("Files that would be excluded:");
    out.append("\n");
    if excluded.len() == 0 {
        out.append("  (none)");
        out.append("\n");
    } else {
        let section = print_tree_files(excluded, true);
        out.append(section.as_str());
    }
    out
}

} // verus!
