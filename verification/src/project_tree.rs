use vstd::prelude::*;

use crate::names::{
    lemma_name_less_irreflexive, lemma_name_less_total, lemma_name_less_transitive, name_less,
    name_less_exec,
};

verus! {

/// A node of the project's file tree: a directory holds its entries by name,
/// in the order of the names, each name at most once.
#[derive(Debug, PartialEq, Eq)]
pub enum FileNode {
    Directory(Vec<(String, FileNode)>),
    File,
}

/// What stands at a path of the tree.
#[derive(Debug, Clone, Copy, PartialEq, Eq, Structural)]
pub enum NodeKind {
    Directory,
    File,
}

/// The names of the entries are strictly increasing.
pub open spec fn sorted_names(v: Seq<(String, FileNode)>) -> bool {
    forall|i: int, j: int|
        0 <= i < j < v.len() ==> name_less(#[trigger] v[i].0@, #[trigger] v[j].0@)
}

/// Every directory of the tree, at any depth, keeps its entries sorted.
pub open spec fn wf_node(n: FileNode) -> bool
    decreases n,
{
    match n {
        FileNode::Directory(v) => wf_entries(v@),
        FileNode::File => true,
    }
}

pub open spec fn wf_entries(v: Seq<(String, FileNode)>) -> bool
    decreases v,
{
    &&& sorted_names(v)
    &&& forall|i: int| 0 <= i < v.len() ==> wf_node(#[trigger] v[i].1)
}

/// The index of the entry named `name`, or -1.
pub open spec fn find_name(v: Seq<(String, FileNode)>, name: Seq<char>) -> int {
    if exists|i: int| 0 <= i < v.len() && #[trigger] v[i].0@ == name {
        choose|i: int| 0 <= i < v.len() && #[trigger] v[i].0@ == name
    } else {
        -1
    }
}

/// The components of a path, as character sequences.
pub open spec fn names_of(p: Seq<String>) -> Seq<Seq<char>> {
    p.map_values(|s: String| s@)
}

/// What stands at `path` below a directory whose entries are `v`: the
/// directory itself for the empty path.
pub open spec fn kind_in_entries(v: Seq<(String, FileNode)>, path: Seq<Seq<char>>) -> Option<
    NodeKind,
>
    decreases path.len(),
{
    if path.len() == 0 {
        Some(NodeKind::Directory)
    } else {
        let i = find_name(v, path[0]);
        if i < 0 {
            None
        } else {
            match v[i].1 {
                FileNode::File => if path.len() == 1 {
                    Some(NodeKind::File)
                } else {
                    None
                },
                FileNode::Directory(sub) => kind_in_entries(sub@, path.drop_first()),
            }
        }
    }
}

/// What stands at `q` after the path `p` was recorded as a directory
/// (`is_dir`) or a file, where `before` stood there until then: every
/// proper prefix of `p` becomes a directory, `p` itself gets its kind, a
/// file drops whatever was below it, and the rest of the tree is kept.
pub open spec fn kind_after_insert(
    before: Option<NodeKind>,
    p: Seq<Seq<char>>,
    is_dir: bool,
    q: Seq<Seq<char>>,
) -> Option<NodeKind> {
    if p.len() == 0 {
        before
    } else if q.len() < p.len() && q == p.take(q.len() as int) {
        Some(NodeKind::Directory)
    } else if q == p {
        Some(if is_dir { NodeKind::Directory } else { NodeKind::File })
    } else if !is_dir && q.len() > p.len() && q.take(p.len() as int) == p {
        None
    } else {
        before
    }
}

/// In sorted entries a name is found at the one index that holds it.
pub proof fn lemma_find_unique(v: Seq<(String, FileNode)>, name: Seq<char>, i: int)
    requires
        sorted_names(v),
        0 <= i < v.len(),
        v[i].0@ == name,
    ensures
        find_name(v, name) == i,
{
    let k = find_name(v, name);
    assert(0 <= k < v.len() && v[k].0@ == name);
    if k < i {
        assert(name_less(v[k].0@, v[i].0@));
        lemma_name_less_irreflexive(name);
    } else if k > i {
        assert(name_less(v[i].0@, v[k].0@));
        lemma_name_less_irreflexive(name);
    }
}

/// A name that no entry holds is not found.
pub proof fn lemma_find_absent(v: Seq<(String, FileNode)>, name: Seq<char>)
    requires
        forall|i: int| 0 <= i < v.len() ==> #[trigger] v[i].0@ != name,
    ensures
        find_name(v, name) == -1,
{
}

/// Searches the sorted entries for `name`: returns the index where it is,
/// or where it would be inserted to keep the entries sorted.
fn find_slot(tree: &Vec<(String, FileNode)>, name: &String) -> (r: (usize, bool))
    requires
        sorted_names(tree@),
    ensures
        r.0 <= tree.len(),
        forall|j: int| 0 <= j < r.0 ==> name_less(#[trigger] tree@[j].0@, name@),
        r.1 ==> r.0 < tree.len() && tree@[r.0 as int].0@ == name@,
        !r.1 ==> forall|j: int| r.0 <= j < tree.len() ==> name_less(name@, #[trigger] tree@[j].0@),
{
    let mut i: usize = 0;
    while i < tree.len() && name_less_exec(&tree[i].0, name)
        invariant
            i <= tree.len(),
            forall|j: int| 0 <= j < i ==> name_less(#[trigger] tree@[j].0@, name@),
        decreases tree.len() - i,
    {
        i += 1;
    }
    if i < tree.len() && tree[i].0 == *name {
        (i, true)
    } else {
        proof {
            if i < tree.len() {
                lemma_name_less_total(tree@[i as int].0@, name@);
                assert forall|j: int| i <= j < tree.len() implies name_less(
                    name@,
                    #[trigger] tree@[j].0@,
                ) by {
                    if j > i {
                        lemma_name_less_transitive(name@, tree@[i as int].0@, tree@[j].0@);
                    }
                }
            }
        }
        (i, false)
    }
}

/// What stands at `r` below the node `n`.
pub open spec fn kind_below(n: FileNode, r: Seq<Seq<char>>) -> Option<NodeKind> {
    match n {
        FileNode::File => if r.len() == 0 {
            Some(NodeKind::File)
        } else {
            None
        },
        FileNode::Directory(sub) => kind_in_entries(sub@, r),
    }
}

/// Below the entry named `q[0]` the path continues in that entry's node.
proof fn lemma_kind_through_entry(v: Seq<(String, FileNode)>, i: int, q: Seq<Seq<char>>)
    requires
        sorted_names(v),
        0 <= i < v.len(),
        q.len() > 0,
        v[i].0@ == q[0],
    ensures
        kind_in_entries(v, q) == kind_below(v[i].1, q.drop_first()),
{
    lemma_find_unique(v, q[0], i);
}

/// Below a name that no entry holds there is nothing.
proof fn lemma_kind_absent(v: Seq<(String, FileNode)>, q: Seq<Seq<char>>)
    requires
        q.len() > 0,
        forall|i: int| 0 <= i < v.len() ==> #[trigger] v[i].0@ != q[0],
    ensures
        kind_in_entries(v, q) == None::<NodeKind>,
{
    lemma_find_absent(v, q[0]);
}

/// Changing or adding the entry named `key` leaves every path that starts
/// with another name as it was.
proof fn lemma_kind_other_name(
    old: Seq<(String, FileNode)>,
    new: Seq<(String, FileNode)>,
    pos: int,
    entry: (String, FileNode),
    added: bool,
    q: Seq<Seq<char>>,
)
    requires
        sorted_names(old),
        sorted_names(new),
        0 <= pos <= old.len(),
        !added ==> pos < old.len() && old[pos].0@ == entry.0@,
        new == (if added {
            old.insert(pos, entry)
        } else {
            old.update(pos, entry)
        }),
        q.len() > 0,
        q[0] != entry.0@,
    ensures
        kind_in_entries(new, q) == kind_in_entries(old, q),
{
    if exists|i: int| 0 <= i < old.len() && #[trigger] old[i].0@ == q[0] {
        let i = choose|i: int| 0 <= i < old.len() && #[trigger] old[i].0@ == q[0];
        lemma_kind_through_entry(old, i, q);
        let j = if added && i >= pos {
            i + 1
        } else {
            i
        };
        assert(new[j] == old[i]);
        lemma_kind_through_entry(new, j, q);
    } else {
        lemma_kind_absent(old, q);
        assert forall|j: int| 0 <= j < new.len() implies #[trigger] new[j].0@ != q[0] by {
            if j != pos {
                let i = if added && j > pos {
                    j - 1
                } else {
                    j
                };
                assert(new[j] == old[i]);
            }
        }
        lemma_kind_absent(new, q);
    }
}

/// Two non-empty sequences with the same first element and the same rest
/// are equal.
proof fn lemma_seq_cons_eq<T>(a: Seq<T>, b: Seq<T>)
    requires
        a.len() > 0,
        b.len() > 0,
        a[0] == b[0],
        a.drop_first() == b.drop_first(),
    ensures
        a == b,
{
    assert(a.len() == a.drop_first().len() + 1);
    assert(b.len() == b.drop_first().len() + 1);
    assert forall|i: int| 0 <= i < a.len() implies a[i] == b[i] by {
        if i > 0 {
            assert(a[i] == a.drop_first()[i - 1]);
            assert(b[i] == b.drop_first()[i - 1]);
        }
    }
    assert(a =~= b);
}

/// How `kind_after_insert` reads for the first name of the path.
proof fn lemma_effect_first_name(
    b: Option<NodeKind>,
    p: Seq<Seq<char>>,
    is_dir: bool,
    q: Seq<Seq<char>>,
)
    requires
        p.len() > 0,
    ensures
        q.len() == 0 ==> kind_after_insert(b, p, is_dir, q) == Some(NodeKind::Directory),
        q.len() > 0 && q[0] != p[0] ==> kind_after_insert(b, p, is_dir, q) == b,
        q.len() > 0 && q[0] == p[0] && p.len() > 1 ==> kind_after_insert(b, p, is_dir, q)
            == kind_after_insert(b, p.drop_first(), is_dir, q.drop_first()),
        q.len() == 1 && q[0] == p[0] && p.len() == 1 ==> kind_after_insert(b, p, is_dir, q)
            == Some(if is_dir { NodeKind::Directory } else { NodeKind::File }),
        q.len() > 1 && q[0] == p[0] && p.len() == 1 ==> kind_after_insert(b, p, is_dir, q) == (
        if is_dir {
            b
        } else {
            None
        }),
{
    if q.len() == 0 {
        assert(q =~= p.take(0));
    } else if q[0] != p[0] {
        assert(q.len() < p.len() ==> q[0] != p.take(q.len() as int)[0]);
        assert(q.len() > p.len() ==> q.take(p.len() as int)[0] != p[0]);
    } else {
        let p1 = p.drop_first();
        let q1 = q.drop_first();
        if p.len() > 1 {
            if q.len() < p.len() {
                assert(q == p.take(q.len() as int) <==> q1 == p1.take(q1.len() as int)) by {
                    if q1 =~= p1.take(q1.len() as int) {
                        assert(p.take(q.len() as int).drop_first() =~= p1.take(q1.len() as int));
                        lemma_seq_cons_eq(q, p.take(q.len() as int));
                    }
                    if q == p.take(q.len() as int) {
                        assert(q1 =~= p1.take(q1.len() as int));
                    }
                }
            }
            assert(q == p <==> q1 == p1) by {
                if q1 == p1 {
                    lemma_seq_cons_eq(q, p);
                }
            }
            if q.len() > p.len() {
                assert(q.take(p.len() as int) == p <==> q1.take(p1.len() as int) == p1) by {
                    if q1.take(p1.len() as int) =~= p1 {
                        assert(q.take(p.len() as int).drop_first() =~= q1.take(p1.len() as int));
                        lemma_seq_cons_eq(q.take(p.len() as int), p);
                    }
                    if q.take(p.len() as int) == p {
                        assert(q1.take(p1.len() as int) =~= p1);
                    }
                }
            }
        } else {
            if q.len() == 1 {
                assert(q =~= p);
            } else {
                assert(q.take(p.len() as int) =~= p);
            }
        }
    }
}

/// Records the path `comps[start..]` in the entries `tree`: its proper
/// prefixes become directories, and the path itself a directory when
/// `is_dir`, else a file.
fn insert_from(tree: &mut Vec<(String, FileNode)>, comps: &Vec<String>, start: usize, is_dir: bool)
    requires
        wf_entries(old(tree)@),
        start <= comps.len(),
    ensures
        wf_entries(final(tree)@),
        forall|q: Seq<Seq<char>>|
            #![trigger kind_in_entries(final(tree)@, q)]
            kind_in_entries(final(tree)@, q) == kind_after_insert(
                kind_in_entries(old(tree)@, q),
                names_of(comps@).skip(start as int),
                is_dir,
                q,
            ),
    decreases comps.len() - start,
{
    let ghost old_tree = tree@;
    let ghost p = names_of(comps@).skip(start as int);
    if start >= comps.len() {
        assert forall|q: Seq<Seq<char>>|
            #![trigger kind_in_entries(tree@, q)]
            kind_in_entries(tree@, q) == kind_after_insert(
                kind_in_entries(old_tree, q),
                p,
                is_dir,
                q,
            ) by {}
        return ;
    }
    let key = &comps[start];
    assert(p[0] == key@);
    assert(p.drop_first() =~= names_of(comps@).skip(start + 1));
    let last = start + 1 == comps.len();
    let (pos, found) = find_slot(tree, key);
    if found {
        let (name, node) = tree.remove(pos);
        assert(tree@ =~= old_tree.remove(pos as int));
        let ghost old_node = node;
        assert(wf_node(old_tree[pos as int].1));
        let new_node = if last {
            if is_dir {
                match node {
                    FileNode::Directory(m) => FileNode::Directory(m),
                    FileNode::File => FileNode::Directory(Vec::new()),
                }
            } else {
                FileNode::File
            }
        } else {
            let mut m = match node {
                FileNode::Directory(m) => m,
                FileNode::File => Vec::new(),
            };
            let ghost m_old = m@;
            insert_from(&mut m, comps, start + 1, is_dir);
            proof {
                assert forall|r: Seq<Seq<char>>|
                    #![trigger kind_in_entries(m@, r)]
                    kind_in_entries(m@, r) == kind_after_insert(
                        kind_below(old_node, r),
                        p.drop_first(),
                        is_dir,
                        r,
                    ) by {
                    if old_node is File && r.len() > 0 {
                        lemma_kind_absent(m_old, r);
                    }
                    lemma_effect_first_name(kind_in_entries(m_old, r), p.drop_first(), is_dir, r);
                    lemma_effect_first_name(kind_below(old_node, r), p.drop_first(), is_dir, r);
                }
            }
            FileNode::Directory(m)
        };
        tree.insert(pos, (name, new_node));
        let ghost entry = tree@[pos as int];
        assert(tree@ =~= old_tree.update(pos as int, entry));
        proof {
            assert(wf_node(entry.1));
            assert forall|i: int, j: int|
                0 <= i < j < tree@.len() implies name_less(
                #[trigger] tree@[i].0@,
                #[trigger] tree@[j].0@,
            ) by {
                assert(old_tree[i].0@ == tree@[i].0@);
                assert(old_tree[j].0@ == tree@[j].0@);
            }
            assert forall|i: int| 0 <= i < tree@.len() implies wf_node(#[trigger] tree@[i].1) by {
                if i != pos {
                    assert(tree@[i] == old_tree[i]);
                }
            }
            assert forall|q: Seq<Seq<char>>|
                #![trigger kind_in_entries(tree@, q)]
                kind_in_entries(tree@, q) == kind_after_insert(
                    kind_in_entries(old_tree, q),
                    p,
                    is_dir,
                    q,
                ) by {
                lemma_effect_first_name(kind_in_entries(old_tree, q), p, is_dir, q);
                if q.len() == 0 {
                } else if q[0] != key@ {
                    lemma_kind_other_name(old_tree, tree@, pos as int, entry, false, q);
                } else {
                    lemma_kind_through_entry(old_tree, pos as int, q);
                    lemma_kind_through_entry(tree@, pos as int, q);
                    if !last {
                        lemma_effect_first_name(
                            kind_below(old_node, q.drop_first()),
                            p.drop_first(),
                            is_dir,
                            q.drop_first(),
                        );
                    }
                }
            }
        }
    } else {
        let new_node = if last {
            if is_dir {
                FileNode::Directory(Vec::new())
            } else {
                FileNode::File
            }
        } else {
            let mut m: Vec<(String, FileNode)> = Vec::new();
            let ghost m_old = m@;
            insert_from(&mut m, comps, start + 1, is_dir);
            proof {
                assert forall|r: Seq<Seq<char>>|
                    #![trigger kind_in_entries(m@, r)]
                    kind_in_entries(m@, r) == kind_after_insert(
                        if r.len() == 0 {
                            Some(NodeKind::Directory)
                        } else {
                            None
                        },
                        p.drop_first(),
                        is_dir,
                        r,
                    ) by {
                    if r.len() > 0 {
                        lemma_kind_absent(m_old, r);
                    }
                }
            }
            FileNode::Directory(m)
        };
        let name = key.clone();
        tree.insert(pos, (name, new_node));
        let ghost entry = tree@[pos as int];
        assert(tree@ =~= old_tree.insert(pos as int, entry));
        proof {
            assert(wf_node(entry.1));
            assert forall|i: int, j: int|
                0 <= i < j < tree@.len() implies name_less(
                #[trigger] tree@[i].0@,
                #[trigger] tree@[j].0@,
            ) by {
                if i < pos && j == pos {
                } else if i == pos {
                    assert(tree@[j] == old_tree[j - 1]);
                } else if j < pos {
                } else {
                    assert(tree@[j] == old_tree[j - 1]);
                    if i > pos {
                        assert(tree@[i] == old_tree[i - 1]);
                    }
                }
            }
            assert forall|i: int| 0 <= i < tree@.len() implies wf_node(#[trigger] tree@[i].1) by {
                if i > pos {
                    assert(tree@[i] == old_tree[i - 1]);
                }
            }
            assert forall|q: Seq<Seq<char>>|
                #![trigger kind_in_entries(tree@, q)]
                kind_in_entries(tree@, q) == kind_after_insert(
                    kind_in_entries(old_tree, q),
                    p,
                    is_dir,
                    q,
                ) by {
                lemma_effect_first_name(kind_in_entries(old_tree, q), p, is_dir, q);
                if q.len() == 0 {
                } else if q[0] != key@ {
                    lemma_kind_other_name(old_tree, tree@, pos as int, entry, true, q);
                } else {
                    lemma_name_less_irreflexive(q[0]);
                    assert forall|i: int| 0 <= i < old_tree.len() implies #[trigger] old_tree[i].0@
                        != q[0] by {}
                    lemma_kind_absent(old_tree, q);
                    lemma_kind_through_entry(tree@, pos as int, q);
                    if !last {
                        lemma_effect_first_name(
                            if q.len() == 1 {
                                Some(NodeKind::Directory)
                            } else {
                                None
                            },
                            p.drop_first(),
                            is_dir,
                            q.drop_first(),
                        );
                        lemma_effect_first_name(None, p.drop_first(), is_dir, q.drop_first());
                    } else if q.len() > 1 {
                        assert(kind_in_entries(Seq::<(String, FileNode)>::empty(), q.drop_first())
                            == None::<NodeKind>) by {
                            lemma_kind_absent(Seq::<(String, FileNode)>::empty(), q.drop_first());
                        }
                    }
                }
            }
        }
    }
}

/// Records `rel_path`, given by its components, in the directory entries
/// `tree`: its proper prefixes become directories (a file standing there is
/// replaced by a directory), and the path itself becomes a directory when
/// `is_dir` (keeping what a directory there held) or a file (dropping what
/// stood below it). Every other path keeps what stood there.
pub fn insert_into_tree(tree: &mut Vec<(String, FileNode)>, rel_path: &Vec<String>, is_dir: bool)
    requires
        wf_entries(old(tree)@),
    ensures
        wf_entries(final(tree)@),
        forall|q: Seq<Seq<char>>|
            #![trigger kind_in_entries(final(tree)@, q)]
            kind_in_entries(final(tree)@, q) == kind_after_insert(
                kind_in_entries(old(tree)@, q),
                names_of(rel_path@),
                is_dir,
                q,
            ),
{
    assert(names_of(rel_path@).skip(0) =~= names_of(rel_path@));
    insert_from(tree, rel_path, 0, is_dir);
}

/// The walk entries as paths of names with their kinds.
pub open spec fn walk_view(entries: Seq<(Vec<String>, bool)>) -> Seq<(Seq<Seq<char>>, bool)> {
    entries.map_values(|e: (Vec<String>, bool)| (names_of(e.0@), e.1))
}

/// What stands at `q` after recording the walked paths `es` in order,
/// starting from an empty directory.
pub open spec fn kind_after_inserts(es: Seq<(Seq<Seq<char>>, bool)>, q: Seq<Seq<char>>) -> Option<
    NodeKind,
>
    decreases es.len(),
{
    if es.len() == 0 {
        if q.len() == 0 {
            Some(NodeKind::Directory)
        } else {
            None
        }
    } else {
        kind_after_insert(kind_after_inserts(es.drop_last(), q), es.last().0, es.last().1, q)
    }
}

/// Builds the project tree from the walked paths, each given by its
/// components relative to the project root and whether it is a directory,
/// recording them in order.
pub fn build_tree(entries: &Vec<(Vec<String>, bool)>) -> (r: FileNode)
    ensures
        wf_node(r),
        r is Directory,
        forall|q: Seq<Seq<char>>|
            #![trigger kind_below(r, q)]
            kind_below(r, q) == kind_after_inserts(walk_view(entries@), q),
{
    let mut root_map: Vec<(String, FileNode)> = Vec::new();
    let mut i: usize = 0;
    proof {
        assert forall|q: Seq<Seq<char>>|
            #![trigger kind_in_entries(root_map@, q)]
            kind_in_entries(root_map@, q) == kind_after_inserts(
                walk_view(entries@).take(0),
                q,
            ) by {
            if q.len() > 0 {
                lemma_kind_absent(root_map@, q);
            }
        }
    }
    while i < entries.len()
        invariant
            i <= entries.len(),
            wf_entries(root_map@),
            forall|q: Seq<Seq<char>>|
                #![trigger kind_in_entries(root_map@, q)]
                kind_in_entries(root_map@, q) == kind_after_inserts(
                    walk_view(entries@).take(i as int),
                    q,
                ),
        decreases entries.len() - i,
    {
        let ghost before = root_map@;
        insert_into_tree(&mut root_map, &entries[i].0, entries[i].1);
        proof {
            let w = walk_view(entries@);
            assert(w.take(i + 1).drop_last() =~= w.take(i as int));
            assert(w.take(i + 1).last() == w[i as int]);
            assert forall|q: Seq<Seq<char>>|
                #![trigger kind_in_entries(root_map@, q)]
                kind_in_entries(root_map@, q) == kind_after_inserts(w.take(i + 1), q) by {
                assert(kind_in_entries(before, q) == kind_after_inserts(w.take(i as int), q));
            }
        }
        i += 1;
    }
    assert(walk_view(entries@).take(entries.len() as int) =~= walk_view(entries@));
    FileNode::Directory(root_map)
}

/// `a` is a proper prefix of `b`: `b` lies strictly below `a`.
pub open spec fn is_strictly_below(b: Seq<Seq<char>>, a: Seq<Seq<char>>) -> bool {
    a.len() < b.len() && b.take(a.len() as int) == a
}

/// A walk as a directory walk yields it: no path twice, no path empty, a
/// path never before one above it, and a path with something below it
/// walked as a directory.
pub open spec fn is_consistent_walk(es: Seq<(Seq<Seq<char>>, bool)>) -> bool {
    &&& forall|i: int| 0 <= i < es.len() ==> (#[trigger] es[i]).0.len() > 0
    &&& forall|i: int, j: int|
        0 <= i < j < es.len() ==> (#[trigger] es[i]).0 != (#[trigger] es[j]).0
            && !is_strictly_below(es[i].0, es[j].0)
    &&& forall|i: int, j: int|
        0 <= i < es.len() && 0 <= j < es.len() && is_strictly_below(
            (#[trigger] es[j]).0,
            (#[trigger] es[i]).0,
        ) ==> es[i].1
}

/// The tree built from a consistent walk holds every walked path, as a
/// directory or a file as it was walked.
pub proof fn lemma_walk_paths_stand(es: Seq<(Seq<Seq<char>>, bool)>, i: int)
    requires
        is_consistent_walk(es),
        0 <= i < es.len(),
    ensures
        kind_after_inserts(es, es[i].0) == Some(
            if es[i].1 {
                NodeKind::Directory
            } else {
                NodeKind::File
            },
        ),
    decreases es.len(),
{
    let n = es.len() - 1;
    let last = es[n];
    let q = es[i].0;
    if i == n {
        lemma_insert_makes_path(kind_after_inserts(es.drop_last(), q), q, last.1, 0);
    } else {
        let pre = es.drop_last();
        assert(is_consistent_walk(pre)) by {
            assert forall|a: int, b: int|
                0 <= a < pre.len() && 0 <= b < pre.len() && is_strictly_below(
                    (#[trigger] pre[b]).0,
                    (#[trigger] pre[a]).0,
                ) implies pre[a].1 by {
                assert(pre[a] == es[a] && pre[b] == es[b]);
            }
        }
        assert(pre[i] == es[i]);
        lemma_walk_paths_stand(pre, i);
        let p = last.0;
        assert(q != p);
        assert(!is_strictly_below(q, p));
        if q.len() < p.len() && q == p.take(q.len() as int) {
            assert(is_strictly_below(es[n].0, es[i].0));
        }
    }
}

/// The built tree holds nothing but the walked paths and the directories
/// above them.
pub proof fn lemma_tree_holds_only_walked(es: Seq<(Seq<Seq<char>>, bool)>, q: Seq<Seq<char>>)
    requires
        kind_after_inserts(es, q) is Some,
        q.len() > 0,
    ensures
        exists|i: int|
            0 <= i < es.len() && (q == (#[trigger] es[i]).0 || is_strictly_below(es[i].0, q)),
    decreases es.len(),
{
    let n = es.len() - 1;
    let p = es[n].0;
    if (q.len() < p.len() && q == p.take(q.len() as int)) || q == p {
        assert(q == es[n].0 || is_strictly_below(es[n].0, q));
    } else {
        let pre = es.drop_last();
        lemma_tree_holds_only_walked(pre, q);
        let i = choose|i: int|
            0 <= i < pre.len() && (q == (#[trigger] pre[i]).0 || is_strictly_below(pre[i].0, q));
        assert(pre[i] == es[i]);
    }
}

/// Recording a path makes it stand with its kind, and all its proper
/// prefixes directories.
pub proof fn lemma_insert_makes_path(
    before: Option<NodeKind>,
    p: Seq<Seq<char>>,
    is_dir: bool,
    k: int,
)
    requires
        p.len() > 0,
        0 <= k < p.len(),
    ensures
        kind_after_insert(before, p, is_dir, p) == Some(
            if is_dir {
                NodeKind::Directory
            } else {
                NodeKind::File
            },
        ),
        kind_after_insert(before, p, is_dir, p.take(k)) == Some(NodeKind::Directory),
{
    assert(p.take(k) =~= p.take(p.take(k).len() as int));
}

/// Recording a path leaves every path that is neither above nor below it,
/// nor the path itself, as it was.
pub proof fn lemma_insert_keeps_unrelated(
    before: Option<NodeKind>,
    p: Seq<Seq<char>>,
    is_dir: bool,
    q: Seq<Seq<char>>,
)
    requires
        q != p,
        !is_strictly_below(p, q),
        !is_strictly_below(q, p),
    ensures
        kind_after_insert(before, p, is_dir, q) == before,
{
}

/// Recording a file (a non-empty path) leaves nothing below it.
pub proof fn lemma_insert_file_clears_below(
    before: Option<NodeKind>,
    p: Seq<Seq<char>>,
    q: Seq<Seq<char>>,
)
    requires
        p.len() > 0,
        is_strictly_below(q, p),
    ensures
        kind_after_insert(before, p, false, q) is None,
{
}

/// Recording the same path twice is the same as recording it once.
pub proof fn lemma_insert_idempotent(
    before: Option<NodeKind>,
    p: Seq<Seq<char>>,
    is_dir: bool,
    q: Seq<Seq<char>>,
)
    ensures
        kind_after_insert(kind_after_insert(before, p, is_dir, q), p, is_dir, q)
            == kind_after_insert(before, p, is_dir, q),
{
}

/// Recording a directory never removes anything from the tree.
pub proof fn lemma_insert_dir_keeps(before: Option<NodeKind>, p: Seq<Seq<char>>, q: Seq<Seq<char>>)
    ensures
        before is Some ==> kind_after_insert(before, p, true, q) is Some,
{
}

/// One step of drawing the tree view: open a directory row, draw a file
/// row, or close the directory opened last. Every row carries its id.
#[derive(Debug, PartialEq, Eq)]
pub enum TreeCommand {
    Dir { id: usize, label: String },
    Leaf { id: usize, name: String },
    CloseDir,
}

/// A drawing step as plain values.
pub ghost enum TreeStep {
    Dir(nat, Seq<char>),
    Leaf(nat, Seq<char>),
    CloseDir,
}

impl View for TreeCommand {
    type V = TreeStep;

    open spec fn view(&self) -> TreeStep {
        match self {
            TreeCommand::Dir { id, label } => TreeStep::Dir(*id as nat, label@),
            TreeCommand::Leaf { id, name } => TreeStep::Leaf(*id as nat, name@),
            TreeCommand::CloseDir => TreeStep::CloseDir,
        }
    }
}

pub open spec fn commands_view(cs: Seq<TreeCommand>) -> Seq<TreeStep> {
    cs.map_values(|c: TreeCommand| c@)
}

/// How many ids drawing a directory with the entries `v` takes: one for the
/// directory and one for each row below it.
pub open spec fn dir_size(v: Seq<(String, FileNode)>) -> nat
    decreases v, 1nat,
{
    1 + entries_size(v)
}

pub open spec fn entries_size(v: Seq<(String, FileNode)>) -> nat
    decreases v, 0nat,
{
    if v.len() == 0 {
        0
    } else {
        let rest = v.subrange(0, v.len() - 1);
        entries_size(rest) + match v[v.len() - 1].1 {
            FileNode::File => 1,
            FileNode::Directory(sub) => dir_size(sub@),
        }
    }
}

/// The drawing of a directory labelled `label` with entries `v`, its ids
/// counted from `id` in the order the rows are drawn: the directory row,
/// then each entry in the order of the names (a file as one row, a
/// directory drawn the same way), then the closing of the directory.
pub open spec fn render_dir(label: Seq<char>, v: Seq<(String, FileNode)>, id: nat) -> Seq<TreeStep>
    decreases v, 1nat,
{
    seq![TreeStep::Dir(id, label)] + render_entries(v, id + 1) + seq![TreeStep::CloseDir]
}

pub open spec fn render_entries(v: Seq<(String, FileNode)>, id: nat) -> Seq<TreeStep>
    decreases v, 0nat,
{
    if v.len() == 0 {
        seq![]
    } else {
        let rest = v.subrange(0, v.len() - 1);
        let last = v[v.len() - 1];
        let at = id + entries_size(rest);
        render_entries(rest, id) + match last.1 {
            FileNode::File => seq![TreeStep::Leaf(at, last.0@)],
            FileNode::Directory(sub) => render_dir(last.0@, sub@, at),
        }
    }
}

/// Draws the directory `label` with entries `nodes`, numbering its rows
/// from `*next_id` on.
pub fn render_tree(
    commands: &mut Vec<TreeCommand>,
    nodes: &Vec<(String, FileNode)>,
    next_id: &mut usize,
    label: &String,
)
    requires
        *old(next_id) + dir_size(nodes@) <= usize::MAX,
    ensures
        commands_view(final(commands)@) == commands_view(old(commands)@) + render_dir(
            label@,
            nodes@,
            *old(next_id) as nat,
        ),
        *final(next_id) == *old(next_id) + dir_size(nodes@),
    decreases nodes@,
{
    let ghost cs0 = commands@;
    let ghost id0 = *next_id as nat;
    let this_dir_id = *next_id;
    *next_id += 1;
    commands.push(TreeCommand::Dir { id: this_dir_id, label: label.clone() });
    let mut i: usize = 0;
    while i < nodes.len()
        invariant
            i <= nodes.len(),
            id0 + dir_size(nodes@) <= usize::MAX,
            *next_id == id0 + 1 + entries_size(nodes@.take(i as int)),
            commands_view(commands@) == commands_view(cs0) + seq![TreeStep::Dir(id0, label@)]
                + render_entries(nodes@.take(i as int), id0 + 1),
        decreases nodes.len() - i,
    {
        let ghost pre = commands@;
        assert(nodes@.take(i + 1).subrange(0, i as int) =~= nodes@.take(i as int));
        proof {
            lemma_entries_size_prefix(nodes@, i as int + 1);
        }
        let ghost at = id0 + 1 + entries_size(nodes@.take(i as int));
        let ghost drawn = match nodes@[i as int].1 {
            FileNode::File => seq![TreeStep::Leaf(at, nodes@[i as int].0@)],
            FileNode::Directory(sub) => render_dir(nodes@[i as int].0@, sub@, at),
        };
        assert(render_entries(nodes@.take(i + 1), id0 + 1) == render_entries(
            nodes@.take(i as int),
            id0 + 1,
        ) + drawn);
        match &nodes[i].1 {
            FileNode::File => {
                let leaf_id = *next_id;
                *next_id += 1;
                commands.push(TreeCommand::Leaf { id: leaf_id, name: nodes[i].0.clone() });
                assert(commands_view(commands@) =~= commands_view(pre) + drawn);
            },
            FileNode::Directory(subtree) => {
                assert(decreases_to!(nodes@ => subtree@)) by {
                    assert(decreases_to!(nodes@ => nodes@[i as int]));
                };
                render_tree(commands, subtree, next_id, &nodes[i].0);
            },
        }
        assert(commands_view(commands@) =~= commands_view(cs0) + seq![TreeStep::Dir(id0, label@)]
            + render_entries(nodes@.take(i + 1), id0 + 1));
        i += 1;
    }
    assert(nodes@.take(nodes.len() as int) =~= nodes@);
    let ghost pre = commands@;
    commands.push(TreeCommand::CloseDir);
    assert(commands_view(commands@) =~= commands_view(pre).push(TreeStep::CloseDir));
    assert(commands_view(commands@) =~= commands_view(cs0) + render_dir(label@, nodes@, id0));
}

/// The ids of a prefix take no more than those of the whole.
proof fn lemma_entries_size_prefix(v: Seq<(String, FileNode)>, k: int)
    requires
        0 <= k <= v.len(),
    ensures
        entries_size(v.take(k)) <= entries_size(v),
    decreases v.len() - k,
{
    if k < v.len() {
        lemma_entries_size_prefix(v, k + 1);
        assert(v.take(k + 1).subrange(0, k) =~= v.take(k));
        assert(entries_size(v.take(k + 1)) >= entries_size(v.take(k)));
    } else {
        assert(v.take(k) =~= v);
    }
}

/// Counts the ids that drawing a directory with entries `nodes` takes, or
/// `None` where the count does not fit in a `usize`.
pub fn count_rows(nodes: &Vec<(String, FileNode)>) -> (r: Option<usize>)
    ensures
        r matches Some(n) ==> n == dir_size(nodes@),
        r is None ==> dir_size(nodes@) > usize::MAX,
    decreases nodes@,
{
    let mut total: usize = 1;
    let mut i: usize = 0;
    while i < nodes.len()
        invariant
            i <= nodes.len(),
            total == 1 + entries_size(nodes@.take(i as int)),
        decreases nodes.len() - i,
    {
        assert(nodes@.take(i + 1).subrange(0, i as int) =~= nodes@.take(i as int));
        proof {
            lemma_entries_size_prefix(nodes@, i as int + 1);
        }
        let part = match &nodes[i].1 {
            FileNode::File => Some(1usize),
            FileNode::Directory(subtree) => {
                assert(decreases_to!(nodes@ => subtree@)) by {
                    assert(decreases_to!(nodes@ => nodes@[i as int]));
                };
                count_rows(subtree)
            },
        };
        match part {
            Some(n) => match total.checked_add(n) {
                Some(t) => {
                    total = t;
                },
                None => {
                    return None;
                },
            },
            None => {
                return None;
            },
        }
        i += 1;
    }
    assert(nodes@.take(nodes.len() as int) =~= nodes@);
    Some(total)
}

/// The rows of the project panel for the tree `root` labelled `root_label`:
/// nothing for a file, and the drawing of the directory with ids from 0 on,
/// unless there are more rows than a `usize` can number.
pub fn nested_tree_commands(root: &FileNode, root_label: &String) -> (r: Option<Vec<TreeCommand>>)
    ensures
        match root {
            FileNode::File => r matches Some(cs) && cs@.len() == 0,
            FileNode::Directory(v) => if dir_size(v@) <= usize::MAX {
                r matches Some(cs) && commands_view(cs@) == render_dir(root_label@, v@, 0)
            } else {
                r is None
            },
        },
{
    match root {
        FileNode::File => Some(Vec::new()),
        FileNode::Directory(tree_map) => {
            if count_rows(tree_map).is_none() {
                return None;
            }
            let mut commands: Vec<TreeCommand> = Vec::new();
            let mut next_id: usize = 0;
            render_tree(&mut commands, tree_map, &mut next_id, root_label);
            assert(commands_view(commands@) =~= render_dir(root_label@, tree_map@, 0));
            Some(commands)
        },
    }
}

/// The ids of the rows, in the order they are drawn.
pub open spec fn row_ids(s: Seq<TreeStep>) -> Seq<nat>
    decreases s.len(),
{
    if s.len() == 0 {
        seq![]
    } else {
        row_ids(s.drop_last()) + match s.last() {
            TreeStep::Dir(i, _) => seq![i],
            TreeStep::Leaf(i, _) => seq![i],
            TreeStep::CloseDir => seq![],
        }
    }
}

/// The `n` consecutive ids from `start`.
pub open spec fn id_range(start: nat, n: nat) -> Seq<nat> {
    Seq::new(n, |k: int| (start + k) as nat)
}

proof fn lemma_row_ids_concat(a: Seq<TreeStep>, b: Seq<TreeStep>)
    ensures
        row_ids(a + b) == row_ids(a) + row_ids(b),
    decreases b.len(),
{
    if b.len() == 0 {
        assert(a + b =~= a);
        assert(row_ids(b) =~= Seq::<nat>::empty());
        assert(row_ids(a) + row_ids(b) =~= row_ids(a));
    } else {
        lemma_row_ids_concat(a, b.drop_last());
        assert((a + b).drop_last() =~= a + b.drop_last());
        assert((a + b).last() == b.last());
        assert(row_ids(a + b) =~= row_ids(a) + row_ids(b));
    }
}

proof fn lemma_id_range_split(start: nat, n: nat, m: nat)
    ensures
        id_range(start, n) + id_range(start + n, m) == id_range(start, n + m),
{
    assert(id_range(start, n) + id_range(start + n, m) =~= id_range(start, n + m));
}

/// Drawing a directory numbers its rows with consecutive ids from the one
/// it starts with, each id once, as many as `dir_size` counts.
pub proof fn lemma_render_dir_ids(label: Seq<char>, v: Seq<(String, FileNode)>, id: nat)
    ensures
        row_ids(render_dir(label, v, id)) == id_range(id, dir_size(v)),
    decreases v, 1nat,
{
    lemma_render_entries_ids(v, id + 1);
    let open = seq![TreeStep::Dir(id, label)];
    let body = render_entries(v, id + 1);
    let close = seq![TreeStep::CloseDir];
    lemma_row_ids_concat(open, body);
    lemma_row_ids_concat(open + body, close);
    assert(row_ids(open) =~= seq![id]) by {
        assert(open.drop_last() =~= Seq::<TreeStep>::empty());
        assert(row_ids(open.drop_last()) =~= Seq::<nat>::empty());
    }
    assert(row_ids(close) =~= Seq::<nat>::empty()) by {
        assert(close.drop_last() =~= Seq::<TreeStep>::empty());
        assert(row_ids(close.drop_last()) =~= Seq::<nat>::empty());
    }
    assert(seq![id] =~= id_range(id, 1));
    lemma_id_range_split(id, 1, entries_size(v));
    assert(row_ids(open + body + close) =~= row_ids(open) + row_ids(body));
}

/// The rows of a directory's entries take consecutive ids from `id` on.
pub proof fn lemma_render_entries_ids(v: Seq<(String, FileNode)>, id: nat)
    ensures
        row_ids(render_entries(v, id)) == id_range(id, entries_size(v)),
    decreases v, 0nat,
{
    if v.len() == 0 {
        assert(row_ids(Seq::<TreeStep>::empty()) =~= id_range(id, 0));
    } else {
        let rest = v.subrange(0, v.len() - 1);
        let last = v[v.len() - 1];
        let at = id + entries_size(rest);
        lemma_render_entries_ids(rest, id);
        let drawn = match last.1 {
            FileNode::File => seq![TreeStep::Leaf(at, last.0@)],
            FileNode::Directory(sub) => render_dir(last.0@, sub@, at),
        };
        lemma_row_ids_concat(render_entries(rest, id), drawn);
        match last.1 {
            FileNode::File => {
                assert(row_ids(drawn) =~= seq![at]) by {
                    assert(drawn.drop_last() =~= Seq::<TreeStep>::empty());
                    assert(row_ids(drawn.drop_last()) =~= Seq::<nat>::empty());
                }
                assert(seq![at] =~= id_range(at, 1));
                lemma_id_range_split(id, entries_size(rest), 1);
            },
            FileNode::Directory(sub) => {
                assert(decreases_to!(v => sub@)) by {
                    assert(decreases_to!(v => v[v.len() - 1]));
                };
                lemma_render_dir_ids(last.0@, sub@, at);
                lemma_id_range_split(id, entries_size(rest), dir_size(sub@));
            },
        }
    }
}

/// How the number of open directories changes with a step: a directory
/// row opens one, a closing closes one, a file row changes nothing.
pub open spec fn step_depth(t: TreeStep) -> int {
    match t {
        TreeStep::Dir(_, _) => 1,
        TreeStep::Leaf(_, _) => 0,
        TreeStep::CloseDir => -1,
    }
}

/// The number of directories opened and not yet closed after the steps
/// `s`: the directory rows minus the closings.
pub open spec fn depth(s: Seq<TreeStep>) -> int
    decreases s.len(),
{
    if s.len() == 0 {
        0
    } else {
        depth(s.drop_last()) + step_depth(s.last())
    }
}

/// The rows drawn at the outermost level of `s` (with no directory of `s`
/// open around them), each as its label and whether it is a directory row.
pub open spec fn top_rows(s: Seq<TreeStep>) -> Seq<(Seq<char>, bool)>
    decreases s.len(),
{
    if s.len() == 0 {
        seq![]
    } else {
        top_rows(s.drop_last()) + if depth(s.drop_last()) == 0 {
            match s.last() {
                TreeStep::Dir(_, l) => seq![(l, true)],
                TreeStep::Leaf(_, l) => seq![(l, false)],
                TreeStep::CloseDir => seq![],
            }
        } else {
            seq![]
        }
    }
}

/// The entries of a directory as names and whether each is a directory.
pub open spec fn entry_rows(v: Seq<(String, FileNode)>) -> Seq<(Seq<char>, bool)> {
    v.map_values(|e: (String, FileNode)| (e.0@, e.1 is Directory))
}

proof fn lemma_depth_concat(a: Seq<TreeStep>, b: Seq<TreeStep>)
    ensures
        depth(a + b) == depth(a) + depth(b),
    decreases b.len(),
{
    if b.len() == 0 {
        assert(a + b =~= a);
    } else {
        assert((a + b).drop_last() =~= a + b.drop_last());
        lemma_depth_concat(a, b.drop_last());
    }
}

proof fn lemma_top_rows_concat(a: Seq<TreeStep>, b: Seq<TreeStep>)
    requires
        depth(a) == 0,
    ensures
        top_rows(a + b) == top_rows(a) + top_rows(b),
    decreases b.len(),
{
    if b.len() == 0 {
        assert(a + b =~= a);
        assert(top_rows(a) + top_rows(b) =~= top_rows(a));
    } else {
        assert((a + b).drop_last() =~= a + b.drop_last());
        lemma_top_rows_concat(a, b.drop_last());
        lemma_depth_concat(a, b.drop_last());
        assert(top_rows(a + b) =~= top_rows(a) + top_rows(b));
    }
}

proof fn lemma_take_concat(a: Seq<TreeStep>, b: Seq<TreeStep>, k: int)
    requires
        0 <= k <= a.len() + b.len(),
    ensures
        k <= a.len() ==> (a + b).take(k) == a.take(k),
        k > a.len() ==> (a + b).take(k) == a + b.take(k - a.len()),
{
    if k <= a.len() {
        assert((a + b).take(k) =~= a.take(k));
    } else {
        assert((a + b).take(k) =~= a + b.take(k - a.len()));
    }
}

/// A run of steps that opens with a directory row and keeps it open until
/// its last step shows only that row at its outermost level.
proof fn lemma_top_rows_single_dir(s: Seq<TreeStep>, i: nat, l: Seq<char>)
    requires
        s.len() >= 1,
        s[0] == TreeStep::Dir(i, l),
        forall|k: int| 1 <= k < s.len() ==> depth(#[trigger] s.take(k)) >= 1,
    ensures
        top_rows(s) == seq![(l, true)],
    decreases s.len(),
{
    if s.len() == 1 {
        assert(s.drop_last() =~= Seq::<TreeStep>::empty());
        assert(top_rows(s.drop_last()) =~= Seq::<(Seq<char>, bool)>::empty());
        assert(top_rows(s) =~= seq![(l, true)]);
    } else {
        let t = s.drop_last();
        assert forall|k: int| 1 <= k < t.len() implies depth(#[trigger] t.take(k)) >= 1 by {
            assert(t.take(k) =~= s.take(k));
        }
        lemma_top_rows_single_dir(t, i, l);
        assert(s.take(s.len() - 1) =~= t);
        assert(top_rows(s) =~= top_rows(t));
    }
}

/// The drawing of a directory is well nested: it opens with the
/// directory's row, ends with its closing, closes exactly as many
/// directories as it opens (an empty directory too), and keeps the
/// directory open everywhere in between. At its outermost level it shows
/// only the directory's own row.
pub proof fn lemma_render_dir_nested(label: Seq<char>, v: Seq<(String, FileNode)>, id: nat)
    ensures
        ({
            let r = render_dir(label, v, id);
            &&& r.len() >= 2
            &&& r[0] == TreeStep::Dir(id, label)
            &&& r.last() == TreeStep::CloseDir
            &&& depth(r) == 0
            &&& forall|k: int| 1 <= k < r.len() ==> depth(#[trigger] r.take(k)) >= 1
            &&& top_rows(r) == seq![(label, true)]
        }),
    decreases v, 1nat,
{
    lemma_render_entries_nested(v, id + 1);
    let open = seq![TreeStep::Dir(id, label)];
    let body = render_entries(v, id + 1);
    let close = seq![TreeStep::CloseDir];
    let r = render_dir(label, v, id);
    assert(r == open + body + close);
    assert(depth(open) == 1) by {
        assert(open.drop_last() =~= Seq::<TreeStep>::empty());
        assert(depth(open.drop_last()) == 0);
    }
    assert(depth(close) == -1) by {
        assert(close.drop_last() =~= Seq::<TreeStep>::empty());
        assert(depth(close.drop_last()) == 0);
    }
    lemma_depth_concat(open, body);
    lemma_depth_concat(open + body, close);
    assert forall|k: int| 1 <= k < r.len() implies depth(#[trigger] r.take(k)) >= 1 by {
        lemma_take_concat(open + body, close, k);
        lemma_take_concat(open, body, k);
        assert(r.take(k) == open + body.take(k - 1));
        lemma_depth_concat(open, body.take(k - 1));
    }
    lemma_top_rows_single_dir(r, id, label);
}

/// The drawing of a directory's entries is well nested (it never closes
/// more than it opened and closes all it opens), and at its outermost level
/// it shows the entries in order, each with its own name, a directory as a
/// directory row and a file as a file row.
pub proof fn lemma_render_entries_nested(v: Seq<(String, FileNode)>, id: nat)
    ensures
        depth(render_entries(v, id)) == 0,
        forall|k: int|
            0 <= k <= render_entries(v, id).len() ==> depth(#[trigger] render_entries(v, id).take(k))
                >= 0,
        top_rows(render_entries(v, id)) == entry_rows(v),
    decreases v, 0nat,
{
    let e = render_entries(v, id);
    if v.len() == 0 {
        assert(e =~= Seq::<TreeStep>::empty());
        assert forall|k: int| 0 <= k <= e.len() implies depth(#[trigger] e.take(k)) >= 0 by {
            assert(e.take(k) =~= Seq::<TreeStep>::empty());
        }
        assert(entry_rows(v) =~= Seq::<(Seq<char>, bool)>::empty());
        assert(top_rows(e) =~= Seq::<(Seq<char>, bool)>::empty());
    } else {
        let rest = v.subrange(0, v.len() - 1);
        let last = v[v.len() - 1];
        let at = id + entries_size(rest);
        lemma_render_entries_nested(rest, id);
        let er = render_entries(rest, id);
        let drawn = match last.1 {
            FileNode::File => seq![TreeStep::Leaf(at, last.0@)],
            FileNode::Directory(sub) => render_dir(last.0@, sub@, at),
        };
        assert(e == er + drawn);
        match last.1 {
            FileNode::File => {
                assert(drawn.drop_last() =~= Seq::<TreeStep>::empty());
                assert(depth(drawn.drop_last()) == 0);
                assert(top_rows(drawn.drop_last()) =~= Seq::<(Seq<char>, bool)>::empty());
                assert(depth(drawn) == 0);
                assert(top_rows(drawn) =~= seq![(last.0@, false)]);
                assert forall|j: int| 0 <= j <= drawn.len() implies depth(#[trigger] drawn.take(j))
                    >= 0 by {
                    if j == 0 {
                        assert(drawn.take(j) =~= Seq::<TreeStep>::empty());
                    } else {
                        assert(drawn.take(j) =~= drawn);
                    }
                }
            },
            FileNode::Directory(sub) => {
                assert(decreases_to!(v => sub@)) by {
                    assert(decreases_to!(v => v[v.len() - 1]));
                };
                lemma_render_dir_nested(last.0@, sub@, at);
                assert forall|j: int| 0 <= j <= drawn.len() implies depth(#[trigger] drawn.take(j))
                    >= 0 by {
                    if j == 0 {
                        assert(drawn.take(j) =~= Seq::<TreeStep>::empty());
                    } else if j == drawn.len() {
                        assert(drawn.take(j) =~= drawn);
                    }
                }
            },
        }
        lemma_depth_concat(er, drawn);
        assert forall|k: int| 0 <= k <= e.len() implies depth(#[trigger] e.take(k)) >= 0 by {
            lemma_take_concat(er, drawn, k);
            if k > er.len() {
                lemma_depth_concat(er, drawn.take(k - er.len()));
            }
        }
        lemma_top_rows_concat(er, drawn);
        assert(entry_rows(v) =~= entry_rows(rest) + seq![(last.0@, last.1 is Directory)]);
    }
}

} // verus!
